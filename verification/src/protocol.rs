//! Message types of the chat protocol and their mathematical views.
//!
//! Every unit of communication between two peers is a [`Message`]: an
//! identifier, a creation time and a typed payload. The types here are plain
//! data; their binary form lives in [`crate::wire`].

use vstd::prelude::*;

verus! {

/// Number of nanoseconds in one second.
pub const NANOS_PER_SEC: u32 = 1_000_000_000;

/// A point in time, counted from the Unix epoch.
#[derive(Debug, Clone, Copy, PartialEq, Eq, Structural)]
pub struct Timestamp {
    /// Whole seconds since the epoch.
    pub secs: u64,
    /// Nanoseconds within the second.
    pub nanos: u32,
}

impl Timestamp {
    /// A timestamp is valid when its sub-second part is less than one second.
    pub open spec fn is_valid(&self) -> bool {
        self.nanos < NANOS_PER_SEC
    }

    /// The timestamp `secs` whole seconds after the epoch.
    pub fn from_secs(secs: u64) -> (t: Timestamp)
        ensures
            t == (Timestamp { secs, nanos: 0 }),
            t.is_valid(),
    {
        Timestamp { secs, nanos: 0 }
    }

    /// Reads the system clock. A clock set before the epoch reads as the
    /// epoch itself.
    pub fn now() -> (t: Timestamp)
        ensures
            t.is_valid(),
    {
        match clock_since_epoch() {
            Some((secs, nanos)) => Timestamp { secs, nanos },
            None => Timestamp { secs: 0, nanos: 0 },
        }
    }

    /// Whether the sub-second part is in range.
    pub fn check_valid(&self) -> (ok: bool)
        ensures
            ok == self.is_valid(),
    {
        self.nanos < NANOS_PER_SEC
    }
}

/// Calls `std::time::SystemTime::now` and splits the time elapsed since
/// `UNIX_EPOCH` into whole seconds and the sub-second nanoseconds; `None`
/// where the clock is set before the epoch. The only claim is the one
/// `Duration::subsec_nanos` documents: the fraction is below one billion.
#[verifier::external_body]
fn clock_since_epoch() -> (r: Option<(u64, u32)>)
    ensures
        r matches Some(parts) ==> parts.1 < NANOS_PER_SEC,
{
    match std::time::SystemTime::now().duration_since(std::time::UNIX_EPOCH) {
        Ok(elapsed) => Some((elapsed.as_secs(), elapsed.subsec_nanos())),
        Err(_) => None,
    }
}

/// Calls `rand::random::<u64>`, which draws from the thread-local generator.
/// Nothing is claimed of the value.
#[verifier::external_body]
fn random_id() -> (id: u64) {
    rand::random::<u64>()
}

/// File contents together with the metadata that lets the receiver check them.
#[derive(Debug, PartialEq)]
pub struct FileInfo {
    /// File name including extension.
    pub name: String,
    /// File size in bytes.
    pub size: u64,
    /// Lower-case hexadecimal SHA-256 digest of `data`.
    pub hash: String,
    /// Complete file contents.
    pub data: Vec<u8>,
}

/// Mathematical view of a [`FileInfo`].
pub struct FileInfoView {
    pub name: Seq<char>,
    pub size: u64,
    pub hash: Seq<char>,
    pub data: Seq<u8>,
}

impl View for FileInfo {
    type V = FileInfoView;

    open spec fn view(&self) -> FileInfoView {
        FileInfoView { name: self.name@, size: self.size, hash: self.hash@, data: self.data@ }
    }
}

impl Clone for FileInfo {
    fn clone(&self) -> (r: Self)
        ensures
            r@ == self@,
    {
        FileInfo {
            name: self.name.clone(),
            size: self.size,
            hash: self.hash.clone(),
            data: self.data.clone(),
        }
    }
}

/// Commands a user can issue from the chat prompt.
#[derive(Debug, PartialEq)]
pub enum Command {
    /// Exit the chat application.
    Quit,
    /// Display help information.
    Help,
    /// Show connection and configuration information.
    Info,
    /// List all currently connected peers.
    ListPeers,
    /// Send the file at the given path.
    SendFile(String),
    /// Set or change the user's nickname.
    SetNickname(String),
    /// Toggle automatic opening of received media files.
    ToggleAutoOpen,
    /// Display reliability statistics.
    Stats,
}

/// Mathematical view of a [`Command`].
pub enum CommandView {
    Quit,
    Help,
    Info,
    ListPeers,
    SendFile(Seq<char>),
    SetNickname(Seq<char>),
    ToggleAutoOpen,
    Stats,
}

impl View for Command {
    type V = CommandView;

    open spec fn view(&self) -> CommandView {
        match self {
            Command::Quit => CommandView::Quit,
            Command::Help => CommandView::Help,
            Command::Info => CommandView::Info,
            Command::ListPeers => CommandView::ListPeers,
            Command::SendFile(path) => CommandView::SendFile(path@),
            Command::SetNickname(name) => CommandView::SetNickname(name@),
            Command::ToggleAutoOpen => CommandView::ToggleAutoOpen,
            Command::Stats => CommandView::Stats,
        }
    }
}

impl Clone for Command {
    fn clone(&self) -> (r: Self)
        ensures
            r@ == self@,
    {
        match self {
            Command::Quit => Command::Quit,
            Command::Help => Command::Help,
            Command::Info => Command::Info,
            Command::ListPeers => Command::ListPeers,
            Command::SendFile(path) => Command::SendFile(path.clone()),
            Command::SetNickname(name) => Command::SetNickname(name.clone()),
            Command::ToggleAutoOpen => Command::ToggleAutoOpen,
            Command::Stats => Command::Stats,
        }
    }
}

/// Notifications about system events.
#[derive(Debug, PartialEq)]
pub enum StatusUpdate {
    /// A new peer has connected (peer identifier).
    PeerConnected(String),
    /// A peer has disconnected (peer identifier).
    PeerDisconnected(String),
    /// File transfer progress (file name, bytes transferred, total bytes).
    TransferProgress(String, u64, u64),
    /// Error message for display to the user.
    Error(String),
    /// End-to-end encryption has been enabled.
    EncryptionEnabled,
    /// Encryption has been disabled or failed to establish.
    EncryptionDisabled,
}

/// Mathematical view of a [`StatusUpdate`].
pub enum StatusUpdateView {
    PeerConnected(Seq<char>),
    PeerDisconnected(Seq<char>),
    TransferProgress(Seq<char>, u64, u64),
    Error(Seq<char>),
    EncryptionEnabled,
    EncryptionDisabled,
}

impl View for StatusUpdate {
    type V = StatusUpdateView;

    open spec fn view(&self) -> StatusUpdateView {
        match self {
            StatusUpdate::PeerConnected(id) => StatusUpdateView::PeerConnected(id@),
            StatusUpdate::PeerDisconnected(id) => StatusUpdateView::PeerDisconnected(id@),
            StatusUpdate::TransferProgress(name, done, total) => StatusUpdateView::TransferProgress(
                name@,
                *done,
                *total,
            ),
            StatusUpdate::Error(text) => StatusUpdateView::Error(text@),
            StatusUpdate::EncryptionEnabled => StatusUpdateView::EncryptionEnabled,
            StatusUpdate::EncryptionDisabled => StatusUpdateView::EncryptionDisabled,
        }
    }
}

impl Clone for StatusUpdate {
    fn clone(&self) -> (r: Self)
        ensures
            r@ == self@,
    {
        match self {
            StatusUpdate::PeerConnected(id) => StatusUpdate::PeerConnected(id.clone()),
            StatusUpdate::PeerDisconnected(id) => StatusUpdate::PeerDisconnected(id.clone()),
            StatusUpdate::TransferProgress(name, done, total) => StatusUpdate::TransferProgress(
                name.clone(),
                *done,
                *total,
            ),
            StatusUpdate::Error(text) => StatusUpdate::Error(text.clone()),
            StatusUpdate::EncryptionEnabled => StatusUpdate::EncryptionEnabled,
            StatusUpdate::EncryptionDisabled => StatusUpdate::EncryptionDisabled,
        }
    }
}

/// Messages of the key-exchange handshake.
#[derive(Debug, PartialEq)]
pub enum EncryptionMessage {
    /// The sender's public key, base64 of its DER form.
    PublicKeyExchange(String),
    /// The session key encrypted under the receiver's public key, in base64.
    SharedKeyExchange(String),
    /// Confirmation that the handshake is complete.
    HandshakeComplete,
}

/// Mathematical view of an [`EncryptionMessage`].
pub enum EncryptionMessageView {
    PublicKeyExchange(Seq<char>),
    SharedKeyExchange(Seq<char>),
    HandshakeComplete,
}

impl View for EncryptionMessage {
    type V = EncryptionMessageView;

    open spec fn view(&self) -> EncryptionMessageView {
        match self {
            EncryptionMessage::PublicKeyExchange(key) => EncryptionMessageView::PublicKeyExchange(
                key@,
            ),
            EncryptionMessage::SharedKeyExchange(key) => EncryptionMessageView::SharedKeyExchange(
                key@,
            ),
            EncryptionMessage::HandshakeComplete => EncryptionMessageView::HandshakeComplete,
        }
    }
}

impl Clone for EncryptionMessage {
    fn clone(&self) -> (r: Self)
        ensures
            r@ == self@,
    {
        match self {
            EncryptionMessage::PublicKeyExchange(key) => EncryptionMessage::PublicKeyExchange(
                key.clone(),
            ),
            EncryptionMessage::SharedKeyExchange(key) => EncryptionMessage::SharedKeyExchange(
                key.clone(),
            ),
            EncryptionMessage::HandshakeComplete => EncryptionMessage::HandshakeComplete,
        }
    }
}

/// The payload of a [`Message`].
#[derive(Debug, PartialEq)]
pub enum MessageType {
    /// Plain text chat message.
    Text(String),
    /// Base64 of an encrypted text message.
    EncryptedText(String),
    /// A file with metadata for integrity verification.
    File(FileInfo),
    /// A command.
    Command(Command),
    /// A status notification.
    Status(StatusUpdate),
    /// Keep-alive message.
    Heartbeat,
    /// Delivery acknowledgment carrying the id of the acknowledged message.
    Acknowledgment(u64),
    /// Key exchange and encryption setup.
    Encryption(EncryptionMessage),
}

/// Mathematical view of a [`MessageType`].
pub enum MessageTypeView {
    Text(Seq<char>),
    EncryptedText(Seq<char>),
    File(FileInfoView),
    Command(CommandView),
    Status(StatusUpdateView),
    Heartbeat,
    Acknowledgment(u64),
    Encryption(EncryptionMessageView),
}

impl View for MessageType {
    type V = MessageTypeView;

    open spec fn view(&self) -> MessageTypeView {
        match self {
            MessageType::Text(text) => MessageTypeView::Text(text@),
            MessageType::EncryptedText(text) => MessageTypeView::EncryptedText(text@),
            MessageType::File(info) => MessageTypeView::File(info@),
            MessageType::Command(command) => MessageTypeView::Command(command@),
            MessageType::Status(status) => MessageTypeView::Status(status@),
            MessageType::Heartbeat => MessageTypeView::Heartbeat,
            MessageType::Acknowledgment(id) => MessageTypeView::Acknowledgment(*id),
            MessageType::Encryption(inner) => MessageTypeView::Encryption(inner@),
        }
    }
}

impl Clone for MessageType {
    fn clone(&self) -> (r: Self)
        ensures
            r@ == self@,
    {
        match self {
            MessageType::Text(text) => MessageType::Text(text.clone()),
            MessageType::EncryptedText(text) => MessageType::EncryptedText(text.clone()),
            MessageType::File(info) => MessageType::File(info.clone()),
            MessageType::Command(command) => MessageType::Command(command.clone()),
            MessageType::Status(status) => MessageType::Status(status.clone()),
            MessageType::Heartbeat => MessageType::Heartbeat,
            MessageType::Acknowledgment(id) => MessageType::Acknowledgment(*id),
            MessageType::Encryption(inner) => MessageType::Encryption(inner.clone()),
        }
    }
}

/// The unit of communication between two peers.
#[derive(Debug)]
pub struct Message {
    /// Random identifier, the correlation key for acknowledgments.
    pub id: u64,
    /// When the message was created.
    pub timestamp: Timestamp,
    /// The payload.
    pub msg_type: MessageType,
}

/// Mathematical view of a [`Message`].
pub struct MessageView {
    pub id: u64,
    pub timestamp: Timestamp,
    pub msg_type: MessageTypeView,
}

impl View for Message {
    type V = MessageView;

    open spec fn view(&self) -> MessageView {
        MessageView { id: self.id, timestamp: self.timestamp, msg_type: self.msg_type@ }
    }
}

impl Clone for Message {
    fn clone(&self) -> (r: Self)
        ensures
            r@ == self@,
    {
        Message { id: self.id, timestamp: self.timestamp, msg_type: self.msg_type.clone() }
    }
}

impl Message {
    /// A message with the given payload, a fresh random id and the current
    /// time.
    pub fn with_payload(msg_type: MessageType) -> (m: Message)
        ensures
            m.msg_type == msg_type,
            m.timestamp.is_valid(),
    {
        Message { id: random_id(), timestamp: Timestamp::now(), msg_type }
    }

    /// Creates a text message.
    pub fn new_text(text: String) -> (m: Message)
        ensures
            m.msg_type == MessageType::Text(text),
            m.timestamp.is_valid(),
    {
        Message::with_payload(MessageType::Text(text))
    }

    /// Creates an acknowledgment of the message with id `message_id`.
    pub fn new_acknowledgment(message_id: u64) -> (m: Message)
        ensures
            m.msg_type == MessageType::Acknowledgment(message_id),
            m.timestamp.is_valid(),
    {
        Message::with_payload(MessageType::Acknowledgment(message_id))
    }

    /// Creates a command message.
    pub fn new_command(cmd: Command) -> (m: Message)
        ensures
            m.msg_type == MessageType::Command(cmd),
            m.timestamp.is_valid(),
    {
        Message::with_payload(MessageType::Command(cmd))
    }

    /// Creates a heartbeat message.
    pub fn new_heartbeat() -> (m: Message)
        ensures
            m.msg_type == MessageType::Heartbeat,
            m.timestamp.is_valid(),
    {
        Message::with_payload(MessageType::Heartbeat)
    }

    /// Creates a message of the encryption handshake.
    pub fn new_encryption(msg: EncryptionMessage) -> (m: Message)
        ensures
            m.msg_type == MessageType::Encryption(msg),
            m.timestamp.is_valid(),
    {
        Message::with_payload(MessageType::Encryption(msg))
    }

    /// Creates an encrypted text message from base64 ciphertext.
    pub fn new_encrypted_text(encrypted: String) -> (m: Message)
        ensures
            m.msg_type == MessageType::EncryptedText(encrypted),
            m.timestamp.is_valid(),
    {
        Message::with_payload(MessageType::EncryptedText(encrypted))
    }
}

} // verus!
