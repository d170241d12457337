//! The decisions of one connection, free of I/O.
//!
//! A connection reads bytes from its socket, takes lines from the user and
//! writes messages to the socket. What each of these means, and what has to
//! happen next, is decided here; carrying it out is left to the caller.

use vstd::prelude::*;
use vstd::slice::*;
use vstd::string::*;
use vstd::utf8::*;
use crate::commands::{
    changes_config, config_after, is_whitespace, listed, char_is_whitespace, parsed_command,
    response_text, CommandHandler,
};
use crate::config::{Config, ConfigView};
use crate::encryption::{
    handshake_step, opened_text, E2EEncryption, HandshakeAction, SessionView,
};
use crate::error::{display_text, ChatError, ChatErrorView};
use crate::file_transfer::{
    intact, is_media, mismatch_text, too_large_text, FileTransfer,
};
use crate::peer::{PeerInfoView, PeerManager};
use crate::protocol::{
    Command, CommandView, FileInfo, FileInfoView, Message, MessageType,
    MessageTypeView, MessageView, StatusUpdate, StatusUpdateView,
};
use crate::reliability::{ManagerView, ReliabilityManager};
use crate::text::{chars_of, decimal, push_decimal, string_of};
use crate::wire::{decode, encode, DecodeError};

verus! {

// ---------------------------------------------------------------------
// Reading

/// The text that a byte sequence reads as when every ill-formed part of it
/// is replaced by the replacement character, as `String::from_utf8_lossy`
/// gives it.
pub uninterp spec fn lossy_utf8(bytes: Seq<u8>) -> Seq<char>;

/// Calls `String::from_utf8_lossy`: the named text. As std documents it,
/// well-formed UTF-8 comes back unchanged.
#[verifier::external_body]
fn from_utf8_lossy(bytes: &[u8]) -> (text: String)
    ensures
        text@ == lossy_utf8(bytes@),
        valid_utf8(bytes@) ==> text@ == decode_utf8(bytes@),
{
    String::from_utf8_lossy(bytes).into_owned()
}

/// A text without the white space at its end.
pub open spec fn trimmed_end(s: Seq<char>) -> Seq<char>
    decreases s.len(),
{
    if s.len() > 0 && is_whitespace(s.last()) {
        trimmed_end(s.drop_last())
    } else {
        s
    }
}

/// The text without the white space at its end.
pub fn trim_end(text: &str) -> (r: String)
    ensures
        r@ == trimmed_end(text@),
{
    let chars = chars_of(text);
    let mut end: usize = chars.len();
    assert(chars@.take(end as int) =~= chars@);
    while end > 0 && char_is_whitespace(chars[end - 1])
        invariant
            end <= chars@.len(),
            trimmed_end(chars@) == trimmed_end(chars@.take(end as int)),
        decreases end,
    {
        assert(chars@.take(end as int).drop_last() =~= chars@.take(end - 1));
        end -= 1;
    }
    assert(chars@.take(end as int) =~= chars@.subrange(0, end as int));
    string_of(&chars, 0, end)
}

/// The line of text that bytes from a peer stand for when they are not a
/// protocol message.
pub open spec fn legacy_text(data: Seq<u8>) -> Seq<char> {
    trimmed_end(lossy_utf8(data))
}

/// What one read from the socket amounts to.
#[derive(Debug)]
pub enum ReadEvent {
    /// Nothing was read: the peer has closed the connection.
    Closed,
    /// The bytes are a protocol message.
    Protocol(Message),
    /// The bytes are no protocol message and are taken as a line of plain
    /// text from a peer that speaks only text.
    Legacy(String),
}

/// Decides what the bytes of one read are: the end of the connection, a
/// protocol message, or a line of plain text.
pub fn classify_read(data: &[u8]) -> (event: ReadEvent)
    ensures
        match event {
            ReadEvent::Closed => data@.len() == 0,
            ReadEvent::Protocol(message) => data@.len() > 0 && decode(data@) == Ok::<
                MessageView,
                DecodeError,
            >(message@),
            ReadEvent::Legacy(text) => data@.len() > 0 && decode(data@) is Err && text@
                == legacy_text(data@),
        },
{
    if data.len() == 0 {
        return ReadEvent::Closed;
    }
    match Message::deserialize(data) {
        Ok(message) => ReadEvent::Protocol(message),
        Err(_) => {
            let text = from_utf8_lossy(data);
            ReadEvent::Legacy(trim_end(text.as_str()))
        },
    }
}

// ---------------------------------------------------------------------
// Writing

/// The bytes that go to the socket for a message: a text message goes as
/// its text and a line feed, for peers that speak only text; every other
/// message goes in its binary encoding, and not at all if it has none.
pub open spec fn framed(m: MessageView) -> Option<Seq<u8>> {
    match m.msg_type {
        MessageTypeView::Text(text) => Some(encode_utf8(text) + seq![10u8]),
        _ => if m.timestamp.is_valid() {
            Some(encode(m))
        } else {
            None
        },
    }
}

/// The bytes that go to the socket for a message, if any.
pub fn frame_outbound(message: &Message) -> (r: Option<Vec<u8>>)
    ensures
        match r {
            Some(bytes) => framed(message@) == Some(bytes@),
            None => framed(message@) is None,
        },
{
    match &message.msg_type {
        MessageType::Text(text) => {
            let mut bytes = slice_to_vec(text.as_str().as_bytes());
            bytes.push(10u8);
            assert(bytes@ =~= encode_utf8(text@) + seq![10u8]);
            Some(bytes)
        },
        _ => match message.serialize() {
            Ok(bytes) => Some(bytes),
            Err(_) => None,
        },
    }
}

// ---------------------------------------------------------------------
// Dispatching received messages

/// One thing the connection has to do.
#[derive(Debug, PartialEq)]
pub enum SessionAction {
    /// Send a message with this payload to the peer.
    Send(MessageType),
    /// Show a chat text from the peer.
    ShowText { text: String, encrypted: bool },
    /// Tell the user that a message from the peer could not be decrypted.
    ShowDecryptionFailure,
    /// Tell the user that a file is coming in.
    ShowIncomingFile { name: String, size: u64 },
    /// Save a file that passed its checks, and open it afterwards if asked.
    SaveFile { file: FileInfo, open_after_saving: bool },
    /// Tell the user that a file was turned down, and why.
    ShowFileRejected { reason: String },
    /// Show the progress of a transfer.
    ShowProgress { name: String, current: u64, total: u64 },
    /// Show a status notification.
    ShowStatus(StatusUpdate),
}

/// Mathematical view of a [`SessionAction`].
pub enum ActionView {
    Send(MessageTypeView),
    ShowText { text: Seq<char>, encrypted: bool },
    ShowDecryptionFailure,
    ShowIncomingFile { name: Seq<char>, size: u64 },
    SaveFile { file: FileInfoView, open_after_saving: bool },
    ShowFileRejected { reason: Seq<char> },
    ShowProgress { name: Seq<char>, current: u64, total: u64 },
    ShowStatus(StatusUpdateView),
}

impl View for SessionAction {
    type V = ActionView;

    open spec fn view(&self) -> ActionView {
        match self {
            SessionAction::Send(payload) => ActionView::Send(payload@),
            SessionAction::ShowText { text, encrypted } => ActionView::ShowText {
                text: text@,
                encrypted: *encrypted,
            },
            SessionAction::ShowDecryptionFailure => ActionView::ShowDecryptionFailure,
            SessionAction::ShowIncomingFile { name, size } => ActionView::ShowIncomingFile {
                name: name@,
                size: *size,
            },
            SessionAction::SaveFile { file, open_after_saving } => ActionView::SaveFile {
                file: file@,
                open_after_saving: *open_after_saving,
            },
            SessionAction::ShowFileRejected { reason } => ActionView::ShowFileRejected {
                reason: reason@,
            },
            SessionAction::ShowProgress { name, current, total } => ActionView::ShowProgress {
                name: name@,
                current: *current,
                total: *total,
            },
            SessionAction::ShowStatus(status) => ActionView::ShowStatus(status@),
        }
    }
}

/// The views of a sequence of actions.
pub open spec fn action_views(actions: Seq<SessionAction>) -> Seq<ActionView> {
    actions.map_values(|a: SessionAction| a@)
}

/// Why a file record is turned down, as shown to the user.
pub open spec fn rejection_text(info: FileInfoView, limit: u64) -> Seq<char> {
    display_text(
        ChatErrorView::FileTransfer(
            if info.size > limit {
                too_large_text(info.size, limit)
            } else {
                mismatch_text()
            },
        ),
    )
}

/// What follows from a received file: the user is told, and the file is
/// saved if it is within the limit and intact, and turned down otherwise. A
/// saved file is opened if the settings ask for it and it counts as media.
pub open spec fn file_actions(info: FileInfoView, config: ConfigView, limit: u64) -> Seq<
    ActionView,
> {
    seq![
        ActionView::ShowIncomingFile { name: info.name, size: info.size },
        if info.size <= limit && intact(info) {
            ActionView::SaveFile {
                file: info,
                open_after_saving: config.auto_open_media && is_media(
                    info.name,
                    config.media_extensions,
                ),
            }
        } else {
            ActionView::ShowFileRejected { reason: rejection_text(info, limit) }
        },
    ]
}

/// What follows from a received message that is neither an acknowledgment
/// nor part of the handshake. Text is shown. Encrypted text is shown if it
/// opens under the session key, and reported as undecipherable otherwise.
/// Transfer progress and the news that encryption is on are shown.
/// Heartbeats, commands and the other status updates call for nothing.
pub open spec fn plain_actions(
    payload: MessageTypeView,
    session_key: Option<Seq<u8>>,
    config: ConfigView,
    limit: u64,
) -> Seq<ActionView> {
    match payload {
        MessageTypeView::Text(text) => seq![ActionView::ShowText { text, encrypted: false }],
        MessageTypeView::EncryptedText(sealed) => match session_key {
            Some(key) => match opened_text(key, sealed) {
                Some(text) => seq![ActionView::ShowText { text, encrypted: true }],
                None => seq![ActionView::ShowDecryptionFailure],
            },
            None => seq![ActionView::ShowDecryptionFailure],
        },
        MessageTypeView::File(info) => file_actions(info, config, limit),
        MessageTypeView::Status(StatusUpdateView::TransferProgress(name, current, total)) => seq![
            ActionView::ShowProgress { name, current, total },
        ],
        MessageTypeView::Status(StatusUpdateView::EncryptionEnabled) => seq![
            ActionView::ShowStatus(StatusUpdateView::EncryptionEnabled),
        ],
        _ => Seq::empty(),
    }
}

/// The handshake action that a session action carries out.
pub open spec fn handshake_action_of(action: SessionAction) -> HandshakeAction {
    match action {
        SessionAction::Send(MessageType::Encryption(msg)) => HandshakeAction::Send(msg),
        SessionAction::ShowStatus(status) => HandshakeAction::Notify(status),
        _ => HandshakeAction::Notify(StatusUpdate::EncryptionDisabled),
    }
}

/// Whether a session action carries out a handshake action.
pub open spec fn is_handshake_action(action: SessionAction) -> bool {
    action matches SessionAction::Send(MessageType::Encryption(_)) || action is ShowStatus
}

/// The result of handling a handshake message in terms of handshake actions.
pub open spec fn handshake_result(r: Result<Vec<SessionAction>, ChatError>) -> Result<
    Seq<HandshakeAction>,
    ChatError,
> {
    match r {
        Ok(actions) => Ok(actions@.map_values(|a: SessionAction| handshake_action_of(a))),
        Err(e) => Err(e),
    }
}

fn session_actions(actions: Vec<HandshakeAction>) -> (r: Vec<SessionAction>)
    ensures
        r@.len() == actions@.len(),
        forall|i: int| 0 <= i < r@.len() ==> is_handshake_action(#[trigger] r@[i]),
        r@.map_values(|a: SessionAction| handshake_action_of(a)) == actions@,
{
    let mut out: Vec<SessionAction> = Vec::new();
    let ghost all = actions@;
    for action in it: actions
        invariant
            it.seq() == all,
            out@.len() == it.index(),
            forall|i: int| 0 <= i < out@.len() ==> is_handshake_action(#[trigger] out@[i]),
            forall|i: int| 0 <= i < out@.len() ==> handshake_action_of(#[trigger] out@[i]) == all[i],
    {
        match action {
            HandshakeAction::Send(msg) => out.push(SessionAction::Send(MessageType::Encryption(msg))),
            HandshakeAction::Notify(status) => out.push(SessionAction::ShowStatus(status)),
        }
    }
    assert(out@.map_values(|a: SessionAction| handshake_action_of(a)) =~= all);
    out
}

/// Handles one message from the peer: changes the session and the pending
/// messages as the message asks, and says what the connection has to do.
///
/// A handshake message goes to the cryptographic session, whose reaction is
/// passed on; where the session rejects it the error is returned. An
/// acknowledgment takes its message off the pending list. Every other
/// message leaves both as they are.
#[verifier::rlimit(50)]
pub fn handle_message(
    message: Message,
    encryption: &mut E2EEncryption,
    reliability: &mut ReliabilityManager,
    config: &Config,
    file_transfer: &FileTransfer,
) -> (r: Result<Vec<SessionAction>, ChatError>)
    ensures
        match message.msg_type {
            MessageType::Encryption(msg) => {
                &&& final(reliability)@ == old(reliability)@
                &&& handshake_step(old(encryption)@, msg, final(encryption)@, handshake_result(r))
                &&& r matches Ok(actions) ==> forall|i: int|
                    0 <= i < actions@.len() ==> is_handshake_action(#[trigger] actions@[i])
            },
            MessageType::Acknowledgment(id) => {
                &&& final(encryption)@ == old(encryption)@
                &&& final(reliability)@ == (ManagerView {
                    pending: old(reliability)@.pending.remove(id),
                    ..old(reliability)@
                })
                &&& r matches Ok(actions) && actions@.len() == 0
            },
            _ => {
                &&& final(encryption)@ == old(encryption)@
                &&& final(reliability)@ == old(reliability)@
                &&& r matches Ok(actions) && action_views(actions@) == plain_actions(
                    message.msg_type@,
                    old(encryption)@.session_key,
                    config@,
                    file_transfer.limit(),
                )
            },
        },
{
    let mut actions: Vec<SessionAction> = Vec::new();
    match message.msg_type {
        MessageType::Text(text) => {
            actions.push(SessionAction::ShowText { text, encrypted: false });
        },
        MessageType::EncryptedText(sealed) => {
            match encryption.decrypt_message(sealed.as_str()) {
                Ok(text) => actions.push(SessionAction::ShowText { text, encrypted: true }),
                Err(_) => actions.push(SessionAction::ShowDecryptionFailure),
            }
        },
        MessageType::File(file) => {
            actions.push(
                SessionAction::ShowIncomingFile { name: file.name.clone(), size: file.size },
            );
            match file_transfer.verify_file(&file) {
                Ok(()) => {
                    let open_after_saving = config.auto_open_media && FileTransfer::is_media_file(
                        file.name.as_str(),
                        config.media_extensions.as_slice(),
                    );
                    actions.push(SessionAction::SaveFile { file, open_after_saving });
                },
                Err(e) => {
                    actions.push(SessionAction::ShowFileRejected { reason: e.to_string() });
                },
            }
        },
        MessageType::Status(StatusUpdate::TransferProgress(name, current, total)) => {
            actions.push(SessionAction::ShowProgress { name, current, total });
        },
        MessageType::Status(StatusUpdate::EncryptionEnabled) => {
            actions.push(SessionAction::ShowStatus(StatusUpdate::EncryptionEnabled));
        },
        MessageType::Acknowledgment(id) => {
            let _ = reliability.handle_acknowledgment(id);
        },
        MessageType::Encryption(msg) => {
            match encryption.handle_handshake_message(&msg) {
                Ok(steps) => {
                    return Ok(session_actions(steps));
                },
                Err(e) => {
                    return Err(e);
                },
            }
        },
        _ => {},
    }
    proof {
        if !(message.msg_type is Acknowledgment) {
            assert(action_views(actions@) =~= plain_actions(
                message.msg_type@,
                old(encryption)@.session_key,
                config@,
                file_transfer.limit(),
            ));
        }
    }
    Ok(actions)
}

// ---------------------------------------------------------------------
// Input from the user

/// What a line of input from the user leads to.
#[derive(Debug)]
pub enum InputAction {
    /// The line is empty: nothing to do.
    Nothing,
    /// The user wants to leave.
    Quit,
    /// The user wants to send the file at this path.
    ReadFile(String),
    /// Send a message with this payload to the peer.
    Send(MessageType),
    /// Show this answer to a command and, if asked, save the settings.
    Show { text: String, save_config: bool },
}

/// Whether `action` is what a line of chat text leads to: the text is sent
/// encrypted where the session holds a key and the cipher does its work, and
/// as plain text otherwise.
pub open spec fn sends_chat_text(action: InputAction, line: Seq<char>, session: SessionView)
    -> bool {
    match action {
        InputAction::Send(MessageType::Text(text)) => text@ == line,
        InputAction::Send(MessageType::EncryptedText(sealed)) => session.session_key matches Some(
            key,
        ) && opened_text(key, sealed@) == Some(line),
        _ => false,
    }
}

/// The payload that a line of chat text goes out under once sealing it has
/// been tried: the sealed text where sealing worked, the plain line where it
/// did not.
pub open spec fn chat_payload_of(line: Seq<char>, sealed: Result<String, ChatError>)
    -> MessageTypeView {
    match sealed {
        Ok(text) => MessageTypeView::EncryptedText(text@),
        Err(_) => MessageTypeView::Text(line),
    }
}

/// The payload that a line of chat text goes out under, given what sealing
/// it came to.
pub fn chat_payload(line: &str, sealed: Result<String, ChatError>) -> (payload: MessageType)
    ensures
        payload@ == chat_payload_of(line@, sealed),
{
    match sealed {
        Ok(text) => MessageType::EncryptedText(text),
        Err(_) => MessageType::Text(line.to_owned()),
    }
}

/// Handles one line of input from the user.
///
/// An empty line calls for nothing. A line that is a command is carried out:
/// quitting and sending a file are handed back to the caller, every other
/// command is answered by the command handler. Any other line is chat text
/// for the peer.
#[verifier::rlimit(50)]
pub fn handle_input_line(
    line: &str,
    encryption: &E2EEncryption,
    handler: &mut CommandHandler,
    peers: &PeerManager,
) -> (action: InputAction)
    requires
        peers.wf(),
    ensures
        line@.len() == 0 ==> action is Nothing && final(handler)@ == old(handler)@,
        line@.len() > 0 ==> match parsed_command(line@) {
            Some(CommandView::Quit) => action is Quit && final(handler)@ == old(handler)@,
            Some(CommandView::SendFile(path)) => action matches InputAction::ReadFile(p) && p@
                == path && final(handler)@ == old(handler)@,
            Some(command) => {
                &&& final(handler)@ == config_after(command, old(handler)@)
                &&& action matches InputAction::Show { text, save_config }
                &&& save_config == changes_config(command)
                &&& exists|listing: Seq<PeerInfoView>| #[trigger]
                    listed(peers, listing) && text@ == response_text(
                        command,
                        old(handler)@,
                        listing,
                    )
            },
            None => final(handler)@ == old(handler)@ && sends_chat_text(
                action,
                line@,
                encryption@,
            ) && (encryption@.session_key is None ==> action matches InputAction::Send(
                MessageType::Text(_),
            )),
        },
{
    if line.is_empty() {
        return InputAction::Nothing;
    }
    match CommandHandler::parse_command(line) {
        Some(Command::Quit) => InputAction::Quit,
        Some(Command::SendFile(path)) => InputAction::ReadFile(path),
        Some(command) => {
            let outcome = handler.handle_command(command, peers);
            InputAction::Show { text: outcome.response, save_config: outcome.config_changed }
        },
        None => {
            if encryption.is_ready() {
                InputAction::Send(chat_payload(line, encryption.encrypt_message(line)))
            } else {
                InputAction::Send(MessageType::Text(line.to_owned()))
            }
        },
    }
}

// ---------------------------------------------------------------------
// Establishing the connection

/// How a connection came about.
#[derive(Debug, Clone, Copy, PartialEq, Eq, Structural)]
pub enum Origin {
    /// The peer connected to us.
    Accepted,
    /// We connected to the peer.
    Connected,
}

/// Where the establishment of the connection stands.
#[derive(Debug, Clone, Copy, PartialEq, Eq, Structural)]
pub enum ConnectState {
    /// Accepting and connecting at the same time; the first to succeed wins.
    Racing,
    /// Only accepting: no peer address was given, or connecting has failed.
    Listening,
    /// The connection stands.
    Established(Origin),
    /// Accepting failed: there will be no connection.
    Failed,
}

/// What happened on the network.
#[derive(Debug, Clone, Copy, PartialEq, Eq, Structural)]
pub enum ConnectEvent {
    /// A peer connected to us.
    Accepted,
    /// Accepting failed.
    AcceptFailed,
    /// We connected to the peer.
    Connected,
    /// Connecting to the peer failed.
    ConnectFailed,
}

/// What to do about it.
#[derive(Debug, Clone, Copy, PartialEq, Eq, Structural)]
pub enum ConnectAction {
    /// Use the accepted connection; give up connecting.
    UseAccepted,
    /// Use the connection we made; give up accepting.
    UseConnected,
    /// Go on accepting only.
    KeepAccepting,
    /// Report the failure to accept.
    ReportFailure,
    /// Pay no attention: the event comes from an attempt that was given up.
    Ignore,
}

/// The state in which establishing a connection starts: racing if there is
/// a peer to connect to, listening otherwise.
pub open spec fn initial_state(has_peer_address: bool) -> ConnectState {
    if has_peer_address {
        ConnectState::Racing
    } else {
        ConnectState::Listening
    }
}

/// The state and the action that follow from an event. While racing, the
/// first success wins and a failure to connect falls back to accepting.
/// While listening, what the connecting side reports is no longer of
/// interest. Once the connection stands or has failed, nothing changes it.
pub open spec fn next_connection(state: ConnectState, event: ConnectEvent) -> (
    ConnectState,
    ConnectAction,
) {
    match (state, event) {
        (ConnectState::Racing, ConnectEvent::Accepted) => (
            ConnectState::Established(Origin::Accepted),
            ConnectAction::UseAccepted,
        ),
        (ConnectState::Racing, ConnectEvent::Connected) => (
            ConnectState::Established(Origin::Connected),
            ConnectAction::UseConnected,
        ),
        (ConnectState::Racing, ConnectEvent::ConnectFailed) => (
            ConnectState::Listening,
            ConnectAction::KeepAccepting,
        ),
        (ConnectState::Racing, ConnectEvent::AcceptFailed) => (
            ConnectState::Failed,
            ConnectAction::ReportFailure,
        ),
        (ConnectState::Listening, ConnectEvent::Accepted) => (
            ConnectState::Established(Origin::Accepted),
            ConnectAction::UseAccepted,
        ),
        (ConnectState::Listening, ConnectEvent::AcceptFailed) => (
            ConnectState::Failed,
            ConnectAction::ReportFailure,
        ),
        (other, _) => (other, ConnectAction::Ignore),
    }
}

/// The state in which establishing a connection starts.
pub fn start_connecting(has_peer_address: bool) -> (state: ConnectState)
    ensures
        state == initial_state(has_peer_address),
{
    if has_peer_address {
        ConnectState::Racing
    } else {
        ConnectState::Listening
    }
}

/// The state and the action that follow from an event.
pub fn connection_step(state: ConnectState, event: ConnectEvent) -> (r: (
    ConnectState,
    ConnectAction,
))
    ensures
        r == next_connection(state, event),
{
    match state {
        ConnectState::Racing => match event {
            ConnectEvent::Accepted => (
                ConnectState::Established(Origin::Accepted),
                ConnectAction::UseAccepted,
            ),
            ConnectEvent::Connected => (
                ConnectState::Established(Origin::Connected),
                ConnectAction::UseConnected,
            ),
            ConnectEvent::ConnectFailed => (ConnectState::Listening, ConnectAction::KeepAccepting),
            ConnectEvent::AcceptFailed => (ConnectState::Failed, ConnectAction::ReportFailure),
        },
        ConnectState::Listening => match event {
            ConnectEvent::Accepted => (
                ConnectState::Established(Origin::Accepted),
                ConnectAction::UseAccepted,
            ),
            ConnectEvent::AcceptFailed => (ConnectState::Failed, ConnectAction::ReportFailure),
            _ => (state, ConnectAction::Ignore),
        },
        _ => (state, ConnectAction::Ignore),
    }
}

/// Only one attempt ever determines the connection: once a connection
/// stands, no later event replaces or removes it.
pub proof fn lemma_established_is_final(origin: Origin, event: ConnectEvent)
    ensures
        next_connection(ConnectState::Established(origin), event) == (
            ConnectState::Established(origin),
            ConnectAction::Ignore,
        ),
{
}

/// The address on which a node listens for the given port: every interface.
pub open spec fn listen_address_text(port: u16) -> Seq<char> {
    "0.0.0.0:"@ + decimal(port as nat)
}

/// The address on which a node listens for the given port.
pub fn listen_address(port: u16) -> (address: String)
    ensures
        address@ == listen_address_text(port),
{
    let mut address = "0.0.0.0:".to_owned();
    push_decimal(&mut address, port as u64);
    address
}

/// The tasks of a connection.
#[derive(Debug, Clone, Copy, PartialEq, Eq, Structural)]
pub enum SessionTask {
    /// Reads from the socket and dispatches what it reads.
    Reader,
    /// Takes messages from the outbound queue to the socket.
    Writer,
    /// Takes lines from the user.
    Input,
    /// Sends a heartbeat at a fixed interval.
    Heartbeat,
}

/// Whether the end of a task ends the session: the end of the reader, the
/// writer or the input does, the end of the heartbeat does not.
pub open spec fn task_ends_session(task: SessionTask) -> bool {
    task != SessionTask::Heartbeat
}

/// Whether the end of a task ends the session.
pub fn ends_session(task: SessionTask) -> (r: bool)
    ensures
        r == task_ends_session(task),
{
    match task {
        SessionTask::Heartbeat => false,
        _ => true,
    }
}

} // verus!
