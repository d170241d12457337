//! The error type of the chat engine and its user-facing messages.

use vstd::prelude::*;
use vstd::string::*;
use crate::text::{concat2, concat3, contains, has_substring};

verus! {

/// The kinds of transport failure that the messages tell apart.
#[derive(Debug, Clone, Copy, PartialEq, Eq, Structural)]
pub enum IoErrorKind {
    /// An entity was not found.
    NotFound,
    /// The operation lacked the necessary privileges.
    PermissionDenied,
    /// The connection was refused by the remote side.
    ConnectionRefused,
    /// The connection was terminated by the remote side.
    ConnectionAborted,
    /// The operation's timeout expired.
    TimedOut,
    /// The socket address is already in use.
    AddrInUse,
    /// A parameter was incorrect.
    InvalidInput,
    /// Any other failure.
    Other,
}

/// A transport-level failure: what kind it is and how the system describes
/// it.
#[derive(Debug, PartialEq)]
pub struct IoFailure {
    /// The kind of failure.
    pub kind: IoErrorKind,
    /// The system's description of the failure.
    pub detail: String,
}

/// Mathematical view of an [`IoFailure`].
pub struct IoFailureView {
    pub kind: IoErrorKind,
    pub detail: Seq<char>,
}

impl View for IoFailure {
    type V = IoFailureView;

    open spec fn view(&self) -> IoFailureView {
        IoFailureView { kind: self.kind, detail: self.detail@ }
    }
}

impl Clone for IoFailure {
    fn clone(&self) -> (r: Self)
        ensures
            r@ == self@,
    {
        IoFailure { kind: self.kind, detail: self.detail.clone() }
    }
}

impl IoFailure {
    /// A failure of the given kind with the given description.
    pub fn new(kind: IoErrorKind, detail: &str) -> (f: IoFailure)
        ensures
            f@ == (IoFailureView { kind, detail: detail@ }),
    {
        IoFailure { kind, detail: detail.to_owned() }
    }

    /// The kind of failure.
    pub fn kind(&self) -> (k: IoErrorKind)
        ensures
            k == self.kind,
    {
        self.kind
    }
}

/// Everything that can go wrong in the chat engine.
#[derive(Debug, PartialEq)]
pub enum ChatError {
    /// Transport-level failure.
    Io(IoFailure),
    /// Generic network issue.
    Connection(String),
    /// Violation of the message protocol.
    Protocol(String),
    /// A message that is well-formed but makes no sense.
    InvalidMessage(String),
    /// The peer closed the session. This is how sessions normally end.
    PeerDisconnected,
    /// Binding the listening address failed (address, cause).
    BindFailed(String, IoFailure),
    /// Connecting to the peer failed (address, cause).
    ConnectFailed(String, IoFailure),
    /// Key generation, key exchange, encryption, decryption, signing or
    /// verification failed.
    Encryption(String),
    /// A file is too large or fails its integrity check.
    FileTransfer(String),
    /// Loading or saving the configuration failed.
    Configuration(String),
}

/// Mathematical view of a [`ChatError`].
pub enum ChatErrorView {
    Io(IoFailureView),
    Connection(Seq<char>),
    Protocol(Seq<char>),
    InvalidMessage(Seq<char>),
    PeerDisconnected,
    BindFailed(Seq<char>, IoFailureView),
    ConnectFailed(Seq<char>, IoFailureView),
    Encryption(Seq<char>),
    FileTransfer(Seq<char>),
    Configuration(Seq<char>),
}

impl View for ChatError {
    type V = ChatErrorView;

    open spec fn view(&self) -> ChatErrorView {
        match self {
            ChatError::Io(cause) => ChatErrorView::Io(cause@),
            ChatError::Connection(msg) => ChatErrorView::Connection(msg@),
            ChatError::Protocol(msg) => ChatErrorView::Protocol(msg@),
            ChatError::InvalidMessage(msg) => ChatErrorView::InvalidMessage(msg@),
            ChatError::PeerDisconnected => ChatErrorView::PeerDisconnected,
            ChatError::BindFailed(addr, cause) => ChatErrorView::BindFailed(addr@, cause@),
            ChatError::ConnectFailed(addr, cause) => ChatErrorView::ConnectFailed(addr@, cause@),
            ChatError::Encryption(msg) => ChatErrorView::Encryption(msg@),
            ChatError::FileTransfer(msg) => ChatErrorView::FileTransfer(msg@),
            ChatError::Configuration(msg) => ChatErrorView::Configuration(msg@),
        }
    }
}

/// Shorthand for a result whose error is a [`ChatError`].
pub type Result<T> = std::result::Result<T, ChatError>;

/// Message for a transport failure of the given kind and description.
pub open spec fn io_text(cause: IoFailureView) -> Seq<char> {
    match cause.kind {
        IoErrorKind::PermissionDenied => "Permission denied - check file/directory permissions"@,
        IoErrorKind::NotFound => "File or directory not found"@,
        IoErrorKind::ConnectionRefused => "Connection refused - peer may not be listening"@,
        IoErrorKind::ConnectionAborted => "Connection lost unexpectedly"@,
        IoErrorKind::TimedOut => "Operation timed out - check network connection"@,
        _ => "System error: "@ + cause.detail,
    }
}

/// Message for a failure to bind `addr`.
pub open spec fn bind_text(addr: Seq<char>, cause: IoFailureView) -> Seq<char> {
    match cause.kind {
        IoErrorKind::AddrInUse => "Port "@ + addr + " is already in use - try a different port"@,
        IoErrorKind::PermissionDenied => "Cannot use port "@ + addr
            + " - permission denied (try a port above 1024)"@,
        _ => "Cannot start server on "@ + addr + ": "@ + cause.detail,
    }
}

/// Message for a failure to connect to `addr`.
pub open spec fn connect_text(addr: Seq<char>, cause: IoFailureView) -> Seq<char> {
    match cause.kind {
        IoErrorKind::ConnectionRefused => "Cannot reach "@ + addr
            + " - peer may not be running or firewall blocking"@,
        IoErrorKind::TimedOut => "Connection to "@ + addr
            + " timed out - check IP address and network"@,
        IoErrorKind::InvalidInput => "Invalid address '"@ + addr
            + "' - use format IP:PORT (e.g., 192.168.1.100:8080)"@,
        _ => "Cannot connect to "@ + addr + ": "@ + cause.detail,
    }
}

/// Message for a file transfer failure described by `msg`.
pub open spec fn file_transfer_text(msg: Seq<char>) -> Seq<char> {
    if has_substring(msg, "too large"@) {
        "File too large: "@ + msg
    } else if has_substring(msg, "hash mismatch"@) {
        "File corrupted during transfer - please try again"@
    } else if has_substring(msg, "Failed to create"@) {
        "Cannot save file: "@ + msg + " (check disk space and permissions)"@
    } else {
        "File transfer failed: "@ + msg
    }
}

/// Message for a configuration failure described by `msg`.
pub open spec fn configuration_text(msg: Seq<char>) -> Seq<char> {
    if has_substring(msg, "Failed to read"@) {
        "Cannot read settings: "@ + msg + " (file may be corrupted)"@
    } else if has_substring(msg, "Failed to write"@) {
        "Cannot save settings: "@ + msg + " (check permissions)"@
    } else {
        "Settings error: "@ + msg
    }
}

/// The message shown to the user for an error.
pub open spec fn display_text(e: ChatErrorView) -> Seq<char> {
    match e {
        ChatErrorView::Io(cause) => io_text(cause),
        ChatErrorView::Connection(msg) => "Network issue: "@ + msg,
        ChatErrorView::Protocol(msg) => "Communication error: "@ + msg + " (try reconnecting)"@,
        ChatErrorView::InvalidMessage(msg) => "Received corrupted data: "@ + msg,
        ChatErrorView::PeerDisconnected => "Your chat partner disconnected"@,
        ChatErrorView::BindFailed(addr, cause) => bind_text(addr, cause),
        ChatErrorView::ConnectFailed(addr, cause) => connect_text(addr, cause),
        ChatErrorView::Encryption(msg) => "Security error: "@ + msg
            + " (encryption may be compromised)"@,
        ChatErrorView::FileTransfer(msg) => file_transfer_text(msg),
        ChatErrorView::Configuration(msg) => configuration_text(msg),
    }
}

fn io_message(cause: &IoFailure) -> (s: String)
    ensures
        s@ == io_text(cause@),
{
    match cause.kind {
        IoErrorKind::PermissionDenied => "Permission denied - check file/directory permissions"
            .to_owned(),
        IoErrorKind::NotFound => "File or directory not found".to_owned(),
        IoErrorKind::ConnectionRefused => "Connection refused - peer may not be listening"
            .to_owned(),
        IoErrorKind::ConnectionAborted => "Connection lost unexpectedly".to_owned(),
        IoErrorKind::TimedOut => "Operation timed out - check network connection".to_owned(),
        _ => concat2("System error: ", cause.detail.as_str()),
    }
}

fn bind_message(addr: &str, cause: &IoFailure) -> (s: String)
    ensures
        s@ == bind_text(addr@, cause@),
{
    match cause.kind {
        IoErrorKind::AddrInUse => concat3(
            "Port ",
            addr,
            " is already in use - try a different port",
        ),
        IoErrorKind::PermissionDenied => concat3(
            "Cannot use port ",
            addr,
            " - permission denied (try a port above 1024)",
        ),
        _ => {
            let mut s = concat3("Cannot start server on ", addr, ": ");
            s.append(cause.detail.as_str());
            s
        },
    }
}

fn connect_message(addr: &str, cause: &IoFailure) -> (s: String)
    ensures
        s@ == connect_text(addr@, cause@),
{
    match cause.kind {
        IoErrorKind::ConnectionRefused => concat3(
            "Cannot reach ",
            addr,
            " - peer may not be running or firewall blocking",
        ),
        IoErrorKind::TimedOut => concat3(
            "Connection to ",
            addr,
            " timed out - check IP address and network",
        ),
        IoErrorKind::InvalidInput => concat3(
            "Invalid address '",
            addr,
            "' - use format IP:PORT (e.g., 192.168.1.100:8080)",
        ),
        _ => {
            let mut s = concat3("Cannot connect to ", addr, ": ");
            s.append(cause.detail.as_str());
            s
        },
    }
}

fn file_transfer_message(msg: &str) -> (s: String)
    ensures
        s@ == file_transfer_text(msg@),
{
    if contains(msg, "too large") {
        concat2("File too large: ", msg)
    } else if contains(msg, "hash mismatch") {
        "File corrupted during transfer - please try again".to_owned()
    } else if contains(msg, "Failed to create") {
        concat3("Cannot save file: ", msg, " (check disk space and permissions)")
    } else {
        concat2("File transfer failed: ", msg)
    }
}

fn configuration_message(msg: &str) -> (s: String)
    ensures
        s@ == configuration_text(msg@),
{
    if contains(msg, "Failed to read") {
        concat3("Cannot read settings: ", msg, " (file may be corrupted)")
    } else if contains(msg, "Failed to write") {
        concat3("Cannot save settings: ", msg, " (check permissions)")
    } else {
        concat2("Settings error: ", msg)
    }
}

impl ChatError {
    /// The message shown to the user: what went wrong and, where there is
    /// one, a way out.
    pub fn to_string(&self) -> (s: String)
        ensures
            s@ == display_text(self@),
    {
        match self {
            ChatError::Io(cause) => io_message(cause),
            ChatError::Connection(msg) => concat2("Network issue: ", msg.as_str()),
            ChatError::Protocol(msg) => concat3(
                "Communication error: ",
                msg.as_str(),
                " (try reconnecting)",
            ),
            ChatError::InvalidMessage(msg) => concat2("Received corrupted data: ", msg.as_str()),
            ChatError::PeerDisconnected => "Your chat partner disconnected".to_owned(),
            ChatError::BindFailed(addr, cause) => bind_message(addr.as_str(), cause),
            ChatError::ConnectFailed(addr, cause) => connect_message(addr.as_str(), cause),
            ChatError::Encryption(msg) => concat3(
                "Security error: ",
                msg.as_str(),
                " (encryption may be compromised)",
            ),
            ChatError::FileTransfer(msg) => file_transfer_message(msg.as_str()),
            ChatError::Configuration(msg) => configuration_message(msg.as_str()),
        }
    }

    /// The transport failure that caused this error, if one did.
    pub fn source(&self) -> (cause: Option<&IoFailure>)
        ensures
            match *self {
                ChatError::Io(inner) => cause == Some(&inner),
                ChatError::BindFailed(_, inner) => cause == Some(&inner),
                ChatError::ConnectFailed(_, inner) => cause == Some(&inner),
                _ => cause is None,
            },
    {
        match self {
            ChatError::Io(inner) => Some(inner),
            ChatError::BindFailed(_, inner) => Some(inner),
            ChatError::ConnectFailed(_, inner) => Some(inner),
            _ => None,
        }
    }
}

impl From<IoFailure> for ChatError {
    fn from(error: IoFailure) -> (e: ChatError) {
        ChatError::Io(error)
    }
}

impl vstd::std_specs::convert::FromSpecImpl<IoFailure> for ChatError {
    open spec fn obeys_from_spec() -> bool {
        true
    }

    open spec fn from_spec(error: IoFailure) -> ChatError {
        ChatError::Io(error)
    }
}

} // verus!
