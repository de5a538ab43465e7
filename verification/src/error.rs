//! Why an operation on a connection was refused, and why a poller stopped.

use vstd::prelude::*;

verus! {

/// Why a connect was refused.
#[derive(Debug, Clone, Copy, PartialEq, Eq, Structural)]
pub enum ConnectError {
    InvalidJid,
    AnotherConnectionBound,
    ConnectionAlreadyExists,
}

/// Why a send was refused.
#[derive(Debug, Clone, Copy, PartialEq, Eq, Structural)]
pub enum SendError {
    CannotWrite,
    CannotParse,
    ConnectionDoesNotExist,
}

/// Why a disconnect was refused: it fails as a send does.
pub type DisconnectError = SendError;

/// Why the poller of incoming events stopped.
#[derive(Debug, Clone, Copy, PartialEq, Eq, Structural)]
pub enum PollInputError {
    AuthenticationError,
    ConnectionError,
    TimeoutError,
    OtherError,
}

/// Why the poller of outgoing packets stopped.
#[derive(Debug, Clone, Copy, PartialEq, Eq, Structural)]
pub enum PollOutputError {
    PacketSendError,
}

impl ConnectError {
    /// The error in words.
    pub fn message(&self) -> (text: String)
        ensures
            text@ == match *self {
                ConnectError::InvalidJid => "Invalid JID, cannot connect"@,
                ConnectError::AnotherConnectionBound => "Another connection is bound on the JID"@,
                ConnectError::ConnectionAlreadyExists => "Connection identifier already exists"@,
            },
    {
        match self {
            ConnectError::InvalidJid => "Invalid JID, cannot connect".to_owned(),
            ConnectError::AnotherConnectionBound => {
                "Another connection is bound on the JID".to_owned()
            },
            ConnectError::ConnectionAlreadyExists => {
                "Connection identifier already exists".to_owned()
            },
        }
    }
}

impl SendError {
    /// The error in words.
    pub fn message(&self) -> (text: String)
        ensures
            text@ == match *self {
                SendError::CannotWrite => "Failure to write on sender"@,
                SendError::CannotParse => "Failure to parse stanza to send"@,
                SendError::ConnectionDoesNotExist => "Connection does not exist"@,
            },
    {
        match self {
            SendError::CannotWrite => "Failure to write on sender".to_owned(),
            SendError::CannotParse => "Failure to parse stanza to send".to_owned(),
            SendError::ConnectionDoesNotExist => "Connection does not exist".to_owned(),
        }
    }
}

impl PollInputError {
    /// The error in words.
    pub fn message(&self) -> (text: String)
        ensures
            text@ == match *self {
                PollInputError::AuthenticationError => "Authentication error"@,
                PollInputError::ConnectionError => "Connection error"@,
                PollInputError::TimeoutError => "Timeout error"@,
                PollInputError::OtherError => "Other error"@,
            },
    {
        match self {
            PollInputError::AuthenticationError => "Authentication error".to_owned(),
            PollInputError::ConnectionError => "Connection error".to_owned(),
            PollInputError::TimeoutError => "Timeout error".to_owned(),
            PollInputError::OtherError => "Other error".to_owned(),
        }
    }
}

impl PollOutputError {
    /// The error in words.
    pub fn message(&self) -> (text: String)
        ensures
            text@ == "Packet send error"@,
    {
        "Packet send error".to_owned()
    }
}

} // verus!
