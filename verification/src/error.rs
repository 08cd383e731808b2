//! The failures that the library reports.

use vstd::prelude::*;

verus! {

/// Why a request was turned away.
#[derive(Clone, Copy, Debug, PartialEq, Eq, Hash, Structural)]
pub enum ErrorKind {
    /// The sender is not allowed to do this.
    Forbidden,
    /// The event is larger than an event may be.
    TooLarge,
    /// Hashing or signing the event failed.
    Unknown,
    /// A stored or received value has a shape that is not understood.
    BadJson,
    /// An argument does not name what it should.
    InvalidParam,
    /// The request is of a kind that is not understood.
    Unrecognized,
}

/// What exactly went wrong; each reason has one fixed message.
#[derive(Clone, Copy, Debug, PartialEq, Eq, Hash, Structural)]
pub enum Reason {
    AuthCheckFailed,
    EventNotAuthorized,
    MessageTooLong,
    SigningFailed,
    EncryptionInAdminRoom,
    ServerUserCannotLeave,
    LastAdminCannotLeave,
    ServerUserCannotBeBanned,
    LastAdminCannotBeBanned,
    UserCannotRedact,
    UnsupportedRoomVersion,
    PduDoesNotExist,
    BackfilledReadReceipt,
    EventDoesNotExist,
    UnknownIdentifierType,
    InvalidUserId,
    InvalidCredentials,
    InvalidRegistrationToken,
    NoSuchSession,
    CountExhausted,
    InvalidPowerLevels,
    InvalidRedactionContent,
    InvalidMemberContent,
    InvalidContent,
    InvalidStoredContent,
    InvalidPduId,
    InvalidEventId,
    InvalidKeypairVersion,
    InvalidKeypairFormat,
    InvalidKeys,
    NoCanonicalJson,
    PrevStateNotCanonical,
    RedactionFailed,
    DanglingPduId,
    UnknownShortRoomId,
    UnknownRoomVersion,
    UnsupportedReceiptType,
    CollaboratorFailed,
}

/// A failure of a library operation.
#[derive(Clone, Copy, Debug, PartialEq, Eq, Hash, Structural)]
pub enum Error {
    /// The request cannot be served as it stands.
    BadRequest(ErrorKind, Reason),
    /// Stored data breaks an invariant; never repaired silently.
    BadDatabase(Reason),
    /// An event was asked for in a room whose state cannot carry it.
    InconsistentRoomState(Reason),
    /// An event could not be redacted.
    Redaction(Reason),
}

impl Error {
    /// A refusal for want of permission.
    pub open spec fn forbidden(reason: Reason) -> Error {
        Error::BadRequest(ErrorKind::Forbidden, reason)
    }

    /// Whether the failure is a refusal for want of permission.
    pub fn is_forbidden(&self) -> (b: bool)
        ensures
            b == (*self matches Error::BadRequest(ErrorKind::Forbidden, _)),
    {
        match self {
            Error::BadRequest(ErrorKind::Forbidden, _) => true,
            _ => false,
        }
    }

    /// The reason carried by the failure.
    pub fn reason(&self) -> (r: Reason)
        ensures
            r == match *self {
                Error::BadRequest(_, r) => r,
                Error::BadDatabase(r) => r,
                Error::InconsistentRoomState(r) => r,
                Error::Redaction(r) => r,
            },
    {
        match self {
            Error::BadRequest(_, r) => *r,
            Error::BadDatabase(r) => *r,
            Error::InconsistentRoomState(r) => *r,
            Error::Redaction(r) => *r,
        }
    }
}

impl Reason {
    /// The text of the message for this reason.
    pub open spec fn text(self) -> Seq<char> {
        match self {
            Reason::AuthCheckFailed => "Auth check failed."@,
            Reason::EventNotAuthorized => "Event is not authorized."@,
            Reason::MessageTooLong => "Message is too long"@,
            Reason::SigningFailed => "Signing event failed"@,
            Reason::EncryptionInAdminRoom => "Encryption is not allowed in the admins room"@,
            Reason::ServerUserCannotLeave => "Server user cannot leave from admins room."@,
            Reason::LastAdminCannotLeave => "Last admin cannot leave from admins room."@,
            Reason::ServerUserCannotBeBanned => "Server user cannot be banned in admins room."@,
            Reason::LastAdminCannotBeBanned => "Last admin cannot be banned in admins room."@,
            Reason::UserCannotRedact => "User cannot redact this event."@,
            Reason::UnsupportedRoomVersion => "Unexpected or unsupported room version found"@,
            Reason::PduDoesNotExist => "PDU does not exist."@,
            Reason::BackfilledReadReceipt => "Read receipt is in backfilled timeline"@,
            Reason::EventDoesNotExist => "Event does not exist."@,
            Reason::UnknownIdentifierType => "Identifier type not recognized."@,
            Reason::InvalidUserId => "User ID is invalid."@,
            Reason::InvalidCredentials => "Invalid username or password."@,
            Reason::InvalidRegistrationToken => "Invalid registration token."@,
            Reason::NoSuchSession => "UIAA session does not exist."@,
            Reason::CountExhausted => "Count has invalid bytes."@,
            Reason::InvalidPowerLevels => "invalid m.room.power_levels event"@,
            Reason::InvalidRedactionContent => "Invalid content in redaction pdu"@,
            Reason::InvalidMemberContent => "Invalid room member event content in pdu."@,
            Reason::InvalidContent => "Invalid content in pdu."@,
            Reason::InvalidStoredContent => "PDU in db has invalid content."@,
            Reason::InvalidPduId => "PDU ID points to invalid PDU."@,
            Reason::InvalidEventId => "EventId in roomid_pduleaves is invalid."@,
            Reason::InvalidKeypairVersion => "Invalid version bytes in keypair."@,
            Reason::InvalidKeypairFormat => "Invalid keypair format in database."@,
            Reason::InvalidKeys => "Private or public keys are invalid."@,
            Reason::NoCanonicalJson => "Failed to convert PDU to canonical JSON."@,
            Reason::PrevStateNotCanonical => "Failed to convert prev_state to canonical JSON."@,
            Reason::RedactionFailed => "Redaction failed"@,
            Reason::DanglingPduId => "Invalid pduid in eventid_pduid."@,
            Reason::UnknownShortRoomId => "Looked for bad shortroomid in timeline"@,
            Reason::UnknownRoomVersion => "non-create event for room of unknown version"@,
            Reason::UnsupportedReceiptType => "Unsupported receipt type"@,
            Reason::CollaboratorFailed => "A collaborator of the timeline failed."@,
        }
    }

    /// The message shown for this reason.
    pub fn message(&self) -> (m: &'static str)
        ensures
            m@ == self.text(),
    {
        match self {
            Reason::AuthCheckFailed => "Auth check failed.",
            Reason::EventNotAuthorized => "Event is not authorized.",
            Reason::MessageTooLong => "Message is too long",
            Reason::SigningFailed => "Signing event failed",
            Reason::EncryptionInAdminRoom => "Encryption is not allowed in the admins room",
            Reason::ServerUserCannotLeave => "Server user cannot leave from admins room.",
            Reason::LastAdminCannotLeave => "Last admin cannot leave from admins room.",
            Reason::ServerUserCannotBeBanned => "Server user cannot be banned in admins room.",
            Reason::LastAdminCannotBeBanned => "Last admin cannot be banned in admins room.",
            Reason::UserCannotRedact => "User cannot redact this event.",
            Reason::UnsupportedRoomVersion => "Unexpected or unsupported room version found",
            Reason::PduDoesNotExist => "PDU does not exist.",
            Reason::BackfilledReadReceipt => "Read receipt is in backfilled timeline",
            Reason::EventDoesNotExist => "Event does not exist.",
            Reason::UnknownIdentifierType => "Identifier type not recognized.",
            Reason::InvalidUserId => "User ID is invalid.",
            Reason::InvalidCredentials => "Invalid username or password.",
            Reason::InvalidRegistrationToken => "Invalid registration token.",
            Reason::NoSuchSession => "UIAA session does not exist.",
            Reason::CountExhausted => "Count has invalid bytes.",
            Reason::InvalidPowerLevels => "invalid m.room.power_levels event",
            Reason::InvalidRedactionContent => "Invalid content in redaction pdu",
            Reason::InvalidMemberContent => "Invalid room member event content in pdu.",
            Reason::InvalidContent => "Invalid content in pdu.",
            Reason::InvalidStoredContent => "PDU in db has invalid content.",
            Reason::InvalidPduId => "PDU ID points to invalid PDU.",
            Reason::InvalidEventId => "EventId in roomid_pduleaves is invalid.",
            Reason::InvalidKeypairVersion => "Invalid version bytes in keypair.",
            Reason::InvalidKeypairFormat => "Invalid keypair format in database.",
            Reason::InvalidKeys => "Private or public keys are invalid.",
            Reason::NoCanonicalJson => "Failed to convert PDU to canonical JSON.",
            Reason::PrevStateNotCanonical => "Failed to convert prev_state to canonical JSON.",
            Reason::RedactionFailed => "Redaction failed",
            Reason::DanglingPduId => "Invalid pduid in eventid_pduid.",
            Reason::UnknownShortRoomId => "Looked for bad shortroomid in timeline",
            Reason::UnknownRoomVersion => "non-create event for room of unknown version",
            Reason::UnsupportedReceiptType => "Unsupported receipt type",
            Reason::CollaboratorFailed => "A collaborator of the timeline failed.",
        }
    }
}

} // verus!
