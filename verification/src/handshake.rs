//! The first exchange of a connection, as a machine that is fed the bytes
//! read from the client and says what to do next.

use vstd::prelude::*;
use crate::request::{copy_range, i32_at, number_at, text_at};
use crate::text::text_from_utf8;

verus! {

/// The protocol version that the server speaks.
pub const VERSION_3: i32 = 0x0003_0000;

/// The number that a client sends in place of a version to ask for an
/// encrypted connection.
pub const SSL_REQUEST: i32 = 80_877_103;

/// The number that a client sends in place of a version to cancel a query
/// of another connection.
pub const CANCEL_REQUEST: i32 = 80_877_102;

/// A name and a value, both as characters.
pub type Property = (Seq<char>, Seq<char>);

/// The properties of `props`, as characters.
pub open spec fn properties(props: Seq<(String, String)>) -> Seq<Property> {
    props.map_values(|prop: (String, String)| (prop.0@, prop.1@))
}

/// The pairs of name and value from `from` on, up to the first empty name.
/// What follows the empty name is not looked at.
pub open spec fn props_at(bytes: Seq<u8>, from: int) -> Option<Seq<Property>>
    decreases bytes.len() - from,
{
    match text_at(bytes, from) {
        Some((name, at_value)) => if name.len() == 0 {
            Some(Seq::empty())
        } else {
            match text_at(bytes, at_value) {
                Some((value, next)) => if from < next {
                    match props_at(bytes, next) {
                        Some(rest) => Some(seq![(name, value)] + rest),
                        None => None,
                    }
                } else {
                    None
                },
                None => None,
            }
        },
        None => None,
    }
}

/// What a startup message asks for.
pub enum Startup {
    /// A connection with the given properties.
    Connect(Vec<(String, String)>),
    SslRequest,
    /// The end of the query that runs on the connection with the given id,
    /// shown the given secret key.
    Cancel(u32, u32),
}

/// What a `Startup` holds, as plain values.
pub enum StartupModel {
    Connect(Seq<Property>),
    SslRequest,
    Cancel(u32, u32),
}

impl View for Startup {
    type V = StartupModel;

    open spec fn view(&self) -> StartupModel {
        match self {
            Startup::Connect(props) => StartupModel::Connect(properties(props@)),
            Startup::SslRequest => StartupModel::SslRequest,
            Startup::Cancel(conn_id, secret_key) => StartupModel::Cancel(*conn_id, *secret_key),
        }
    }
}

/// Why the first exchange failed.
#[derive(Debug, Clone, Copy, PartialEq, Eq, Structural)]
pub enum HandShakeError {
    /// The machine was fed no bytes, or not as many as it asked for.
    UnexpectedInput,
    /// The length of the startup message cannot be.
    InvalidLength,
    /// The startup message is not laid out as its version requires.
    Malformed,
    UnsupportedVersion,
}

/// The number of payload bytes that follow a length field which counts
/// itself in: the declared length less four.
pub open spec fn payload_len(header: Seq<u8>) -> Option<nat> {
    match i32_at(header, 0) {
        Some(declared) => if header.len() == 4 && declared >= 4 {
            Some((declared - 4) as nat)
        } else {
            None
        },
        None => None,
    }
}

/// What the startup message with the given payload asks for.
pub open spec fn startup_of(payload: Seq<u8>) -> Result<StartupModel, HandShakeError> {
    match i32_at(payload, 0) {
        Some(version) => if version == VERSION_3 {
            match props_at(payload, 4) {
                Some(props) => Ok(StartupModel::Connect(props)),
                None => Err(HandShakeError::Malformed),
            }
        } else if version == SSL_REQUEST {
            if payload.len() == 4 {
                Ok(StartupModel::SslRequest)
            } else {
                Err(HandShakeError::Malformed)
            }
        } else if version == CANCEL_REQUEST {
            if payload.len() == 12 {
                Ok(
                    StartupModel::Cancel(
                        number_at(payload, 4, 4)->0 as u32,
                        number_at(payload, 8, 4)->0 as u32,
                    ),
                )
            } else {
                Err(HandShakeError::Malformed)
            }
        } else {
            Err(HandShakeError::UnsupportedVersion)
        },
        None => Err(HandShakeError::Malformed),
    }
}

/// The number that four bytes spell, the most significant one first.
fn four(bytes: &[u8], from: usize) -> (value: u64)
    requires
        from + 4 <= bytes@.len(),
    ensures
        number_at(bytes@, from as int, 4) == Some(value as nat),
        value < 0x1_0000_0000,
{
    let end = bytes.len() - (bytes.len() - from - 4);
    let field = copy_range(bytes, from, end);
    proof {
        crate::bytes::lemma_be_bytes_of_value(field@);
        crate::bytes::lemma_span_bound(4);
    }
    crate::bytes::be_u64(field.as_slice())
}

fn signed(value: u64) -> (number: i32)
    requires
        value < 0x1_0000_0000,
    ensures
        number == crate::request::signed_32(value as nat),
{
    if value >= 0x8000_0000 {
        (value as i64 - 0x1_0000_0000) as i32
    } else {
        value as i32
    }
}

/// The number of payload bytes that the four bytes of a length field
/// announce.
pub fn read_payload_len(header: &[u8]) -> (len: Option<usize>)
    ensures
        match len {
            Some(len) => payload_len(header@) == Some(len as nat),
            None => payload_len(header@) is None,
        },
{
    if header.len() != 4 {
        return None;
    }
    let declared = signed(four(header, 0));
    if declared >= 4 {
        Some((declared - 4) as usize)
    } else {
        None
    }
}

/// Reads the text at `from`; gives the text and the position behind it.
fn read_text(bytes: &[u8], from: usize) -> (text: Option<(String, usize)>)
    requires
        from <= bytes@.len(),
    ensures
        match text {
            Some((text, next)) => text_at(bytes@, from as int) == Some((text@, next as int))
                && from < next <= bytes@.len(),
            None => text_at(bytes@, from as int) is None,
        },
{
    let mut end: usize = from;
    while end < bytes.len() && bytes[end] != 0
        invariant
            from <= end <= bytes@.len(),
            crate::request::zero_from(bytes@, from as int) == crate::request::zero_from(
                bytes@,
                end as int,
            ),
        decreases bytes@.len() - end,
    {
        end += 1;
    }
    if end == bytes.len() {
        return None;
    }
    match text_from_utf8(copy_range(bytes, from, end)) {
        Some(text) => Some((text, end + 1)),
        None => None,
    }
}

/// The pairs of name and value of a startup message, which start behind
/// the version.
pub fn parse_props(message: &[u8], from: usize) -> (props: Option<Vec<(String, String)>>)
    requires
        from <= message@.len(),
    ensures
        match props {
            Some(props) => props_at(message@, from as int) == Some(properties(props@)),
            None => props_at(message@, from as int) is None,
        },
{
    let mut props: Vec<(String, String)> = Vec::new();
    let mut at: usize = from;
    let ghost all = props_at(message@, from as int);
    loop
        invariant
            at <= message@.len(),
            all == props_at(message@, from as int),
            all == match props_at(message@, at as int) {
                Some(rest) => Some(properties(props@) + rest),
                None => None,
            },
        decreases message@.len() - at,
    {
        let (name, at_value) = match read_text(message, at) {
            Some(read) => read,
            None => {
                return None;
            },
        };
        if name.as_str().unicode_len() == 0 {
            assert(properties(props@) + Seq::<Property>::empty() =~= properties(props@));
            return Some(props);
        }
        let (value, next) = match read_text(message, at_value) {
            Some(read) => read,
            None => {
                return None;
            },
        };
        proof {
            let before = properties(props@);
            let pair = (name@, value@);
            match props_at(message@, next as int) {
                Some(rest) => {
                    assert(before + (seq![pair] + rest) =~= before.push(pair) + rest);
                },
                None => {},
            }
            assert(properties(props@.push((name, value))) =~= before.push(pair));
        }
        props.push((name, value));
        at = next;
    }
}

/// What the startup message with the given payload asks for.
pub fn parse_setup(payload: &[u8]) -> (startup: Result<Startup, HandShakeError>)
    ensures
        match startup {
            Ok(startup) => startup_of(payload@) == Ok::<StartupModel, HandShakeError>(startup@),
            Err(error) => startup_of(payload@) == Err::<StartupModel, HandShakeError>(error),
        },
{
    if payload.len() < 4 {
        return Err(HandShakeError::Malformed);
    }
    let version = signed(four(payload, 0));
    if version == VERSION_3 {
        match parse_props(payload, 4) {
            Some(props) => Ok(Startup::Connect(props)),
            None => Err(HandShakeError::Malformed),
        }
    } else if version == SSL_REQUEST {
        if payload.len() == 4 {
            Ok(Startup::SslRequest)
        } else {
            Err(HandShakeError::Malformed)
        }
    } else if version == CANCEL_REQUEST {
        if payload.len() == 12 {
            Ok(Startup::Cancel(four(payload, 4) as u32, four(payload, 8) as u32))
        } else {
            Err(HandShakeError::Malformed)
        }
    } else {
        Err(HandShakeError::UnsupportedVersion)
    }
}

/// What the machine asks of its driver.
#[derive(Debug, PartialEq)]
pub enum HandShakeStatus {
    /// Read this many bytes and feed them to the machine.
    RequestingBytes(usize),
    /// Answer the request for encryption, secure the connection if it is
    /// to be secured, then read this many bytes and feed them to the
    /// machine.
    UpdatingToSecureWithReadingBytes(usize),
    /// The client asked to cancel the query of the connection with the
    /// given id and showed the given secret key.
    Cancel(u32, u32),
    /// The client is connected with the given properties.
    Done(Vec<(String, String)>),
}

/// What a `HandShakeStatus` holds, as plain values.
pub enum StatusModel {
    RequestingBytes(usize),
    UpdatingToSecureWithReadingBytes(usize),
    Cancel(u32, u32),
    Done(Seq<Property>),
}

impl View for HandShakeStatus {
    type V = StatusModel;

    open spec fn view(&self) -> StatusModel {
        match self {
            HandShakeStatus::RequestingBytes(len) => StatusModel::RequestingBytes(*len),
            HandShakeStatus::UpdatingToSecureWithReadingBytes(len) =>
                StatusModel::UpdatingToSecureWithReadingBytes(*len),
            HandShakeStatus::Cancel(conn_id, secret_key) => StatusModel::Cancel(
                *conn_id,
                *secret_key,
            ),
            HandShakeStatus::Done(props) => StatusModel::Done(properties(props@)),
        }
    }
}

/// Where the first exchange stands.
#[derive(Debug, Clone, Copy, PartialEq, Eq, Structural)]
pub enum Stage {
    /// Nothing was asked for yet.
    Started,
    /// The length of a startup message was asked for. `secured` says
    /// whether a request for encryption was answered before.
    AwaitingLength { secured: bool },
    /// The payload of a startup message was asked for.
    AwaitingPayload { len: usize, secured: bool },
    /// The exchange ended, in a result or in an error.
    Finished,
}

pub struct HandShakeProcess {
    pub stage: Stage,
}

/// The stage that the machine enters and what it answers, when it is fed
/// `payload` in `stage`.
pub open spec fn step(stage: Stage, payload: Option<Seq<u8>>) -> (Stage, Result<
    StatusModel,
    HandShakeError,
>) {
    match stage {
        Stage::Started => (
            Stage::AwaitingLength { secured: false },
            Ok(StatusModel::RequestingBytes(4)),
        ),
        Stage::AwaitingLength { secured } => match payload {
            Some(header) => match payload_len(header) {
                Some(len) => if header.len() == 4 {
                    (
                        Stage::AwaitingPayload { len: len as usize, secured },
                        Ok(StatusModel::RequestingBytes(len as usize)),
                    )
                } else {
                    (Stage::Finished, Err(HandShakeError::UnexpectedInput))
                },
                None => (
                    Stage::Finished,
                    Err(
                        if header.len() == 4 {
                            HandShakeError::InvalidLength
                        } else {
                            HandShakeError::UnexpectedInput
                        },
                    ),
                ),
            },
            None => (Stage::Finished, Err(HandShakeError::UnexpectedInput)),
        },
        Stage::AwaitingPayload { len, secured } => match payload {
            Some(message) => if message.len() != len {
                (Stage::Finished, Err(HandShakeError::UnexpectedInput))
            } else {
                match startup_of(message) {
                    Ok(StartupModel::Connect(props)) => (
                        Stage::Finished,
                        Ok(StatusModel::Done(props)),
                    ),
                    Ok(StartupModel::SslRequest) => if secured {
                        (Stage::Finished, Err(HandShakeError::UnsupportedVersion))
                    } else {
                        (
                            Stage::AwaitingLength { secured: true },
                            Ok(StatusModel::UpdatingToSecureWithReadingBytes(4)),
                        )
                    },
                    Ok(StartupModel::Cancel(conn_id, secret_key)) => (
                        Stage::Finished,
                        Ok(StatusModel::Cancel(conn_id, secret_key)),
                    ),
                    Err(error) => (Stage::Finished, Err(error)),
                }
            },
            None => (Stage::Finished, Err(HandShakeError::UnexpectedInput)),
        },
        Stage::Finished => (Stage::Finished, Err(HandShakeError::UnexpectedInput)),
    }
}

impl HandShakeProcess {
    pub fn start() -> (process: HandShakeProcess)
        ensures
            process.stage == Stage::Started,
    {
        HandShakeProcess { stage: Stage::Started }
    }

    /// Feeds the machine what was read for it, or nothing at the very
    /// beginning, and returns what it asks for next.
    pub fn next_stage(&mut self, payload: Option<&[u8]>) -> (status: Result<
        HandShakeStatus,
        HandShakeError,
    >)
        ensures
            final(self).stage == step(
                old(self).stage,
                match payload {
                    Some(bytes) => Some(bytes@),
                    None => None,
                },
            ).0,
            match status {
                Ok(status) => step(
                    old(self).stage,
                    match payload {
                        Some(bytes) => Some(bytes@),
                        None => None,
                    },
                ).1 == Ok::<StatusModel, HandShakeError>(status@),
                Err(error) => step(
                    old(self).stage,
                    match payload {
                        Some(bytes) => Some(bytes@),
                        None => None,
                    },
                ).1 == Err::<StatusModel, HandShakeError>(error),
            },
    {
        let stage = self.stage;
        self.stage = Stage::Finished;
        match stage {
            Stage::Started => {
                self.stage = Stage::AwaitingLength { secured: false };
                Ok(HandShakeStatus::RequestingBytes(4))
            },
            Stage::AwaitingLength { secured } => match payload {
                Some(header) => match read_payload_len(header) {
                    Some(len) => {
                        self.stage = Stage::AwaitingPayload { len, secured };
                        Ok(HandShakeStatus::RequestingBytes(len))
                    },
                    None => if header.len() == 4 {
                        Err(HandShakeError::InvalidLength)
                    } else {
                        Err(HandShakeError::UnexpectedInput)
                    },
                },
                None => Err(HandShakeError::UnexpectedInput),
            },
            Stage::AwaitingPayload { len, secured } => match payload {
                Some(message) => if message.len() != len {
                    Err(HandShakeError::UnexpectedInput)
                } else {
                    match parse_setup(message) {
                        Ok(Startup::Connect(props)) => Ok(HandShakeStatus::Done(props)),
                        Ok(Startup::SslRequest) => if secured {
                            Err(HandShakeError::UnsupportedVersion)
                        } else {
                            self.stage = Stage::AwaitingLength { secured: true };
                            Ok(HandShakeStatus::UpdatingToSecureWithReadingBytes(4))
                        },
                        Ok(Startup::Cancel(conn_id, secret_key)) => Ok(
                            HandShakeStatus::Cancel(conn_id, secret_key),
                        ),
                        Err(error) => Err(error),
                    }
                },
                None => Err(HandShakeError::UnexpectedInput),
            },
            Stage::Finished => Err(HandShakeError::UnexpectedInput),
        }
    }
}

} // verus!
