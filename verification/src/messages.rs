//! The messages that the server sends while a connection is set up, and
//! their layout on the wire.

use vstd::prelude::*;
use vstd::utf8::encode_utf8;
use crate::bytes::{be_bytes, be_encode};

verus! {

pub const ACCEPT_SSL: u8 = 83;

pub const REJECT_SSL: u8 = 78;

pub const AUTHENTICATION: u8 = 82;

pub const PARAMETER_STATUS: u8 = 83;

pub const BACKEND_KEY_DATA: u8 = 75;

pub const READY_FOR_QUERY: u8 = 90;

pub const EMPTY_QUERY_RESPONSE: u8 = 73;

/// The answer of the server to a request to encrypt the connection.
#[derive(Debug, Clone, Copy, PartialEq, Eq, Structural)]
pub enum Encryption {
    AcceptSsl,
    RejectSsl,
}

impl Encryption {
    pub open spec fn spec_byte(self) -> u8 {
        match self {
            Encryption::AcceptSsl => ACCEPT_SSL,
            Encryption::RejectSsl => REJECT_SSL,
        }
    }

    /// The one byte that tells the client the answer.
    pub fn byte(self) -> (byte: u8)
        ensures
            byte == self.spec_byte(),
    {
        match self {
            Encryption::AcceptSsl => ACCEPT_SSL,
            Encryption::RejectSsl => REJECT_SSL,
        }
    }
}

#[derive(Debug, PartialEq)]
pub enum BackendMessage {
    /// Asks the client for its password in clear text.
    AuthenticationCleartextPassword,
    AuthenticationOk,
    /// The name of a server parameter, then its value.
    ParameterStatus(String, String),
    /// The connection id, then the secret key that a cancel request has to
    /// show.
    BackendKeyData(u32, u32),
    ReadyForQuery,
}

/// What a `BackendMessage` holds, as plain values.
pub enum BackendMessageModel {
    AuthenticationCleartextPassword,
    AuthenticationOk,
    ParameterStatus(Seq<char>, Seq<char>),
    BackendKeyData(u32, u32),
    ReadyForQuery,
}

impl View for BackendMessage {
    type V = BackendMessageModel;

    open spec fn view(&self) -> BackendMessageModel {
        match self {
            BackendMessage::AuthenticationCleartextPassword =>
                BackendMessageModel::AuthenticationCleartextPassword,
            BackendMessage::AuthenticationOk => BackendMessageModel::AuthenticationOk,
            BackendMessage::ParameterStatus(name, value) => BackendMessageModel::ParameterStatus(
                name@,
                value@,
            ),
            BackendMessage::BackendKeyData(id, key) => BackendMessageModel::BackendKeyData(
                *id,
                *key,
            ),
            BackendMessage::ReadyForQuery => BackendMessageModel::ReadyForQuery,
        }
    }
}

/// The layout of a parameter status message: the tag, the length of what
/// follows the tag, then name and value, each closed by a zero byte.
pub open spec fn parameter_status(name: Seq<char>, value: Seq<char>) -> Seq<u8> {
    let name = encode_utf8(name);
    let value = encode_utf8(value);
    seq![PARAMETER_STATUS] + be_bytes((4 + name.len() + 1 + value.len() + 1) as nat, 4) + name
        + seq![0u8] + value + seq![0u8]
}

/// The layout of a backend key data message.
pub open spec fn backend_key_data(conn_id: u32, secret_key: u32) -> Seq<u8> {
    seq![BACKEND_KEY_DATA] + be_bytes(12, 4) + be_bytes(conn_id as nat, 4) + be_bytes(
        secret_key as nat,
        4,
    )
}

impl BackendMessageModel {
    /// The bytes of the message on the wire.
    pub open spec fn layout(self) -> Seq<u8> {
        match self {
            BackendMessageModel::AuthenticationCleartextPassword => seq![
                AUTHENTICATION,
                0,
                0,
                0,
                8,
                0,
                0,
                0,
                3,
            ],
            BackendMessageModel::AuthenticationOk => seq![AUTHENTICATION, 0, 0, 0, 8, 0, 0, 0, 0],
            BackendMessageModel::ParameterStatus(name, value) => parameter_status(name, value),
            BackendMessageModel::BackendKeyData(conn_id, secret_key) => backend_key_data(
                conn_id,
                secret_key,
            ),
            BackendMessageModel::ReadyForQuery => seq![
                READY_FOR_QUERY,
                0,
                0,
                0,
                5,
                EMPTY_QUERY_RESPONSE,
            ],
        }
    }

    /// Whether the message fits the length field of its layout.
    pub open spec fn fits(self) -> bool {
        match self {
            BackendMessageModel::ParameterStatus(name, value) => encode_utf8(name).len()
                + encode_utf8(value).len() + 6 <= i32::MAX,
            _ => true,
        }
    }
}

fn nine(bytes: [u8; 9]) -> (copy: Vec<u8>)
    ensures
        copy@ == bytes@,
{
    let mut copy: Vec<u8> = Vec::new();
    let mut i: usize = 0;
    while i < 9
        invariant
            i <= 9,
            copy@ == bytes@.take(i as int),
        decreases 9 - i,
    {
        copy.push(bytes[i]);
        assert(copy@ =~= bytes@.take(i + 1));
        i += 1;
    }
    assert(bytes@.take(9) =~= bytes@);
    copy
}

/// The layout of a parameter status message for the given name and value.
pub fn parameter_status_bytes(name: &str, value: &str) -> (bytes: Vec<u8>)
    requires
        BackendMessageModel::ParameterStatus(name@, value@).fits(),
    ensures
        bytes@ == parameter_status(name@, value@),
{
    let name_bytes = name.as_bytes_vec();
    let value_bytes = value.as_bytes_vec();
    let len: u64 = (4 + name_bytes.len() + 1 + value_bytes.len() + 1) as u64;
    let mut bytes: Vec<u8> = Vec::new();
    bytes.push(PARAMETER_STATUS);
    let mut len_bytes = be_encode(len, 4);
    bytes.append(&mut len_bytes);
    let mut name_bytes = name_bytes;
    bytes.append(&mut name_bytes);
    bytes.push(0);
    let mut value_bytes = value_bytes;
    bytes.append(&mut value_bytes);
    bytes.push(0);
    assert(bytes@ =~= parameter_status(name@, value@));
    bytes
}

/// The layout of a backend key data message for the given id and key.
pub fn backend_key_data_bytes(conn_id: u32, secret_key: u32) -> (bytes: Vec<u8>)
    ensures
        bytes@ == backend_key_data(conn_id, secret_key),
{
    let mut bytes: Vec<u8> = Vec::new();
    bytes.push(BACKEND_KEY_DATA);
    let mut len_bytes = be_encode(12, 4);
    bytes.append(&mut len_bytes);
    let mut id_bytes = be_encode(conn_id as u64, 4);
    bytes.append(&mut id_bytes);
    let mut key_bytes = be_encode(secret_key as u64, 4);
    bytes.append(&mut key_bytes);
    assert(bytes@ =~= backend_key_data(conn_id, secret_key));
    bytes
}

impl BackendMessage {
    /// The bytes of the message on the wire.
    pub fn as_vec(&self) -> (bytes: Vec<u8>)
        requires
            self@.fits(),
        ensures
            bytes@ == self@.layout(),
    {
        match self {
            BackendMessage::AuthenticationCleartextPassword => nine(
                [AUTHENTICATION, 0, 0, 0, 8, 0, 0, 0, 3],
            ),
            BackendMessage::AuthenticationOk => nine([AUTHENTICATION, 0, 0, 0, 8, 0, 0, 0, 0]),
            BackendMessage::ParameterStatus(name, value) => parameter_status_bytes(
                name.as_str(),
                value.as_str(),
            ),
            BackendMessage::BackendKeyData(conn_id, secret_key) => backend_key_data_bytes(
                *conn_id,
                *secret_key,
            ),
            BackendMessage::ReadyForQuery => {
                let mut bytes: Vec<u8> = Vec::new();
                bytes.push(READY_FOR_QUERY);
                bytes.push(0);
                bytes.push(0);
                bytes.push(0);
                bytes.push(5);
                bytes.push(EMPTY_QUERY_RESPONSE);
                assert(bytes@ =~= self@.layout());
                bytes
            },
        }
    }
}

} // verus!
