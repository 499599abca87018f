//! Values that travel between the query engine and the wire.

use vstd::prelude::*;
use vstd::utf8::{decode_utf8, encode_utf8, valid_utf8};
use crate::bytes::{be_bytes, be_encode};
use crate::channel::{Channel, ChannelError};
use crate::connection::{frame_error, framed, read_message, read_tag, Frame};
use crate::messages::{BackendMessage, BackendMessageModel};
use crate::text::{text_from_utf8, texts};

verus! {

/// One column of a row description: its name, the type's object id and the
/// type's storage size in bytes.
#[derive(Clone)]
pub struct Field {
    pub name: String,
    pub type_id: i32,
    pub type_size: i16,
}

impl Field {
    pub fn new(name: String, type_id: i32, type_size: i16) -> (field: Self)
        ensures
            field.name == name,
            field.type_id == type_id,
            field.type_size == type_size,
    {
        Self { name, type_id, type_size }
    }
}

/// The name, the id of the type and the size of the type of each field.
pub open spec fn described(fields: Seq<Field>) -> Seq<(Seq<char>, i32, i16)> {
    fields.map_values(|field: Field| (field.name@, field.type_id, field.type_size))
}

/// A message of the server to the client, before it is laid out in bytes.
#[derive(Debug, PartialEq)]
pub enum Message {
    ReadyForQuery,
    /// Name, type id and type size of each column that follows.
    RowDescription(Vec<(String, i32, i16)>),
    DataRow(Vec<String>),
    CommandComplete(String),
    /// Severity, code and human-readable message, in this order.
    ErrorResponse(Option<String>, Option<String>, Option<String>),
}

/// The tag of a row description.
pub const ROW_DESCRIPTION: u8 = 84;

/// The tag of a data row.
pub const DATA_ROW: u8 = 68;

/// The tag of the message that a command is complete.
pub const COMMAND_COMPLETE: u8 = 67;

/// The tag of an error response.
pub const ERROR_RESPONSE: u8 = 69;

/// The tag of the message that the server is ready for a query.
pub const READY: u8 = 90;

/// The state of a server that is in no transaction.
pub const IDLE: u8 = 73;

/// The mark of the severity in an error response.
pub const SEVERITY: u8 = 83;

/// The mark of the code in an error response.
pub const CODE: u8 = 67;

/// The mark of the human-readable message in an error response.
pub const MESSAGE: u8 = 77;

/// What a `Message` holds, as plain values.
pub enum MessageModel {
    ReadyForQuery,
    RowDescription(Seq<(Seq<char>, i32, i16)>),
    DataRow(Seq<Seq<char>>),
    CommandComplete(Seq<char>),
    ErrorResponse(Option<Seq<char>>, Option<Seq<char>>, Option<Seq<char>>),
}

/// The columns as plain values.
pub open spec fn column_models(columns: Seq<(String, i32, i16)>) -> Seq<(Seq<char>, i32, i16)> {
    columns.map_values(|column: (String, i32, i16)| (column.0@, column.1, column.2))
}

/// The text, if there is one, as characters.
pub open spec fn chars(text: Option<String>) -> Option<Seq<char>> {
    match text {
        Some(text) => Some(text@),
        None => None,
    }
}

impl View for Message {
    type V = MessageModel;

    open spec fn view(&self) -> MessageModel {
        match self {
            Message::ReadyForQuery => MessageModel::ReadyForQuery,
            Message::RowDescription(columns) => MessageModel::RowDescription(
                column_models(columns@),
            ),
            Message::DataRow(values) => MessageModel::DataRow(texts(values@)),
            Message::CommandComplete(tag) => MessageModel::CommandComplete(tag@),
            Message::ErrorResponse(severity, code, message) => MessageModel::ErrorResponse(
                chars(*severity),
                chars(*code),
                chars(*message),
            ),
        }
    }
}

/// The 32 bits that stand for the number in two's complement.
pub open spec fn bits_32(number: i32) -> nat {
    if number < 0 {
        (number + 0x1_0000_0000) as nat
    } else {
        number as nat
    }
}

/// The 16 bits that stand for the number in two's complement.
pub open spec fn bits_16(number: i16) -> nat {
    if number < 0 {
        (number + 0x1_0000) as nat
    } else {
        number as nat
    }
}

/// The bytes of the text, then the byte that ends a text.
pub open spec fn ended(text: Seq<char>) -> Seq<u8> {
    encode_utf8(text) + seq![0u8]
}

/// One column of a row description: its name, no table and no column of
/// a table, the id and the size of its type, no modifier of the type, and
/// the format of text.
pub open spec fn column_layout(column: (Seq<char>, i32, i16)) -> Seq<u8> {
    ended(column.0) + be_bytes(0, 4) + be_bytes(0, 2) + be_bytes(bits_32(column.1), 4) + be_bytes(
        bits_16(column.2),
        2,
    ) + be_bytes(0xFFFF_FFFF, 4) + be_bytes(0, 2)
}

/// The columns of a row description, one after the other.
pub open spec fn columns_layout(columns: Seq<(Seq<char>, i32, i16)>) -> Seq<u8>
    decreases columns.len(),
{
    if columns.len() == 0 {
        Seq::empty()
    } else {
        columns_layout(columns.drop_last()) + column_layout(columns.last())
    }
}

/// One value of a data row: the number of its bytes, then the bytes.
pub open spec fn value_layout(value: Seq<char>) -> Seq<u8> {
    be_bytes(encode_utf8(value).len(), 4) + encode_utf8(value)
}

/// The values of a data row, one after the other.
pub open spec fn values_layout(values: Seq<Seq<char>>) -> Seq<u8>
    decreases values.len(),
{
    if values.len() == 0 {
        Seq::empty()
    } else {
        values_layout(values.drop_last()) + value_layout(values.last())
    }
}

/// One field of an error response, if there is one: its mark, then its
/// text.
pub open spec fn error_field(mark: u8, text: Option<Seq<char>>) -> Seq<u8> {
    match text {
        Some(text) => seq![mark] + ended(text),
        None => Seq::empty(),
    }
}

impl MessageModel {
    /// The tag of the message.
    pub open spec fn tag(self) -> u8 {
        match self {
            MessageModel::ReadyForQuery => READY,
            MessageModel::RowDescription(_) => ROW_DESCRIPTION,
            MessageModel::DataRow(_) => DATA_ROW,
            MessageModel::CommandComplete(_) => COMMAND_COMPLETE,
            MessageModel::ErrorResponse(_, _, _) => ERROR_RESPONSE,
        }
    }

    /// What follows the tag and the length of the message.
    pub open spec fn body(self) -> Seq<u8> {
        match self {
            MessageModel::ReadyForQuery => seq![IDLE],
            MessageModel::RowDescription(columns) => be_bytes(columns.len(), 2) + columns_layout(
                columns,
            ),
            MessageModel::DataRow(values) => be_bytes(values.len(), 2) + values_layout(values),
            MessageModel::CommandComplete(tag) => ended(tag),
            MessageModel::ErrorResponse(severity, code, message) => error_field(SEVERITY, severity)
                + error_field(CODE, code) + error_field(MESSAGE, message) + seq![0u8],
        }
    }

    /// The bytes of the message on the wire: the tag, the length, which
    /// counts itself in and the tag out, and the body.
    pub open spec fn layout(self) -> Seq<u8> {
        seq![self.tag()] + be_bytes((4 + self.body().len()) as nat, 4) + self.body()
    }

    /// The number of columns or values that the message counts.
    pub open spec fn count(self) -> nat {
        match self {
            MessageModel::RowDescription(columns) => columns.len(),
            MessageModel::DataRow(values) => values.len(),
            _ => 0,
        }
    }

    /// Whether the message fits the fields of its layout that hold its
    /// length and the number of its columns or values.
    pub open spec fn fits(self) -> bool {
        4 + self.body().len() <= i32::MAX && self.count() <= i16::MAX
    }
}

/// Adds the bytes of the text and the byte that ends a text.
fn push_ended(bytes: &mut Vec<u8>, text: &str)
    ensures
        final(bytes)@ == old(bytes)@ + ended(text@),
{
    let mut encoded = text.as_bytes_vec();
    bytes.append(&mut encoded);
    bytes.push(0);
    assert(bytes@ =~= old(bytes)@ + ended(text@));
}

/// Adds the number in `width` bytes, the most significant byte first.
fn push_number(bytes: &mut Vec<u8>, number: u64, width: usize)
    ensures
        final(bytes)@ == old(bytes)@ + be_bytes(number as nat, width as nat),
{
    let mut encoded = be_encode(number, width);
    bytes.append(&mut encoded);
}

fn to_bits_32(number: i32) -> (bits: u64)
    ensures
        bits == bits_32(number),
{
    if number < 0 {
        (number as i64 + 0x1_0000_0000) as u64
    } else {
        number as u64
    }
}

fn to_bits_16(number: i16) -> (bits: u64)
    ensures
        bits == bits_16(number),
{
    if number < 0 {
        (number as i64 + 0x1_0000) as u64
    } else {
        number as u64
    }
}

/// Adds a field of an error response, if there is one.
fn push_error_field(bytes: &mut Vec<u8>, mark: u8, text: &Option<String>)
    ensures
        final(bytes)@ == old(bytes)@ + error_field(mark, chars(*text)),
{
    match text {
        Some(text) => {
            bytes.push(mark);
            push_ended(bytes, text.as_str());
            assert(bytes@ =~= old(bytes)@ + error_field(mark, Some(text@)));
        },
        None => {
            assert(bytes@ =~= old(bytes)@ + Seq::<u8>::empty());
        },
    }
}

/// What follows the tag and the length of a row description.
fn columns_body(columns: &Vec<(String, i32, i16)>) -> (body: Vec<u8>)
    ensures
        body@ == MessageModel::RowDescription(column_models(columns@)).body(),
{
    let ghost all = column_models(columns@);
    let mut body: Vec<u8> = Vec::new();
    push_number(&mut body, columns.len() as u64, 2);
    let mut i: usize = 0;
    proof {
        assert(body@ =~= be_bytes(all.len(), 2) + columns_layout(all.take(0)));
    }
    while i < columns.len()
        invariant
            i <= columns@.len(),
            all == column_models(columns@),
            body@ == be_bytes(all.len(), 2) + columns_layout(all.take(i as int)),
        decreases columns.len() - i,
    {
        let ghost before = body@;
        push_ended(&mut body, columns[i].0.as_str());
        push_number(&mut body, 0, 4);
        push_number(&mut body, 0, 2);
        push_number(&mut body, to_bits_32(columns[i].1), 4);
        push_number(&mut body, to_bits_16(columns[i].2), 2);
        push_number(&mut body, 0xFFFF_FFFF, 4);
        push_number(&mut body, 0, 2);
        proof {
            assert(all.take(i + 1).drop_last() =~= all.take(i as int));
            assert(all.take(i + 1).last() == all[i as int]);
            assert(body@ =~= before + column_layout(all[i as int]));
            assert(body@ =~= be_bytes(all.len(), 2) + columns_layout(all.take(i + 1)));
        }
        i += 1;
    }
    proof {
        assert(all.take(columns@.len() as int) =~= all);
    }
    body
}

/// What follows the tag and the length of a data row.
fn values_body(values: &Vec<String>) -> (body: Vec<u8>)
    ensures
        body@ == MessageModel::DataRow(texts(values@)).body(),
{
    let ghost all = texts(values@);
    let mut body: Vec<u8> = Vec::new();
    push_number(&mut body, values.len() as u64, 2);
    let mut i: usize = 0;
    proof {
        assert(body@ =~= be_bytes(all.len(), 2) + values_layout(all.take(0)));
    }
    while i < values.len()
        invariant
            i <= values@.len(),
            all == texts(values@),
            body@ == be_bytes(all.len(), 2) + values_layout(all.take(i as int)),
        decreases values.len() - i,
    {
        let ghost before = body@;
        let mut encoded = values[i].as_str().as_bytes_vec();
        push_number(&mut body, encoded.len() as u64, 4);
        body.append(&mut encoded);
        proof {
            assert(all.take(i + 1).drop_last() =~= all.take(i as int));
            assert(all.take(i + 1).last() == all[i as int]);
            assert(body@ =~= before + value_layout(all[i as int]));
            assert(body@ =~= be_bytes(all.len(), 2) + values_layout(all.take(i + 1)));
        }
        i += 1;
    }
    proof {
        assert(all.take(values@.len() as int) =~= all);
    }
    body
}

impl Message {
    /// What follows the tag and the length of the message.
    fn body(&self) -> (body: Vec<u8>)
        ensures
            body@ == self@.body(),
    {
        match self {
            Message::ReadyForQuery => {
                let mut body: Vec<u8> = Vec::new();
                body.push(IDLE);
                assert(body@ =~= seq![IDLE]);
                body
            },
            Message::RowDescription(columns) => columns_body(columns),
            Message::DataRow(values) => values_body(values),
            Message::CommandComplete(tag) => {
                let mut body: Vec<u8> = Vec::new();
                push_ended(&mut body, tag.as_str());
                assert(body@ =~= ended(tag@));
                body
            },
            Message::ErrorResponse(severity, code, message) => {
                let mut body: Vec<u8> = Vec::new();
                push_error_field(&mut body, SEVERITY, severity);
                push_error_field(&mut body, CODE, code);
                push_error_field(&mut body, MESSAGE, message);
                body.push(0);
                assert(body@ =~= self@.body());
                body
            },
        }
    }

    /// The tag of the message.
    pub fn tag(&self) -> (tag: u8)
        ensures
            tag == self@.tag(),
    {
        match self {
            Message::ReadyForQuery => READY,
            Message::RowDescription(_) => ROW_DESCRIPTION,
            Message::DataRow(_) => DATA_ROW,
            Message::CommandComplete(_) => COMMAND_COMPLETE,
            Message::ErrorResponse(_, _, _) => ERROR_RESPONSE,
        }
    }

    /// The bytes of the message on the wire.
    pub fn as_vec(&self) -> (bytes: Vec<u8>)
        requires
            self@.fits(),
        ensures
            bytes@ == self@.layout(),
    {
        let mut body = self.body();
        let mut bytes: Vec<u8> = Vec::new();
        bytes.push(self.tag());
        push_number(&mut bytes, 4 + body.len() as u64, 4);
        bytes.append(&mut body);
        assert(bytes@ =~= self@.layout());
        bytes
    }
}

/// The version of the protocol that a client speaks.
pub type Version = i32;

/// The parameters that a client has started its connection with, as pairs
/// of name and value.
pub struct Params(pub Vec<(String, String)>);

/// Whether the client asked for an encrypted connection.
#[derive(Debug, Clone, Copy, PartialEq, Eq, Structural)]
pub enum SslMode {
    Require,
    Disable,
}

/// The tag of the message that ends a connection.
pub const TERMINATE: u8 = 88;

/// What a client asks for.
#[derive(Debug, PartialEq)]
pub enum Command {
    Query(String),
    Terminate,
}

/// A `Command` as plain values.
pub enum CommandModel {
    Query(Seq<char>),
    Terminate,
}

impl View for Command {
    type V = CommandModel;

    open spec fn view(&self) -> CommandModel {
        match self {
            Command::Query(sql) => CommandModel::Query(sql@),
            Command::Terminate => CommandModel::Terminate,
        }
    }
}

/// The text of the query in a payload: the payload less its last byte,
/// which ends the text, where this is text.
pub open spec fn query_text(payload: Seq<u8>) -> Option<Seq<char>> {
    if payload.len() > 0 && valid_utf8(payload.drop_last()) {
        Some(decode_utf8(payload.drop_last()))
    } else {
        None
    }
}

/// What is read from the head of `pending` on a reliable channel, and how
/// many bytes of it are consumed. The tag of termination stands alone;
/// after every other tag comes a message with the text of a query. A
/// message that is cut short, or whose text is no text, ends the
/// connection.
pub open spec fn query_read(pending: Seq<u8>) -> (Result<Result<CommandModel, ()>, ChannelError>, int) {
    if pending.len() == 0 {
        (Err(ChannelError::UnexpectedEof), 0)
    } else if pending[0] == TERMINATE {
        (Ok(Ok(CommandModel::Terminate)), 1)
    } else {
        match framed(pending.skip(1)) {
            Frame::Complete { payload, consumed } => match query_text(payload) {
                Some(text) => (Ok(Ok(CommandModel::Query(text))), 1 + consumed),
                None => (Err(ChannelError::InvalidInput), 1 + consumed),
            },
            frame => (Err(frame_error(frame)), 0),
        }
    }
}

/// The text of the query in a payload.
pub fn read_query_text(payload: Vec<u8>) -> (text: Option<String>)
    ensures
        match text {
            Some(text) => query_text(payload@) == Some(text@),
            None => query_text(payload@) is None,
        },
{
    let mut bytes = payload;
    match bytes.pop() {
        Some(_) => text_from_utf8(bytes),
        None => None,
    }
}

/// A connection that queries arrive on.
pub struct Connection<C: Channel> {
    properties: (Version, Params, SslMode),
    channel: C,
}

impl<C: Channel> Connection<C> {
    /// The channel of the connection.
    pub closed spec fn conduit(&self) -> C {
        self.channel
    }

    pub closed spec fn spec_properties(&self) -> (Version, Params, SslMode) {
        self.properties
    }

    pub fn new(properties: (Version, Params, SslMode), channel: C) -> (connection: Self)
        ensures
            connection.conduit() == channel,
            connection.spec_properties() == properties,
    {
        Self { properties, channel }
    }

    /// The channel of the connection, which ends with this.
    pub fn into_channel(self) -> (channel: C)
        ensures
            channel == self.conduit(),
    {
        self.channel
    }

    /// What the connection was started with.
    pub fn properties(&self) -> (properties: &(Version, Params, SslMode))
        ensures
            *properties == self.spec_properties(),
    {
        &self.properties
    }

    /// Tells the client that the server is ready for the next query.
    pub fn send_ready_for_query(&mut self) -> (sent: Result<Result<(), ()>, ChannelError>)
        ensures
            final(self).conduit().pending() == old(self).conduit().pending(),
            final(self).conduit().reliable() == old(self).conduit().reliable(),
            final(self).spec_properties() == old(self).spec_properties(),
            match sent {
                Ok(done) => done is Ok && final(self).conduit().written() == old(self).conduit().written() + BackendMessageModel::ReadyForQuery.layout(),
                Err(_) => !old(self).conduit().reliable(),
            },
    {
        self.channel.write_all(BackendMessage::ReadyForQuery.as_vec().as_slice())?;
        Ok(Ok(()))
    }

    /// Sends the message.
    fn send_message(&mut self, message: &Message) -> (sent: Result<(), ChannelError>)
        requires
            message@.fits(),
        ensures
            final(self).conduit().pending() == old(self).conduit().pending(),
            final(self).conduit().reliable() == old(self).conduit().reliable(),
            final(self).spec_properties() == old(self).spec_properties(),
            sent is Ok ==> final(self).conduit().written() == old(self).conduit().written()
                + message@.layout(),
            old(self).conduit().reliable() ==> sent is Ok,
    {
        self.channel.write_all(message.as_vec().as_slice())
    }

    /// Tells the client the name and the type of each column of the rows
    /// that follow.
    pub fn send_row_description(&mut self, fields: Vec<Field>) -> (sent: Result<(), ChannelError>)
        requires
            MessageModel::RowDescription(described(fields@)).fits(),
        ensures
            final(self).conduit().pending() == old(self).conduit().pending(),
            final(self).conduit().reliable() == old(self).conduit().reliable(),
            final(self).spec_properties() == old(self).spec_properties(),
            sent is Ok ==> final(self).conduit().written() == old(self).conduit().written()
                + MessageModel::RowDescription(described(fields@)).layout(),
            old(self).conduit().reliable() ==> sent is Ok,
    {
        let mut columns: Vec<(String, i32, i16)> = Vec::new();
        let mut i: usize = 0;
        proof {
            assert(column_models(columns@) =~= described(fields@).take(0));
        }
        while i < fields.len()
            invariant
                i <= fields@.len(),
                column_models(columns@) == described(fields@).take(i as int),
            decreases fields.len() - i,
        {
            let ghost before = column_models(columns@);
            let column = (fields[i].name.clone(), fields[i].type_id, fields[i].type_size);
            columns.push(column);
            proof {
                assert(column_models(columns@) =~= before.push(
                    (fields@[i as int].name@, fields@[i as int].type_id, fields@[i as int].type_size),
                ));
                assert(described(fields@).take(i + 1) =~= described(fields@).take(i as int).push(
                    described(fields@)[i as int],
                ));
            }
            i += 1;
        }
        proof {
            assert(described(fields@).take(fields@.len() as int) =~= described(fields@));
        }
        self.send_message(&Message::RowDescription(columns))
    }

    /// Sends the values of one row.
    pub fn send_row_data(&mut self, row: Vec<String>) -> (sent: Result<(), ChannelError>)
        requires
            MessageModel::DataRow(texts(row@)).fits(),
        ensures
            final(self).conduit().pending() == old(self).conduit().pending(),
            final(self).conduit().reliable() == old(self).conduit().reliable(),
            final(self).spec_properties() == old(self).spec_properties(),
            sent is Ok ==> final(self).conduit().written() == old(self).conduit().written()
                + MessageModel::DataRow(texts(row@)).layout(),
            old(self).conduit().reliable() ==> sent is Ok,
    {
        self.send_message(&Message::DataRow(row))
    }

    /// Sends the message that ends the answer to a command.
    pub fn send_command_complete(&mut self, message: Message) -> (sent: Result<(), ChannelError>)
        requires
            message@.fits(),
        ensures
            final(self).conduit().pending() == old(self).conduit().pending(),
            final(self).conduit().reliable() == old(self).conduit().reliable(),
            final(self).spec_properties() == old(self).spec_properties(),
            sent is Ok ==> final(self).conduit().written() == old(self).conduit().written()
                + message@.layout(),
            old(self).conduit().reliable() ==> sent is Ok,
    {
        self.send_message(&message)
    }

    /// Reads what the client asks for next. A text that is no text is a
    /// failure of the connection, as a message is that is cut short.
    pub fn read_query(&mut self) -> (command: Result<Result<Command, ()>, ChannelError>)
        ensures
            final(self).conduit().written() == old(self).conduit().written(),
            final(self).conduit().reliable() == old(self).conduit().reliable(),
            final(self).spec_properties() == old(self).spec_properties(),
            old(self).conduit().reliable() ==> match query_read(old(self).conduit().pending()).0 {
                Ok(Ok(expected)) => command matches Ok(Ok(got)) && got@ == expected,
                Ok(Err(())) => command matches Ok(Err(_)),
                Err(error) => command matches Err(failure) && failure == error,
            },
            old(self).conduit().reliable() && (command is Ok || framed(
                old(self).conduit().pending().skip(1),
            ) is Complete) ==> final(self).conduit().pending() == old(self).conduit().pending().skip(query_read(old(self).conduit().pending()).1),
    {
        let ghost start = self.channel.pending();
        let ghost reliable = self.channel.reliable();
        let tag = read_tag(&mut self.channel)?;
        if tag == TERMINATE {
            return Ok(Ok(Command::Terminate));
        }
        let payload = read_message(&mut self.channel)?;
        proof {
            if reliable {
                assert(start.skip(1).skip(4 + payload@.len() as int) =~= start.skip(
                    1 + 4 + payload@.len() as int,
                ));
            }
        }
        match read_query_text(payload) {
            Some(sql) => Ok(Ok(Command::Query(sql))),
            None => Err(ChannelError::InvalidInput),
        }
    }
}

} // verus!
