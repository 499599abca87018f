//! Accepting a client: the whole way from the first byte to a connection
//! that is ready for queries, or to the cancellation of a query.

use vstd::prelude::*;
use std::collections::HashMap;
use std::marker::PhantomData;
use crate::channel::{Channel, ChannelError};
use crate::connection::{
    frame_error, negotiate, negotiated, owned, plain_hand_shake, read_message, tagged,
    taken_plainly, ConnectionOld, Frame, Secure,
};
use crate::handshake::{properties, Startup, StartupModel};
use crate::messages::{
    backend_key_data, backend_key_data_bytes, parameter_status, parameter_status_bytes,
    BackendMessage, BackendMessageModel,
};

verus! {

pub type ConnId = i32;

pub type ConnSecretKey = i32;

/// The connections that are open, each with the secret key that a request
/// to cancel its query has to show.
pub struct ConnSupervisor {
    next_id: i64,
    max_id: ConnId,
    free_ids: Vec<ConnId>,
    current_mapping: HashMap<ConnId, ConnSecretKey>,
}

impl ConnSupervisor {
    /// The secret key of each open connection.
    pub closed spec fn view(&self) -> Map<ConnId, ConnSecretKey> {
        self.current_mapping@
    }

    /// The ids that were never given out start at `next_id`; the ids that
    /// were given back are below it, and none of them is in use.
    pub closed spec fn wf(&self) -> bool {
        &&& i32::MIN <= self.next_id <= self.max_id + 1
        &&& forall|id: ConnId| #[trigger] self.current_mapping@.dom().contains(id) ==> id < self.next_id
        &&& forall|i: int|
            0 <= i < self.free_ids@.len() ==> (#[trigger] self.free_ids@[i]) < self.next_id
                && !self.current_mapping@.dom().contains(self.free_ids@[i])
        &&& forall|i: int, j: int|
            0 <= i < j < self.free_ids@.len() ==> (#[trigger] self.free_ids@[i])
                != (#[trigger] self.free_ids@[j])
    }

    /// Whether an id is left to give out.
    pub closed spec fn has_room(&self) -> bool {
        self.free_ids@.len() > 0 || self.next_id <= self.max_id
    }

    /// A supervisor that gives out the ids from `min_id` to `max_id`.
    pub fn new(min_id: ConnId, max_id: ConnId) -> (supervisor: ConnSupervisor)
        requires
            min_id <= max_id,
        ensures
            supervisor.wf(),
            supervisor@ == Map::<ConnId, ConnSecretKey>::empty(),
            supervisor.has_room(),
    {
        ConnSupervisor {
            next_id: min_id as i64,
            max_id,
            free_ids: Vec::new(),
            current_mapping: HashMap::new(),
        }
    }

    /// Gives out an id that is not in use and binds it to `secret_key`.
    pub fn allocate(&mut self, secret_key: ConnSecretKey) -> (allocated: Result<
        (ConnId, ConnSecretKey),
        (),
    >)
        requires
            old(self).wf(),
        ensures
            final(self).wf(),
            match allocated {
                Ok((conn_id, key)) => old(self).has_room() && key == secret_key && !old(self)@.dom().contains(conn_id) && final(self)@ == old(self)@.insert(conn_id, secret_key),
                Err(()) => !old(self).has_room() && final(self)@ == old(self)@,
            },
    {
        let conn_id = match self.free_ids.pop() {
            Some(conn_id) => conn_id,
            None => {
                if self.next_id > self.max_id as i64 {
                    return Err(());
                }
                let conn_id = self.next_id as i32;
                self.next_id = self.next_id + 1;
                conn_id
            },
        };
        self.current_mapping.insert(conn_id, secret_key);
        Ok((conn_id, secret_key))
    }

    /// Takes the id back; it can be given out again.
    pub fn free(&mut self, conn_id: ConnId)
        requires
            old(self).wf(),
        ensures
            final(self).wf(),
            final(self)@ == old(self)@.remove(conn_id),
    {
        if self.current_mapping.remove(&conn_id).is_some() {
            self.free_ids.push(conn_id);
        }
    }

    /// Whether the connection with the given id is open and has the given
    /// secret key.
    pub fn verify(&self, conn_id: ConnId, secret_key: ConnSecretKey) -> (valid: bool)
        ensures
            valid == (self@.dom().contains(conn_id) && self@[conn_id] == secret_key),
    {
        match self.current_mapping.get(&conn_id) {
            Some(stored) => *stored == secret_key,
            None => false,
        }
    }
}

/// What the parameters of the server are announced as.
pub open spec fn announced(version: Seq<char>) -> Seq<u8> {
    parameter_status("client_encoding"@, "UTF8"@) + parameter_status("DateStyle"@, "ISO"@)
        + parameter_status("integer_datetimes"@, "off"@) + parameter_status(
        "server_version"@,
        version,
    )
}

/// What the server writes to a client that has sent its startup message:
/// the request for the password, the acceptance of whatever password came,
/// the parameters of the server, the id and key of the connection, and
/// the notice that the server is ready for a query.
pub open spec fn greeting(version: Seq<char>, conn_id: u32, secret_key: u32) -> Seq<u8> {
    BackendMessageModel::AuthenticationCleartextPassword.layout()
        + BackendMessageModel::AuthenticationOk.layout() + announced(version) + backend_key_data(
        conn_id,
        secret_key,
    ) + BackendMessageModel::ReadyForQuery.layout()
}

/// The text is short enough for both parts of a parameter status message.
proof fn lemma_literal_fits(name: &str, value: &str)
    requires
        name@.len() <= 64,
        value@.len() <= 64,
    ensures
        BackendMessageModel::ParameterStatus(name@, value@).fits(),
{
    lemma_encoded_len(name@);
    lemma_encoded_len(value@);
}

/// No character takes more than four bytes in UTF-8.
proof fn lemma_encoded_len(chars: Seq<char>)
    ensures
        vstd::utf8::encode_utf8(chars).len() <= 4 * chars.len(),
    decreases chars.len(),
{
    reveal_with_fuel(vstd::utf8::encode_utf8, 2);
    if chars.len() > 0 {
        lemma_encoded_len(chars.drop_first());
    }
}

/// Writes the parameters of the server.
fn announce<C: Channel>(channel: &mut C, version: &str) -> (sent: Result<(), ChannelError>)
    requires
        version@.len() <= 64,
    ensures
        final(channel).pending() == old(channel).pending(),
        final(channel).reliable() == old(channel).reliable(),
        sent is Ok ==> final(channel).written() == old(channel).written() + announced(version@),
        old(channel).reliable() ==> sent is Ok,
{
    proof {
        reveal_strlit("client_encoding");
        reveal_strlit("UTF8");
        reveal_strlit("DateStyle");
        reveal_strlit("ISO");
        reveal_strlit("integer_datetimes");
        reveal_strlit("off");
        reveal_strlit("server_version");
        lemma_literal_fits("client_encoding", "UTF8");
        lemma_literal_fits("DateStyle", "ISO");
        lemma_literal_fits("integer_datetimes", "off");
        lemma_literal_fits("server_version", version);
    }
    channel.write_all(parameter_status_bytes("client_encoding", "UTF8").as_slice())?;
    channel.write_all(parameter_status_bytes("DateStyle", "ISO").as_slice())?;
    channel.write_all(parameter_status_bytes("integer_datetimes", "off").as_slice())?;
    channel.write_all(parameter_status_bytes("server_version", version).as_slice())?;
    proof {
        assert(channel.written() =~= old(channel).written() + announced(version@));
    }
    Ok(())
}

/// Asks the client for its password and reads the answer.
fn ask_password<C: Channel>(channel: &mut C) -> (asked: Result<(), ChannelError>)
    ensures
        final(channel).reliable() == old(channel).reliable(),
        match asked {
            Ok(()) => {
                &&& final(channel).written() == old(channel).written()
                    + BackendMessageModel::AuthenticationCleartextPassword.layout()
                &&& old(channel).reliable() ==> tagged(old(channel).pending()) is Complete
                    && final(channel).pending() == old(channel).pending().skip(
                    tagged(old(channel).pending())->consumed,
                )
            },
            Err(error) => old(channel).reliable() ==> !(tagged(old(channel).pending()) is Complete)
                && error == frame_error(tagged(old(channel).pending())),
        },
{
    channel.write_all(BackendMessage::AuthenticationCleartextPassword.as_vec().as_slice())?;
    channel.flush()?;
    let _tag = channel.read_exact(1)?;
    let password = read_message(channel)?;
    proof {
        if old(channel).reliable() {
            assert(old(channel).pending().skip(1).skip(4 + password@.len() as int) =~= old(channel).pending().skip(1 + 4 + password@.len() as int));
        }
    }
    Ok(())
}

/// Accepts whatever password came and writes the parameters of the server.
fn welcome<C: Channel>(channel: &mut C, version: &str) -> (welcomed: Result<(), ChannelError>)
    requires
        version@.len() <= 64,
    ensures
        final(channel).pending() == old(channel).pending(),
        final(channel).reliable() == old(channel).reliable(),
        welcomed is Ok ==> final(channel).written() == old(channel).written()
            + BackendMessageModel::AuthenticationOk.layout() + announced(version@),
        old(channel).reliable() ==> welcomed is Ok,
{
    channel.write_all(BackendMessage::AuthenticationOk.as_vec().as_slice())?;
    announce(channel, version)
}

/// Tells the client the id and key of its connection and that the server
/// is ready for a query.
fn hand_over<C: Channel>(channel: &mut C, conn_id: u32, secret_key: u32) -> (handed: Result<
    (),
    ChannelError,
>)
    ensures
        final(channel).pending() == old(channel).pending(),
        final(channel).reliable() == old(channel).reliable(),
        handed is Ok ==> final(channel).written() == old(channel).written() + backend_key_data(
            conn_id,
            secret_key,
        ) + BackendMessageModel::ReadyForQuery.layout(),
        old(channel).reliable() ==> handed is Ok,
{
    channel.write_all(backend_key_data_bytes(conn_id, secret_key).as_slice())?;
    channel.write_all(BackendMessage::ReadyForQuery.as_vec().as_slice())?;
    channel.flush()
}

/// What a client is answered after the start of its connection has ended
/// in `outcome`: a client that wants to connect is asked for its password
/// and greeted on the channel that the start has left, if the password
/// arrives in full. Nothing else is taken.
pub open spec fn greeted_after<C: Channel>(
    outcome: Result<(C, Startup), ChannelError>,
    connection: Result<ConnectionOld<C>, ChannelError>,
) -> bool {
    match outcome {
        Ok((left, Startup::Connect(_))) => left.reliable() ==> match tagged(left.pending()) {
            Frame::Complete { payload, consumed } => connection matches Ok(accepted)
                && accepted.conduit().pending() == left.pending().skip(consumed)
                && accepted.conduit().written() == left.written() + greeting("13.0"@, 1, 1),
            frame => connection matches Err(failure) && failure == frame_error(frame),
        },
        Ok(_) => connection matches Err(failure) && failure == ChannelError::InvalidInput,
        Err(error) => connection matches Err(failure) && failure == error,
    }
}

/// What a client on a reliable channel is answered: the start of its
/// connection ends in some outcome, and the client is greeted after it.
pub open spec fn taken_on<C: Channel, I: Secure<C>>(
    channel: C,
    identity: Option<I>,
    connection: Result<ConnectionOld<C>, ChannelError>,
) -> bool {
    exists|outcome: Result<(C, Startup), ChannelError>| #[trigger]
        negotiated(channel, identity, ChannelError::InvalidInput, outcome) && greeted_after(
            outcome,
            connection,
        )
}

/// Accepts clients with one fixed id and key for every connection.
pub struct PgWireAcceptor<C: Channel, I: Secure<C>> {
    secured: Option<I>,
    phantom: PhantomData<C>,
}

impl<C: Channel, I: Secure<C>> PgWireAcceptor<C, I> {
    /// The identity that channels are secured with, if there is one.
    pub closed spec fn identity(&self) -> Option<I> {
        self.secured
    }

    pub fn new(secured: Option<I>) -> (acceptor: PgWireAcceptor<C, I>)
        ensures
            acceptor.identity() == secured,
    {
        PgWireAcceptor { secured, phantom: PhantomData }
    }

    /// Takes the client through the setup of the connection.
    #[verifier::rlimit(60)]
    pub fn accept(&self, socket: C) -> (connection: Result<ConnectionOld<C>, ChannelError>)
        ensures
            socket.reliable() ==> taken_on(socket, self.identity(), connection),
            socket.reliable() && taken_plainly(socket.pending(), self.identity() is Some)
                ==> match plain_hand_shake(socket.pending()) {
                Ok((StartupModel::Connect(_), consumed, rejected)) => match tagged(
                    socket.pending().skip(consumed),
                ) {
                    Frame::Complete { payload, consumed: more } => connection matches Ok(accepted)
                        && accepted.conduit().pending() == socket.pending().skip(consumed + more)
                        && accepted.conduit().written() == socket.written() + (if rejected {
                        seq![crate::messages::REJECT_SSL]
                    } else {
                        Seq::<u8>::empty()
                    }) + greeting("13.0"@, 1, 1),
                    frame => connection matches Err(failure) && failure == frame_error(frame),
                },
                Ok(_) => connection matches Err(failure) && failure == ChannelError::InvalidInput,
                Err(error) => connection matches Err(failure) && failure == error,
            },
    {
        let identity = self.secured.as_ref();
        let outcome = negotiate(socket, identity, ChannelError::InvalidInput);
        let ghost negotiation = outcome;
        proof {
            assert(owned(identity) == self.secured);
            if socket.reliable() {
                assert(negotiated(socket, self.secured, ChannelError::InvalidInput, negotiation));
            }
        }
        let (mut channel, startup) = outcome?;
        match startup {
            Startup::Connect(_) => {
                proof {
                    reveal_strlit("13.0");
                    if socket.reliable() && taken_plainly(
                        socket.pending(),
                        self.identity() is Some,
                    ) {
                        let consumed = plain_hand_shake(socket.pending())->Ok_0.1;
                        let more = tagged(socket.pending().skip(consumed))->consumed;
                        if tagged(socket.pending().skip(consumed)) is Complete {
                            assert(socket.pending().skip(consumed).skip(more)
                                =~= socket.pending().skip(consumed + more));
                        }
                    }
                }
                let ghost negotiated = channel;
                ask_password(&mut channel)?;
                welcome(&mut channel, "13.0")?;
                hand_over(&mut channel, 1, 1)?;
                proof {
                    assert(channel.written() =~= negotiated.written() + greeting("13.0"@, 1, 1));
                    if socket.reliable() && taken_plainly(
                        socket.pending(),
                        self.identity() is Some,
                    ) {
                        let rejected = plain_hand_shake(socket.pending())->Ok_0.2;
                        let prefix = if rejected {
                            seq![crate::messages::REJECT_SSL]
                        } else {
                            Seq::<u8>::empty()
                        };
                        assert(channel.written() =~= socket.written() + prefix + greeting(
                            "13.0"@,
                            1,
                            1,
                        ));
                    }
                }
                Ok(ConnectionOld::from(channel))
            },
            _ => Err(ChannelError::InvalidInput),
        }
    }
}

/// What the server is set up to do for its clients.
pub struct ProtocolConfiguration<I> {
    pub ssl: Option<I>,
}

impl<I> ProtocolConfiguration<I> {
    /// A server that does not encrypt.
    pub fn none() -> (config: Self)
        ensures
            config.ssl is None,
    {
        ProtocolConfiguration { ssl: None }
    }

    /// A server that encrypts with the given identity.
    pub fn with_ssl(identity: I) -> (config: Self)
        ensures
            config.ssl == Some(identity),
    {
        ProtocolConfiguration { ssl: Some(identity) }
    }

    pub fn ssl_support(&self) -> (support: bool)
        ensures
            support == self.ssl is Some,
    {
        self.ssl.is_some()
    }
}

/// What a client that was accepted asks for.
pub enum ClientRequest<C: Channel> {
    /// A connection, which is set up and ready for queries.
    Connect { conn_id: ConnId, props: Vec<(String, String)>, channel: C },
    /// The end of the query that runs on the connection with the given id.
    QueryCancellation(ConnId),
}

/// The number as the 32 bits that stand for it in two's complement.
pub open spec fn unsigned(number: i32) -> u32 {
    if number < 0 {
        (number + 0x1_0000_0000) as u32
    } else {
        number as u32
    }
}

fn to_unsigned(number: i32) -> (bits: u32)
    ensures
        bits == unsigned(number),
{
    if number < 0 {
        (number as i64 + 0x1_0000_0000) as u32
    } else {
        number as u32
    }
}

/// The number that the 32 bits stand for in two's complement.
fn to_signed(bits: u32) -> (number: i32)
    ensures
        number == crate::request::signed_32(bits as nat),
        unsigned(number) == bits,
{
    if bits >= 0x8000_0000 {
        (bits as i64 - 0x1_0000_0000) as i32
    } else {
        bits as i32
    }
}

/// The number that a client gives for a connection or a key.
pub open spec fn given(bits: u32) -> i32 {
    crate::request::signed_32(bits as nat)
}

/// What a client that wants to connect is answered on the channel `left`
/// that the start of its connection has left, and what is done to the
/// open connections.
///
/// The client is asked for its password and told the parameters of the
/// server; then it gets an id that is not in use, bound to `secret_key`,
/// and is told the id, the key and that the server is ready. Where no id
/// is left the client is refused. Only a client that is connected changes
/// the open connections.
pub open spec fn greeted<C: Channel>(
    left: C,
    props: Vec<(String, String)>,
    before: ConnSupervisor,
    after: ConnSupervisor,
    secret_key: ConnSecretKey,
    request: Result<Result<ClientRequest<C>, ()>, ChannelError>,
) -> bool {
    &&& match request {
        Ok(Ok(ClientRequest::Connect { conn_id, props: got, channel: ready })) => got == props
            && !before@.dom().contains(conn_id) && after@ == before@.insert(conn_id, secret_key)
            && ready.written() == left.written() + greeting(
            "12.4"@,
            unsigned(conn_id),
            unsigned(secret_key),
        ),
        Ok(Ok(ClientRequest::QueryCancellation(_))) => false,
        _ => after@ == before@,
    }
    &&& left.reliable() ==> match tagged(left.pending()) {
        Frame::Complete { payload, consumed } => if before.has_room() {
            request matches Ok(Ok(ClientRequest::Connect { conn_id, props: got, channel: ready }))
                && ready.pending() == left.pending().skip(consumed)
        } else {
            request matches Ok(Err(()))
        },
        frame => request matches Err(failure) && failure == frame_error(frame),
    }
}

/// Greets a client that wants to connect.
pub fn greet_client<C: Channel>(
    channel: C,
    props: Vec<(String, String)>,
    conn_supervisor: &mut ConnSupervisor,
    secret_key: ConnSecretKey,
) -> (request: Result<Result<ClientRequest<C>, ()>, ChannelError>)
    requires
        old(conn_supervisor).wf(),
    ensures
        final(conn_supervisor).wf(),
        greeted(channel, props, *old(conn_supervisor), *final(conn_supervisor), secret_key, request),
{
    let ghost left = channel;
    let mut channel = channel;
    ask_password(&mut channel)?;
    proof {
        reveal_strlit("12.4");
    }
    welcome(&mut channel, "12.4")?;
    let (conn_id, secret_key) = match conn_supervisor.allocate(secret_key) {
        Ok(allocated) => allocated,
        Err(()) => {
            return Ok(Err(()));
        },
    };
    match hand_over(&mut channel, to_unsigned(conn_id), to_unsigned(secret_key)) {
        Ok(()) => {
            proof {
                let welcome = greeting("12.4"@, unsigned(conn_id), unsigned(secret_key));
                assert(channel.written() =~= left.written() + welcome);
            }
            Ok(Ok(ClientRequest::Connect { conn_id, props, channel }))
        },
        Err(error) => {
            conn_supervisor.free(conn_id);
            assert(conn_supervisor@ =~= old(conn_supervisor)@);
            Err(error)
        },
    }
}

/// What a client is answered after the start of its connection has ended
/// in `outcome`, and what is done to the open connections.
///
/// A request to cancel a query is checked against the open connections;
/// nothing is written for it. A client that wants to connect is asked for
/// its password and, if an id is left, greeted under an id of its own on
/// the channel that the start has left. A client that did not keep to the
/// protocol is refused; a failure of the channel is handed on.
pub open spec fn served<C: Channel>(
    outcome: Result<(C, Startup), ChannelError>,
    before: ConnSupervisor,
    after: ConnSupervisor,
    secret_key: ConnSecretKey,
    request: Result<Result<ClientRequest<C>, ()>, ChannelError>,
) -> bool {
    match outcome {
        Ok((left, Startup::Cancel(conn_id, key))) => after@ == before@ && if before@.dom().contains(
            given(conn_id),
        ) && before@[given(conn_id)] == given(key) {
            request matches Ok(Ok(ClientRequest::QueryCancellation(id))) && id == given(conn_id)
        } else {
            request matches Ok(Err(()))
        },
        Ok((left, Startup::Connect(props))) => greeted(
            left,
            props,
            before,
            after,
            secret_key,
            request,
        ),
        Ok((left, Startup::SslRequest)) => after@ == before@ && request matches Ok(Err(())),
        Err(ChannelError::InvalidInput) => after@ == before@ && request matches Ok(Err(())),
        Err(error) => after@ == before@ && (request matches Err(failure) && failure == error),
    }
}

/// What a client on a reliable channel is answered: the start of its
/// connection ends in some outcome, and the client is served after it.
pub open spec fn client_served<C: Channel, I: Secure<C>>(
    channel: C,
    identity: Option<I>,
    before: ConnSupervisor,
    after: ConnSupervisor,
    secret_key: ConnSecretKey,
    request: Result<Result<ClientRequest<C>, ()>, ChannelError>,
) -> bool {
    exists|outcome: Result<(C, Startup), ChannelError>| #[trigger]
        negotiated(channel, identity, ChannelError::ConnectionAborted, outcome) && served(
            outcome,
            before,
            after,
            secret_key,
            request,
        )
}

/// Whether the open connections have the connection of the id with the
/// key: whether a request to cancel its query is in order.
pub fn cancel_query(conn_supervisor: &ConnSupervisor, conn_id: u32, key: u32) -> (cancelled: Result<
    ConnId,
    (),
>)
    ensures
        cancelled == if conn_supervisor@.dom().contains(given(conn_id))
            && conn_supervisor@[given(conn_id)] == given(key) {
            Ok::<ConnId, ()>(given(conn_id))
        } else {
            Err::<ConnId, ()>(())
        },
{
    let conn_id = to_signed(conn_id);
    if conn_supervisor.verify(conn_id, to_signed(key)) {
        Ok(conn_id)
    } else {
        Err(())
    }
}

/// What accepting a client on `channel` does to the open connections, and
/// what it answers; `plain` says that the server does not encrypt.
pub open spec fn client_accepted<C: Channel>(
    channel: C,
    plain: bool,
    before: ConnSupervisor,
    after: ConnSupervisor,
    secret_key: ConnSecretKey,
    request: Result<Result<ClientRequest<C>, ()>, ChannelError>,
) -> bool {
    &&& match request {
        Ok(Ok(ClientRequest::QueryCancellation(conn_id))) => after@ == before@ && before@.dom().contains(conn_id),
        Ok(Ok(ClientRequest::Connect { conn_id, props, channel: ready })) => !before@.dom().contains(conn_id) && after@ == before@.insert(
            conn_id,
            secret_key,
        ) && exists|earlier: Seq<u8>|
            ready.written() == earlier + greeting(
                "12.4"@,
                unsigned(conn_id),
                unsigned(secret_key),
            ),
        Ok(Err(())) => after@ == before@,
        Err(_) => after@ == before@,
    }
    &&& channel.reliable() && taken_plainly(channel.pending(), !plain) ==> match plain_hand_shake(
        channel.pending(),
    ) {
        Ok((StartupModel::Cancel(conn_id, key), _, _)) => if before@.dom().contains(
            crate::request::signed_32(conn_id as nat),
        ) && before@[crate::request::signed_32(conn_id as nat)] == crate::request::signed_32(key as nat) {
            request matches Ok(Ok(ClientRequest::QueryCancellation(id))) && id == crate::request::signed_32(conn_id as nat)
        } else {
            request matches Ok(Err(()))
        },
        Ok((StartupModel::Connect(props), consumed, rejected)) => match tagged(
            channel.pending().skip(consumed),
        ) {
            Frame::Complete { payload, consumed: more } => if before.has_room() {
                request matches Ok(Ok(ClientRequest::Connect { conn_id, props: got, channel: ready }))
                    && properties(got@) == props && ready.pending() == channel.pending().skip(
                    consumed + more,
                ) && ready.written() == channel.written() + (if rejected {
                    seq![crate::messages::REJECT_SSL]
                } else {
                    Seq::<u8>::empty()
                }) + greeting("12.4"@, unsigned(conn_id), unsigned(secret_key))
            } else {
                request matches Ok(Err(()))
            },
            frame => request matches Err(failure) && failure == frame_error(frame),
        },
        Ok(_) => request matches Ok(Err(())),
        Err(ChannelError::InvalidInput) => request matches Ok(Err(())),
        Err(error) => request matches Err(failure) && failure == error,
    }
}

/// Accepts a client: reads what it asks for, and either checks its request
/// to cancel a query against the open connections, or greets it as a new
/// connection under an id of its own, bound to `secret_key`.
///
/// The answer is `Ok(Err(()))` where the client does not keep to the
/// protocol, shows a wrong key, or no id is left; it is an error where the
/// channel fails.
#[verifier::rlimit(60)]
pub fn accept_client_request<C: Channel, I: Secure<C>>(
    channel: C,
    config: &ProtocolConfiguration<I>,
    conn_supervisor: &mut ConnSupervisor,
    secret_key: ConnSecretKey,
) -> (request: Result<Result<ClientRequest<C>, ()>, ChannelError>)
    requires
        old(conn_supervisor).wf(),
    ensures
        final(conn_supervisor).wf(),
        client_accepted(
            channel,
            config.ssl is None,
            *old(conn_supervisor),
            *final(conn_supervisor),
            secret_key,
            request,
        ),
        channel.reliable() ==> client_served(
            channel,
            config.ssl,
            *old(conn_supervisor),
            *final(conn_supervisor),
            secret_key,
            request,
        ),
{
    let ghost start = channel;
    let identity = config.ssl.as_ref();
    let outcome = negotiate(channel, identity, ChannelError::ConnectionAborted);
    let ghost negotiation = outcome;
    proof {
        assert(owned(identity) == config.ssl);
        if start.reliable() {
            assert(negotiated(start, config.ssl, ChannelError::ConnectionAborted, negotiation));
        }
    }
    let (channel, startup) = match outcome {
        Ok(negotiated) => negotiated,
        Err(ChannelError::InvalidInput) => {
            return Ok(Err(()));
        },
        Err(error) => {
            return Err(error);
        },
    };
    match startup {
        Startup::Cancel(conn_id, key) => {
            match cancel_query(conn_supervisor, conn_id, key) {
                Ok(conn_id) => Ok(Ok(ClientRequest::QueryCancellation(conn_id))),
                Err(()) => Ok(Err(())),
            }
        },
        Startup::Connect(props) => {
            let ghost left = channel;
            let request = greet_client(channel, props, conn_supervisor, secret_key);
            proof {
                if start.reliable() && taken_plainly(start.pending(), config.ssl is Some) {
                    let consumed = plain_hand_shake(start.pending())->Ok_0.1;
                    let more = tagged(start.pending().skip(consumed))->consumed;
                    if request matches Ok(Ok(ClientRequest::Connect { .. })) {
                        let ready = request->Ok_0->Ok_0->channel;
                        assert(ready.pending() =~= start.pending().skip(consumed + more));
                    }
                }
            }
            request
        },
        Startup::SslRequest => Ok(Err(())),
    }
}

/// Accepts the clients of a server: holds what the server is set up to do
/// and the connections that are open.
pub struct ConnectionManager<I> {
    protocol_config: ProtocolConfiguration<I>,
    conn_supervisor: ConnSupervisor,
}

impl<I> ConnectionManager<I> {
    /// The connections that are open.
    pub closed spec fn supervisor(&self) -> ConnSupervisor {
        self.conn_supervisor
    }

    /// Whether the server does not encrypt.
    pub closed spec fn plain(&self) -> bool {
        self.protocol_config.ssl is None
    }

    /// The identity that the server secures its channels with, if it has
    /// one.
    pub closed spec fn identity(&self) -> Option<I> {
        self.protocol_config.ssl
    }

    pub fn new(protocol_config: ProtocolConfiguration<I>, conn_supervisor: ConnSupervisor) -> (manager:
        Self)
        ensures
            manager.supervisor() == conn_supervisor,
            manager.plain() == protocol_config.ssl is None,
            manager.identity() == protocol_config.ssl,
    {
        ConnectionManager { protocol_config, conn_supervisor }
    }

    /// Accepts the client at the other end of `channel`; a new connection
    /// is bound to `secret_key`.
    pub fn accept<C: Channel>(&mut self, channel: C, secret_key: ConnSecretKey) -> (request: Result<
        Result<ClientRequest<C>, ()>,
        ChannelError,
    >) where I: Secure<C>
        requires
            old(self).supervisor().wf(),
        ensures
            final(self).supervisor().wf(),
            final(self).plain() == old(self).plain(),
            final(self).identity() == old(self).identity(),
            client_accepted(
                channel,
                old(self).plain(),
                old(self).supervisor(),
                final(self).supervisor(),
                secret_key,
                request,
            ),
            channel.reliable() ==> client_served(
                channel,
                old(self).identity(),
                old(self).supervisor(),
                final(self).supervisor(),
                secret_key,
                request,
            ),
    {
        accept_client_request(channel, &self.protocol_config, &mut self.conn_supervisor, secret_key)
    }
}

} // verus!
