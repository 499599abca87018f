//! A connection on its way from the first byte of the client to the point
//! where requests can be received, and the requests behind that point.

use vstd::prelude::*;
use crate::channel::{Channel, ChannelError, Transport, Wire};
use crate::handshake::{
    parse_setup, payload_len, properties, read_payload_len, startup_of, HandShakeError, Startup,
    StartupModel,
};
use crate::messages::{
    backend_key_data, backend_key_data_bytes, parameter_status, parameter_status_bytes,
    BackendMessage, BackendMessageModel, Encryption,
};
use crate::request::{parse_client_request, request_of, Request, RequestError, RequestModel};

verus! {

/// What secures a channel, such as the certificate of the server.
pub trait Secure<C: Channel> {
    /// The channel that securing makes of `plain`, or the reason why it
    /// cannot be secured.
    spec fn secured(&self, plain: C) -> Result<C, ChannelError>;

    fn secure(&self, plain: C) -> (secured: Result<C, ChannelError>)
        ensures
            plain.reliable() ==> secured == self.secured(plain),
    ;
}

/// What makes a secured transport of a plain one, such as the acceptor of
/// a TLS server.
pub trait Upgrade<T: Transport> {
    fn upgrade(&self, plain: T) -> Result<T, ChannelError>;
}

/// Secures a channel over a transport by upgrading the transport.
pub struct Upgrading<U>(pub U);

impl<T: Transport, U: Upgrade<T>> Secure<Wire<T>> for Upgrading<U> {
    open spec fn secured(&self, plain: Wire<T>) -> Result<Wire<T>, ChannelError> {
        Ok(plain)
    }

    fn secure(&self, plain: Wire<T>) -> (secured: Result<Wire<T>, ChannelError>)
        ensures
            match secured {
                Ok(wire) => wire.written() == plain.written() && call_ensures(
                    U::upgrade,
                    (&self.0, plain.carrier()),
                    Ok::<T, ChannelError>(wire.carrier()),
                ),
                Err(error) => call_ensures(
                    U::upgrade,
                    (&self.0, plain.carrier()),
                    Err::<T, ChannelError>(error),
                ),
            },
    {
        let upgrade = |transport: T| -> (upgraded: Result<T, ChannelError>)
            ensures
                call_ensures(U::upgrade, (&self.0, transport), upgraded),
            {
                self.0.upgrade(transport)
            };
        plain.replace(upgrade)
    }
}

/// Secures a channel by leaving it as it is.
pub struct Unsecured;

impl<C: Channel> Secure<C> for Unsecured {
    open spec fn secured(&self, plain: C) -> Result<C, ChannelError> {
        Ok(plain)
    }

    fn secure(&self, plain: C) -> (secured: Result<C, ChannelError>)
        ensures
            secured == Ok::<C, ChannelError>(plain),
    {
        Ok(plain)
    }
}

/// The message at the head of an input: a length that counts itself in,
/// then the payload.
pub enum Frame {
    /// The input ends before the message does.
    Incomplete,
    /// The length cannot be.
    Invalid,
    Complete { payload: Seq<u8>, consumed: int },
}

/// The message at the head of `pending`.
pub open spec fn framed(pending: Seq<u8>) -> Frame {
    if pending.len() < 4 {
        Frame::Incomplete
    } else {
        match payload_len(pending.take(4)) {
            Some(len) => if pending.len() < 4 + len {
                Frame::Incomplete
            } else {
                Frame::Complete { payload: pending.subrange(4, 4 + len as int), consumed: 4 + len as int }
            },
            None => Frame::Invalid,
        }
    }
}

/// The error that a reliable channel gives for a message that is not
/// complete.
pub open spec fn frame_error(frame: Frame) -> ChannelError {
    match frame {
        Frame::Invalid => ChannelError::InvalidInput,
        _ => ChannelError::UnexpectedEof,
    }
}

/// Reads the tag of a message: one byte.
pub fn read_tag<C: Channel>(channel: &mut C) -> (tag: Result<u8, ChannelError>)
    ensures
        final(channel).written() == old(channel).written(),
        final(channel).reliable() == old(channel).reliable(),
        match tag {
            Ok(tag) => old(channel).reliable() ==> old(channel).pending().len() > 0 && tag == old(channel).pending()[0] && final(channel).pending() == old(channel).pending().skip(1),
            Err(error) => old(channel).reliable() ==> old(channel).pending().len() == 0 && error
                == ChannelError::UnexpectedEof && final(channel).pending() == old(channel).pending(),
        },
        old(channel).reliable() && old(channel).pending().len() > 0 ==> tag is Ok,
{
    let bytes = channel.read_exact(1)?;
    Ok(bytes[0])
}

/// Reads the length of a message and gives the length of its payload: the
/// length counts itself in, the payload does not.
pub fn read_message_len<C: Channel>(channel: &mut C) -> (len: Result<usize, ChannelError>)
    ensures
        final(channel).written() == old(channel).written(),
        final(channel).reliable() == old(channel).reliable(),
        match len {
            Ok(len) => old(channel).reliable() ==> old(channel).pending().len() >= 4
                && payload_len(old(channel).pending().take(4)) == Some(len as nat) && final(channel).pending() == old(channel).pending().skip(4),
            Err(error) => old(channel).reliable() ==> if old(channel).pending().len() < 4 {
                error == ChannelError::UnexpectedEof
            } else {
                payload_len(old(channel).pending().take(4)) is None && error
                    == ChannelError::InvalidInput
            },
        },
{
    let header = channel.read_exact(4)?;
    match read_payload_len(header.as_slice()) {
        Some(len) => Ok(len),
        None => Err(ChannelError::InvalidInput),
    }
}

/// Reads the message at the head of the input.
pub fn read_message<C: Channel>(channel: &mut C) -> (message: Result<Vec<u8>, ChannelError>)
    ensures
        final(channel).written() == old(channel).written(),
        final(channel).reliable() == old(channel).reliable(),
        match message {
            Ok(payload) => old(channel).reliable() ==> framed(old(channel).pending())
                == (Frame::Complete { payload: payload@, consumed: 4 + payload@.len() as int })
                && final(channel).pending() == old(channel).pending().skip(
                4 + payload@.len() as int,
            ),
            Err(error) => old(channel).reliable() ==> !(framed(old(channel).pending())
                is Complete) && error == frame_error(framed(old(channel).pending())),
        },
{
    let len = read_message_len(channel)?;
    let ghost rest = channel.pending();
    let payload = channel.read_exact(len)?;
    proof {
        if old(channel).reliable() {
            let pending = old(channel).pending();
            assert(payload@ =~= pending.subrange(4, 4 + len));
            assert(rest.skip(len as int) =~= pending.skip(4 + len));
        }
    }
    Ok(payload)
}

/// Whether the start of a connection does without an identity: there is
/// none, or the client does not ask for encryption.
pub open spec fn taken_plainly(pending: Seq<u8>, with_identity: bool) -> bool {
    !with_identity || !(first_startup(pending) matches Ok((StartupModel::SslRequest, _)))
}

/// What the first exchange on a reliable channel that is not secured ends
/// in: the properties of the client, the number of bytes read, and whether
/// a request for encryption was turned down.
pub open spec fn plain_hand_shake(pending: Seq<u8>) -> Result<
    (StartupModel, int, bool),
    ChannelError,
> {
    match framed(pending) {
        Frame::Complete { payload, consumed } => match startup_of(payload) {
            Ok(StartupModel::SslRequest) => match framed(pending.skip(consumed)) {
                Frame::Complete { payload: second, consumed: more } => match startup_of(second) {
                    Ok(StartupModel::SslRequest) => Err(ChannelError::InvalidInput),
                    Ok(startup) => Ok((startup, consumed + more, true)),
                    Err(_) => Err(ChannelError::InvalidInput),
                },
                frame => Err(frame_error(frame)),
            },
            Ok(startup) => Ok((startup, consumed, false)),
            Err(_) => Err(ChannelError::InvalidInput),
        },
        frame => Err(frame_error(frame)),
    }
}

/// What the startup message at the head of `pending` asks for, and the
/// number of bytes that it takes.
pub open spec fn first_startup(pending: Seq<u8>) -> Result<(StartupModel, int), ChannelError> {
    match framed(pending) {
        Frame::Complete { payload, consumed } => match startup_of(payload) {
            Ok(startup) => Ok((startup, consumed)),
            Err(_) => Err(ChannelError::InvalidInput),
        },
        frame => Err(frame_error(frame)),
    }
}

/// What reading the startup message that says what the client wants gives
/// on the reliable channel `answered`: the channel after the message and
/// what the message asks for. A request for encryption is not taken here.
pub open spec fn started<C: Channel>(
    answered: C,
    outcome: Result<(C, Startup), ChannelError>,
) -> bool {
    match first_startup(answered.pending()) {
        Ok((StartupModel::SslRequest, _)) => outcome matches Err(failure) && failure
            == ChannelError::InvalidInput,
        Ok((startup, consumed)) => outcome matches Ok((after, asked)) && asked@ == startup
            && after.reliable() && after.pending() == answered.pending().skip(consumed)
            && after.written() == answered.written(),
        Err(error) => outcome matches Err(failure) && failure == error,
    }
}

/// Whether `answered` is what the reliable channel becomes when `consumed`
/// bytes were read from it and the byte `answer` was written to it.
pub open spec fn answered_with<C: Channel>(channel: C, consumed: int, answer: u8, answered: C) -> bool {
    answered.reliable() && answered.pending() == channel.pending().skip(consumed)
        && answered.written() == channel.written() + seq![answer]
}

/// What the start of a connection ends in where the client has asked for
/// encryption on a reliable channel and there is an identity: the request
/// is accepted and the channel secured; the client says what it wants on
/// the secured channel, if that is reliable.
pub open spec fn secured_start<C: Channel, I: Secure<C>>(
    channel: C,
    consumed: int,
    identity: I,
    refused: ChannelError,
    outcome: Result<(C, Startup), ChannelError>,
) -> bool {
    exists|asked: C| #[trigger]
        answered_with(channel, consumed, crate::messages::ACCEPT_SSL, asked)
            && match identity.secured(asked) {
            Ok(secured) => secured.reliable() ==> started(secured, outcome),
            Err(_) => outcome matches Err(failure) && failure == refused,
        }
}

/// What the start of a connection ends in where the client has asked for
/// encryption on a reliable channel and there is no identity: the request
/// is turned down, and the client says what it wants on the same channel.
pub open spec fn rejected_start<C: Channel>(
    channel: C,
    consumed: int,
    outcome: Result<(C, Startup), ChannelError>,
) -> bool {
    exists|answered: C| #[trigger]
        answered_with(channel, consumed, crate::messages::REJECT_SSL, answered) && started(
            answered,
            outcome,
        )
}

/// The identity that is referred to, if there is one.
pub open spec fn owned<I>(identity: Option<&I>) -> Option<I> {
    match identity {
        Some(identity) => Some(*identity),
        None => None,
    }
}

/// What the start of a connection on a reliable channel ends in.
///
/// A client that does not ask for encryption is taken as it is, with an
/// identity or without one. A client that asks for encryption is answered:
/// without an identity the request is turned down, and the client says
/// what it wants on the same channel; with an identity the request is
/// accepted and the channel secured, and the client says what it wants on
/// the secured channel, if that is reliable. Where the channel cannot be
/// secured the outcome is the error `refused`.
pub open spec fn negotiated<C: Channel, I: Secure<C>>(
    channel: C,
    identity: Option<I>,
    refused: ChannelError,
    outcome: Result<(C, Startup), ChannelError>,
) -> bool {
    match first_startup(channel.pending()) {
        Ok((startup, consumed)) => if startup is SslRequest {
            match identity {
                Some(identity) => secured_start(channel, consumed, identity, refused, outcome),
                None => rejected_start(channel, consumed, outcome),
            }
        } else {
            started(channel, outcome)
        },
        Err(_) => started(channel, outcome),
    }
}

/// Reads what the client asks for at the start; a request for encryption
/// is answered first, and the channel secured if there is an identity to
/// secure it with. Where the channel cannot be secured, the error is
/// `refused`.
pub fn negotiate<C: Channel, I: Secure<C>>(
    channel: C,
    identity: Option<&I>,
    refused: ChannelError,
) -> (outcome: Result<(C, Startup), ChannelError>)
    ensures
        match outcome {
            Ok((after, startup)) => !(startup@ is SslRequest) && exists|payload: Seq<u8>|
                startup_of(payload) == Ok::<StartupModel, HandShakeError>(startup@),
            Err(_) => true,
        },
        channel.reliable() ==> negotiated(channel, owned(identity), refused, outcome),
        channel.reliable() && taken_plainly(channel.pending(), identity is Some)
            ==> match plain_hand_shake(channel.pending()) {
            Ok((startup, consumed, rejected)) => outcome matches Ok((after, asked)) && asked@
                == startup && after.reliable() && after.pending() == channel.pending().skip(
                consumed,
            ) && after.written() == channel.written() + if rejected {
                seq![crate::messages::REJECT_SSL]
            } else {
                Seq::<u8>::empty()
            },
            Err(error) => outcome matches Err(failure) && failure == error,
        },
{
    let mut channel = channel;
    let ghost start = channel;
    let first = read_message(&mut channel)?;
    let startup = match parse_setup(first.as_slice()) {
        Ok(startup) => startup,
        Err(_) => {
            return Err(ChannelError::InvalidInput);
        },
    };
    proof {
        if start.reliable() {
            assert(first_startup(start.pending()) == Ok::<(StartupModel, int), ChannelError>(
                (startup@, 4 + first@.len() as int),
            ));
        }
    }
    match startup {
        Startup::SslRequest => {
            let ghost consumed = 4 + first@.len() as int;
            let mut answer: Vec<u8> = Vec::new();
            let ghost wrote;
            let mut secured = match identity {
                Some(identity) => {
                    answer.push(Encryption::AcceptSsl.byte());
                    channel.write_all(answer.as_slice())?;
                    channel.flush()?;
                    proof {
                        wrote = channel;
                        assert(answer@ =~= seq![crate::messages::ACCEPT_SSL]);
                    }
                    match identity.secure(channel) {
                        Ok(secured) => secured,
                        Err(_) => {
                            proof {
                                if start.reliable() {
                                    assert(answered_with(
                                        start,
                                        consumed,
                                        crate::messages::ACCEPT_SSL,
                                        wrote,
                                    ));
                                }
                            }
                            return Err(refused);
                        },
                    }
                },
                None => {
                    answer.push(Encryption::RejectSsl.byte());
                    channel.write_all(answer.as_slice())?;
                    channel.flush()?;
                    proof {
                        wrote = channel;
                        assert(answer@ =~= seq![crate::messages::REJECT_SSL]);
                    }
                    channel
                },
            };
            let ghost answered = secured;
            let outcome = match read_message(&mut secured) {
                Ok(second) => {
                    proof {
                        if identity is None && start.reliable() {
                            assert(start.pending().skip(consumed).skip(4 + second@.len() as int)
                                =~= start.pending().skip(consumed + 4 + second@.len() as int));
                        }
                    }
                    match parse_setup(second.as_slice()) {
                        Ok(Startup::SslRequest) => Err(ChannelError::InvalidInput),
                        Ok(startup) => Ok((secured, startup)),
                        Err(_) => Err(ChannelError::InvalidInput),
                    }
                },
                Err(error) => Err(error),
            };
            proof {
                if start.reliable() {
                    lemma_answered(start, identity, refused, consumed, wrote, answered, outcome);
                }
            }
            outcome
        },
        startup => {
            assert(channel.written() + Seq::<u8>::empty() =~= channel.written());
            Ok((channel, startup))
        },
    }
}

/// The start of a connection ends as the second startup message ends,
/// where the first one has asked for encryption and was answered.
proof fn lemma_answered<C: Channel, I: Secure<C>>(
    start: C,
    identity: Option<&I>,
    refused: ChannelError,
    consumed: int,
    wrote: C,
    answered: C,
    outcome: Result<(C, Startup), ChannelError>,
)
    requires
        first_startup(start.pending()) == Ok::<(StartupModel, int), ChannelError>(
            (StartupModel::SslRequest, consumed),
        ),
        match identity {
            Some(identity) => answered_with(start, consumed, crate::messages::ACCEPT_SSL, wrote)
                && identity.secured(wrote) == Ok::<C, ChannelError>(answered),
            None => answered_with(start, consumed, crate::messages::REJECT_SSL, wrote) && answered
                == wrote,
        },
        answered.reliable() ==> started(answered, outcome),
    ensures
        negotiated(start, owned(identity), refused, outcome),
{
    match identity {
        Some(chosen) => {
            assert(secured_start(start, consumed, *chosen, refused, outcome));
        },
        None => {
            assert(answered_with(start, consumed, crate::messages::REJECT_SSL, answered));
            assert(started(answered, outcome));
            assert(rejected_start(start, consumed, outcome));
        },
    }
}

#[derive(Debug)]
pub struct New;

/// The client has said who it is and what it wants to talk to.
#[derive(Debug)]
pub struct HandShake {
    pub props: Vec<(String, String)>,
}

#[derive(Debug)]
pub struct Authenticated;

#[derive(Debug)]
pub struct AllocateBackendKey;

#[derive(Debug)]
pub struct Established;

/// A connection in the state `S`. Each step of the setup takes the
/// connection and gives it back in the next state, so no step can be
/// taken twice or out of turn.
pub struct Connection<S, C: Channel> {
    channel: C,
    state: S,
}

impl<S, C: Channel> Connection<S, C> {
    /// The channel of the connection.
    pub closed spec fn conduit(&self) -> C {
        self.channel
    }

    /// What the state of the connection holds.
    pub closed spec fn state(&self) -> S {
        self.state
    }

    /// The channel, to look at.
    pub fn channel_ref(&self) -> (channel: &C)
        ensures
            *channel == self.conduit(),
    {
        &self.channel
    }
}

/// The password message at the head of an input: a tag, then a message.
pub open spec fn tagged(pending: Seq<u8>) -> Frame {
    if pending.len() < 1 {
        Frame::Incomplete
    } else {
        match framed(pending.skip(1)) {
            Frame::Complete { payload, consumed } => Frame::Complete {
                payload,
                consumed: consumed + 1,
            },
            frame => frame,
        }
    }
}

/// One parameter status message for each pair, in the order of the pairs.
pub open spec fn parameter_statuses(params: Seq<(&str, &str)>) -> Seq<u8>
    decreases params.len(),
{
    if params.len() == 0 {
        Seq::empty()
    } else {
        parameter_statuses(params.drop_last()) + parameter_status(
            params.last().0@,
            params.last().1@,
        )
    }
}

/// Whether every pair fits the length field of a parameter status message.
pub open spec fn statuses_fit(params: Seq<(&str, &str)>) -> bool {
    forall|i: int|
        0 <= i < params.len() ==> BackendMessageModel::ParameterStatus(
            (#[trigger] params[i]).0@,
            params[i].1@,
        ).fits()
}

/// What a connection is made of what the start of it has ended in: a
/// client that wants to connect is taken on with its properties, on the
/// channel that the start has left. Nothing else is taken.
pub open spec fn shaken<C: Channel>(
    outcome: Result<(C, Startup), ChannelError>,
    connection: Result<Connection<HandShake, C>, ChannelError>,
) -> bool {
    match outcome {
        Ok((channel, Startup::Connect(props))) => connection matches Ok(taken) && taken.conduit()
            == channel && taken.state().props == props,
        Ok(_) => connection matches Err(failure) && failure == ChannelError::InvalidInput,
        Err(error) => connection matches Err(failure) && failure == error,
    }
}

/// What the hand shake on a reliable channel ends in: the start of the
/// connection ends in some outcome, and the connection is made of it.
pub open spec fn hands_shaken<C: Channel, I: Secure<C>>(
    channel: C,
    identity: Option<I>,
    connection: Result<Connection<HandShake, C>, ChannelError>,
) -> bool {
    exists|outcome: Result<(C, Startup), ChannelError>| #[trigger]
        negotiated(channel, identity, ChannelError::InvalidInput, outcome) && shaken(
            outcome,
            connection,
        )
}

impl<C: Channel> Connection<New, C> {
    pub fn new(channel: C) -> (connection: Connection<New, C>)
        ensures
            connection.conduit() == channel,
    {
        Connection { channel, state: New }
    }

    /// Reads the startup message of the client. A request for encryption
    /// is answered first: with an identity the channel is secured, without
    /// one the request is turned down and the channel stays as it is.
    pub fn hand_shake<I: Secure<C>>(self, identity: Option<&I>) -> (connection: Result<
        Connection<HandShake, C>,
        ChannelError,
    >)
        ensures
            match connection {
                Ok(connection) => exists|payload: Seq<u8>|
                    startup_of(payload) == Ok::<StartupModel, HandShakeError>(
                        StartupModel::Connect(properties(connection.state().props@)),
                    ),
                Err(_) => true,
            },
            self.conduit().reliable() ==> hands_shaken(self.conduit(), owned(identity), connection),
            self.conduit().reliable() && taken_plainly(self.conduit().pending(), identity is Some)
                ==> match plain_hand_shake(self.conduit().pending()) {
                Ok((StartupModel::Connect(props), consumed, rejected)) => connection matches Ok(
                    shaken,
                ) && properties(shaken.state().props@) == props && shaken.conduit().reliable()
                    && shaken.conduit().pending() == self.conduit().pending().skip(consumed)
                    && shaken.conduit().written() == self.conduit().written() + if rejected {
                    seq![crate::messages::REJECT_SSL]
                } else {
                    Seq::<u8>::empty()
                },
                Ok(_) => connection matches Err(failure) && failure == ChannelError::InvalidInput,
                Err(error) => connection matches Err(failure) && failure == error,
            },
    {
        let ghost start = self.channel;
        let outcome = negotiate(self.channel, identity, ChannelError::InvalidInput);
        let ghost negotiation = outcome;
        let connection = match outcome {
            Ok((channel, Startup::Connect(props))) => Ok(
                Connection { channel, state: HandShake { props } },
            ),
            Ok(_) => Err(ChannelError::InvalidInput),
            Err(error) => Err(error),
        };
        proof {
            if start.reliable() {
                assert(negotiated(start, owned(identity), ChannelError::InvalidInput, negotiation));
                assert(shaken(negotiation, connection));
            }
        }
        connection
    }
}

impl<C: Channel> Connection<HandShake, C> {
    /// Asks the client for its password, reads the answer and accepts it,
    /// whatever the password is.
    pub fn authenticate(self, _password: &str) -> (connection: Result<
        Connection<Authenticated, C>,
        ChannelError,
    >)
        ensures
            match connection {
                Ok(connection) => {
                    &&& connection.conduit().written() == self.conduit().written()
                        + BackendMessageModel::AuthenticationCleartextPassword.layout()
                        + BackendMessageModel::AuthenticationOk.layout()
                    &&& connection.conduit().reliable() == self.conduit().reliable()
                    &&& self.conduit().reliable() ==> tagged(self.conduit().pending()) is Complete
                        && connection.conduit().pending() == self.conduit().pending().skip(
                        tagged(self.conduit().pending())->consumed,
                    )
                },
                Err(error) => self.conduit().reliable() ==> !(tagged(self.conduit().pending())
                    is Complete) && error == frame_error(tagged(self.conduit().pending())),
            },
    {
        let mut channel = self.channel;
        let ghost start = channel;
        channel.write_all(BackendMessage::AuthenticationCleartextPassword.as_vec().as_slice())?;
        channel.flush()?;
        let _tag = channel.read_exact(1)?;
        let _message = read_message(&mut channel)?;
        proof {
            if start.reliable() {
                assert(start.pending().skip(1).skip(4 + _message@.len() as int)
                    =~= start.pending().skip(1 + 4 + _message@.len() as int));
            }
        }
        channel.write_all(BackendMessage::AuthenticationOk.as_vec().as_slice())?;
        channel.flush()?;
        Ok(Connection { channel, state: Authenticated })
    }
}

impl<C: Channel> Connection<Authenticated, C> {
    /// Tells the client the parameters of the server, one message each.
    pub fn send_params(self, params: &[(&str, &str)]) -> (connection: Result<
        Connection<AllocateBackendKey, C>,
        ChannelError,
    >)
        requires
            statuses_fit(params@),
        ensures
            match connection {
                Ok(connection) => connection.conduit().pending() == self.conduit().pending()
                    && connection.conduit().written() == self.conduit().written()
                    + parameter_statuses(params@) && connection.conduit().reliable()
                    == self.conduit().reliable(),
                Err(_) => !self.conduit().reliable(),
            },
    {
        let mut channel = self.channel;
        let ghost start = channel;
        let mut i: usize = 0;
        while i < params.len()
            invariant
                i <= params@.len(),
                statuses_fit(params@),
                start == self.conduit(),
                channel.pending() == start.pending(),
                channel.reliable() == start.reliable(),
                channel.written() == start.written() + parameter_statuses(params@.take(i as int)),
            decreases params.len() - i,
        {
            let (name, value) = params[i];
            proof {
                assert(params@.take(i + 1).drop_last() =~= params@.take(i as int));
                assert(params@.take(i + 1).last() == params@[i as int]);
                assert(BackendMessageModel::ParameterStatus(params@[i as int].0@, params@[i as int].1@).fits());
            }
            let ghost before = channel.written();
            channel.write_all(parameter_status_bytes(name, value).as_slice())?;
            channel.flush()?;
            proof {
                assert(channel.written() =~= start.written() + parameter_statuses(
                    params@.take(i + 1),
                ));
            }
            i += 1;
        }
        proof {
            assert(params@.take(params@.len() as int) =~= params@);
        }
        Ok(Connection { channel, state: AllocateBackendKey })
    }
}

impl<C: Channel> Connection<AllocateBackendKey, C> {
    /// Tells the client the id of the connection and the secret key with
    /// which a query on it can be cancelled.
    pub fn send_backend_keys(self, conn_id: u32, conn_secret_key: u32) -> (connection: Result<
        Connection<Established, C>,
        ChannelError,
    >)
        ensures
            match connection {
                Ok(connection) => connection.conduit().pending() == self.conduit().pending()
                    && connection.conduit().written() == self.conduit().written()
                    + backend_key_data(conn_id, conn_secret_key) && connection.conduit().reliable()
                    == self.conduit().reliable(),
                Err(_) => !self.conduit().reliable(),
            },
    {
        let mut channel = self.channel;
        channel.write_all(backend_key_data_bytes(conn_id, conn_secret_key).as_slice())?;
        channel.flush()?;
        Ok(Connection { channel, state: Established })
    }
}

impl<C: Channel> Connection<Established, C> {
    /// The channel of the connection, on which requests now arrive.
    pub fn channel(self) -> (channel: C)
        ensures
            channel == self.conduit(),
    {
        self.channel
    }
}

/// What can send the results of a query to the client.
pub trait Sender {
    /// Flushes the output stream.
    fn flush(&mut self) -> Result<(), ChannelError>;

    /// Sends response messages to the client and flushes.
    fn send(&mut self, message: &[u8]) -> Result<(), ChannelError>;
}

/// A connection that is set up: requests are received from it and
/// responses sent to it.
pub struct ConnectionOld<C: Channel> {
    socket: C,
}

/// What receiving a request from an input gives, and the number of bytes
/// that are read for it. An input that has ended counts as a request to
/// terminate; a message that is cut short or not laid out as its tag
/// requires is a failure of the connection.
pub open spec fn received(pending: Seq<u8>) -> (Result<Result<RequestModel, ()>, ChannelError>, int) {
    if pending.len() == 0 {
        (Ok(Ok(RequestModel::Terminate)), 0)
    } else {
        match tagged(pending) {
            Frame::Complete { payload, consumed } => match request_of(pending[0], payload) {
                Ok(request) => (Ok(Ok(request)), consumed),
                Err(RequestError::UnknownTag) => (Ok(Err(())), consumed),
                Err(RequestError::Malformed) => (Err(ChannelError::InvalidInput), consumed),
            },
            frame => (Err(frame_error(frame)), 0),
        }
    }
}

impl<C: Channel> ConnectionOld<C> {
    pub closed spec fn conduit(&self) -> C {
        self.socket
    }

    pub fn from(socket: C) -> (connection: ConnectionOld<C>)
        ensures
            connection.conduit() == socket,
    {
        ConnectionOld { socket }
    }

    /// The channel, to look at.
    pub fn channel_ref(&self) -> (channel: &C)
        ensures
            *channel == self.conduit(),
    {
        &self.socket
    }

    fn read_tag(&mut self) -> (tag: Result<u8, ChannelError>)
        ensures
            final(self).conduit().written() == old(self).conduit().written(),
            final(self).conduit().reliable() == old(self).conduit().reliable(),
            match tag {
                Ok(tag) => old(self).conduit().reliable() ==> old(self).conduit().pending().len()
                    >= 1 && tag == old(self).conduit().pending()[0] && final(self).conduit().pending() == old(self).conduit().pending().skip(1),
                Err(error) => old(self).conduit().reliable() ==> old(self).conduit().pending().len()
                    == 0 && error == ChannelError::UnexpectedEof && final(self).conduit().pending()
                    == old(self).conduit().pending(),
            },
    {
        let bytes = self.socket.read_exact(1)?;
        Ok(bytes[0])
    }

    /// Receives the next request of the client.
    pub fn receive(&mut self) -> (request: Result<Result<Request, ()>, ChannelError>)
        ensures
            final(self).conduit().written() == old(self).conduit().written(),
            final(self).conduit().reliable() == old(self).conduit().reliable(),
            match request {
                Ok(Ok(request)) => request@ is Terminate || exists|tag: u8, payload: Seq<u8>|
                    request_of(tag, payload) == Ok::<RequestModel, RequestError>(request@),
                _ => true,
            },
            old(self).conduit().reliable() ==> match received(old(self).conduit().pending()).0 {
                Ok(Ok(expected)) => request matches Ok(Ok(got)) && got@ == expected,
                Ok(Err(())) => request matches Ok(Err(_)),
                Err(error) => request matches Err(failure) && failure == error,
            },
            old(self).conduit().reliable() && (request is Ok || tagged(
                old(self).conduit().pending(),
            ) is Complete) ==> final(self).conduit().pending() == old(self).conduit().pending().skip(received(old(self).conduit().pending()).1),
    {
        let ghost start = self.socket;
        let tag = match self.read_tag() {
            Ok(tag) => tag,
            Err(ChannelError::UnexpectedEof) => {
                assert(start.pending().skip(0) =~= start.pending());
                return Ok(Ok(Request::Terminate));
            },
            Err(error) => {
                return Err(error);
            },
        };
        let payload = read_message(&mut self.socket)?;
        proof {
            if start.reliable() {
                assert(start.pending().skip(1).skip(4 + payload@.len() as int)
                    =~= start.pending().skip(1 + 4 + payload@.len() as int));
            }
        }
        match parse_client_request(tag, payload.as_slice()) {
            Ok(request) => Ok(Ok(request)),
            Err(RequestError::UnknownTag) => Ok(Err(())),
            Err(RequestError::Malformed) => Err(ChannelError::InvalidInput),
        }
    }
}

impl<C: Channel> Sender for ConnectionOld<C> {
    fn flush(&mut self) -> (flushed: Result<(), ChannelError>)
        ensures
            final(self).conduit().pending() == old(self).conduit().pending(),
            final(self).conduit().written() == old(self).conduit().written(),
            final(self).conduit().reliable() == old(self).conduit().reliable(),
            old(self).conduit().reliable() ==> flushed is Ok,
            exists|channel: &mut C|
                *channel == old(self).conduit() && *final(channel) == final(self).conduit()
                    && call_ensures(C::flush, (channel,), flushed),
    {
        self.socket.flush()
    }

    fn send(&mut self, message: &[u8]) -> (sent: Result<(), ChannelError>)
        ensures
            final(self).conduit().pending() == old(self).conduit().pending(),
            sent is Ok ==> final(self).conduit().written() == old(self).conduit().written()
                + message@,
            old(self).conduit().reliable() ==> sent is Ok,
    {
        self.socket.write_all(message)?;
        self.socket.flush()
    }
}

} // verus!
