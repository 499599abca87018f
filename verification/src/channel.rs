//! The two directions of a connection, as the protocol sees them: a stream
//! of bytes to read from and a stream of bytes to write to.

use vstd::prelude::*;

verus! {

/// Why a channel could not read or write.
#[derive(Debug, Clone, Copy, PartialEq, Eq, Structural)]
pub enum ChannelError {
    /// The input ended before the bytes that were asked for had arrived.
    UnexpectedEof,
    /// The peer sent what the protocol does not allow.
    InvalidInput,
    /// The transport could not be secured.
    ConnectionAborted,
    Other,
}

/// A duplex byte channel.
///
/// `pending` is what the peer has sent or will send and has not been read
/// yet; `written` is everything that was written to the peer so far. A
/// channel that is `reliable` fails in one case only: when more bytes are
/// asked for than are pending.
pub trait Channel {
    spec fn pending(&self) -> Seq<u8>;

    spec fn written(&self) -> Seq<u8>;

    spec fn reliable(&self) -> bool;

    /// Reads exactly `len` bytes.
    fn read_exact(&mut self, len: usize) -> (read: Result<Vec<u8>, ChannelError>)
        ensures
            final(self).written() == old(self).written(),
            final(self).reliable() == old(self).reliable(),
            match read {
                Ok(bytes) => bytes@.len() == len && (old(self).reliable() ==> len <= old(self).pending().len() && bytes@ == old(self).pending().take(len as int) && final(self).pending() == old(self).pending().skip(len as int)),
                Err(error) => old(self).reliable() ==> len > old(self).pending().len() && error
                    == ChannelError::UnexpectedEof && final(self).pending() == old(self).pending(),
            },
            old(self).reliable() && len <= old(self).pending().len() ==> read is Ok,
    ;

    /// Writes all of `bytes`.
    fn write_all(&mut self, bytes: &[u8]) -> (wrote: Result<(), ChannelError>)
        ensures
            final(self).pending() == old(self).pending(),
            final(self).reliable() == old(self).reliable(),
            wrote is Ok ==> final(self).written() == old(self).written() + bytes@,
            old(self).reliable() ==> wrote is Ok,
    ;

    /// Hands what was written over to the transport.
    fn flush(&mut self) -> (flushed: Result<(), ChannelError>)
        ensures
            final(self).pending() == old(self).pending(),
            final(self).written() == old(self).written(),
            final(self).reliable() == old(self).reliable(),
            old(self).reliable() ==> flushed is Ok,
    ;
}

/// The parts written one after the other.
pub open spec fn concat(parts: Seq<Seq<u8>>) -> Seq<u8>
    decreases parts.len(),
{
    if parts.len() == 0 {
        Seq::empty()
    } else {
        concat(parts.drop_last()) + parts.last()
    }
}

/// The bytes of each slice.
pub open spec fn slices(content: Seq<&[u8]>) -> Seq<Seq<u8>> {
    content.map_values(|part: &[u8]| part@)
}

/// A channel in memory: it is read from a buffer that is filled when the
/// channel is made, and keeps what is written to it.
pub struct TestData {
    read_buffer: Vec<u8>,
    read_index: usize,
    write_buffer: Vec<u8>,
}

impl TestData {
    pub closed spec fn wf(&self) -> bool {
        self.read_index <= self.read_buffer@.len()
    }

    /// A channel whose peer sends `content`, part after part, and then
    /// nothing more.
    pub fn new(content: Vec<&[u8]>) -> (data: TestData)
        ensures
            data.wf(),
            data.pending() == concat(slices(content@)),
            data.written() == Seq::<u8>::empty(),
    {
        let mut read_buffer: Vec<u8> = Vec::new();
        let mut i: usize = 0;
        while i < content.len()
            invariant
                i <= content@.len(),
                read_buffer@ == concat(slices(content@).take(i as int)),
            decreases content.len() - i,
        {
            proof {
                assert(slices(content@).take(i + 1).drop_last() =~= slices(content@).take(i as int));
                assert(slices(content@).take(i + 1).last() == content@[i as int]@);
            }
            read_buffer.extend_from_slice(content[i]);
            i += 1;
        }
        proof {
            assert(slices(content@).take(content@.len() as int) =~= slices(content@));
        }
        let data = TestData { read_buffer, read_index: 0, write_buffer: Vec::new() };
        assert(data.pending() =~= concat(slices(content@)));
        data
    }

    /// Everything that was written to the channel.
    pub fn read_result(&self) -> (result: Vec<u8>)
        ensures
            result@ == self.written(),
    {
        let result = self.write_buffer.clone();
        assert(result@ =~= self.write_buffer@);
        result
    }
}

impl Channel for TestData {
    closed spec fn pending(&self) -> Seq<u8> {
        self.read_buffer@.skip(self.read_index as int)
    }

    closed spec fn written(&self) -> Seq<u8> {
        self.write_buffer@
    }

    open spec fn reliable(&self) -> bool {
        self.wf()
    }

    fn read_exact(&mut self, len: usize) -> (read: Result<Vec<u8>, ChannelError>)
        ensures
            old(self).wf() ==> final(self).wf(),
    {
        if self.read_index > self.read_buffer.len() || len > self.read_buffer.len()
            - self.read_index {
            return Err(ChannelError::UnexpectedEof);
        }
        let mut bytes: Vec<u8> = Vec::new();
        let start = self.read_index;
        let mut i: usize = 0;
        while i < len
            invariant
                i <= len,
                start + len <= self.read_buffer@.len() <= usize::MAX,
                bytes@ == self.read_buffer@.subrange(start as int, start + i),
            decreases len - i,
        {
            bytes.push(self.read_buffer[start + i]);
            assert(bytes@ =~= self.read_buffer@.subrange(start as int, start + i + 1));
            i += 1;
        }
        self.read_index = start + len;
        proof {
            assert(bytes@ =~= old(self).pending().take(len as int));
            assert(self.pending() =~= old(self).pending().skip(len as int));
        }
        Ok(bytes)
    }

    fn write_all(&mut self, bytes: &[u8]) -> (wrote: Result<(), ChannelError>)
        ensures
            wrote is Ok,
            old(self).wf() ==> final(self).wf(),
    {
        self.write_buffer.extend_from_slice(bytes);
        Ok(())
    }

    fn flush(&mut self) -> (flushed: Result<(), ChannelError>)
        ensures
            flushed is Ok,
            old(self).wf() ==> final(self).wf(),
    {
        Ok(())
    }
}

/// What carries bytes to a peer and back, such as a socket.
pub trait Transport {
    /// Reads exactly `len` bytes.
    fn read_exact(&mut self, len: usize) -> Result<Vec<u8>, ChannelError>;

    /// Writes all of `bytes`.
    fn write_all(&mut self, bytes: &[u8]) -> Result<(), ChannelError>;

    /// Hands what was written over to the peer.
    fn flush(&mut self) -> Result<(), ChannelError>;
}

/// What a channel makes of what its transport has read when `len` bytes
/// were asked for: bytes of another number are refused.
pub open spec fn exact(read: Result<Vec<u8>, ChannelError>, len: usize) -> Result<
    Vec<u8>,
    ChannelError,
> {
    match read {
        Ok(bytes) => if bytes@.len() == len {
            Ok(bytes)
        } else {
            Err(ChannelError::Other)
        },
        Err(error) => Err(error),
    }
}

/// A channel over a transport. It keeps account of what was written. Of
/// what the peer sends nothing is known before it is read, so the channel
/// is not reliable.
pub struct Wire<T: Transport> {
    transport: T,
    sent: Ghost<Seq<u8>>,
}

impl<T: Transport> Wire<T> {
    /// The transport below the channel.
    pub closed spec fn carrier(&self) -> T {
        self.transport
    }

    /// A channel over the transport, with nothing written yet.
    pub fn new(transport: T) -> (wire: Wire<T>)
        ensures
            wire.carrier() == transport,
            wire.written() == Seq::<u8>::empty(),
    {
        Wire { transport, sent: Ghost(Seq::empty()) }
    }

    /// The transport, to be used without the channel.
    pub fn into_inner(self) -> (transport: T)
        ensures
            transport == self.carrier(),
    {
        self.transport
    }

    /// The channel over what `change` makes of the transport; what was
    /// written stays written.
    pub fn replace<F: FnOnce(T) -> Result<T, ChannelError>>(self, change: F) -> (changed: Result<
        Wire<T>,
        ChannelError,
    >)
        requires
            call_requires(change, (self.carrier(),)),
        ensures
            match changed {
                Ok(wire) => wire.written() == self.written() && call_ensures(
                    change,
                    (self.carrier(),),
                    Ok::<T, ChannelError>(wire.carrier()),
                ),
                Err(error) => call_ensures(change, (self.carrier(),), Err::<T, ChannelError>(error)),
            },
    {
        let Wire { transport, sent } = self;
        match change(transport) {
            Ok(transport) => Ok(Wire { transport, sent }),
            Err(error) => Err(error),
        }
    }
}

impl<T: Transport> Channel for Wire<T> {
    closed spec fn pending(&self) -> Seq<u8> {
        Seq::empty()
    }

    closed spec fn written(&self) -> Seq<u8> {
        self.sent@
    }

    open spec fn reliable(&self) -> bool {
        false
    }

    /// What the transport reads, if it is as many bytes as were asked
    /// for.
    fn read_exact(&mut self, len: usize) -> (read: Result<Vec<u8>, ChannelError>)
        ensures
            exists|transport: &mut T, got: Result<Vec<u8>, ChannelError>|
                *transport == old(self).carrier() && *final(transport) == final(self).carrier()
                    && call_ensures(T::read_exact, (transport, len), got) && read == exact(
                    got,
                    len,
                ),
    {
        let bytes = self.transport.read_exact(len)?;
        if bytes.len() != len {
            return Err(ChannelError::Other);
        }
        Ok(bytes)
    }

    /// Writes the bytes to the transport; they count as written where the
    /// transport has taken them all.
    fn write_all(&mut self, bytes: &[u8]) -> (wrote: Result<(), ChannelError>)
        ensures
            exists|transport: &mut T|
                *transport == old(self).carrier() && *final(transport) == final(self).carrier()
                    && call_ensures(T::write_all, (transport, bytes), wrote),
            wrote is Err ==> final(self).written() == old(self).written(),
    {
        self.transport.write_all(bytes)?;
        proof {
            self.sent@ = self.sent@ + bytes@;
        }
        Ok(())
    }

    /// What the transport answers when it is flushed.
    fn flush(&mut self) -> (flushed: Result<(), ChannelError>)
        ensures
            exists|transport: &mut T|
                *transport == old(self).carrier() && *final(transport) == final(self).carrier()
                    && call_ensures(T::flush, (transport,), flushed),
    {
        self.transport.flush()
    }
}

} // verus!
