use relational_db::acceptor::{ClientRequest, ConnSupervisor, ConnectionManager, ProtocolConfiguration};
use relational_db::channel::{Channel, ChannelError, Transport, Wire};
use relational_db::connection::{read_message, read_message_len, read_tag, Upgrade, Upgrading};
use std::cell::RefCell;
use std::rc::Rc;

/// A transport in memory that shares what is written with the test.
struct Pipe {
    input: Vec<u8>,
    at: usize,
    output: Rc<RefCell<Vec<u8>>>,
    secured: bool,
}

impl Pipe {
    fn new(input: Vec<u8>) -> (Pipe, Rc<RefCell<Vec<u8>>>) {
        let output = Rc::new(RefCell::new(Vec::new()));
        (Pipe { input, at: 0, output: output.clone(), secured: false }, output)
    }
}

impl Transport for Pipe {
    fn read_exact(&mut self, len: usize) -> Result<Vec<u8>, ChannelError> {
        if self.input.len() - self.at < len {
            return Err(ChannelError::UnexpectedEof);
        }
        let bytes = self.input[self.at..self.at + len].to_vec();
        self.at += len;
        Ok(bytes)
    }

    fn write_all(&mut self, bytes: &[u8]) -> Result<(), ChannelError> {
        self.output.borrow_mut().extend_from_slice(bytes);
        Ok(())
    }

    fn flush(&mut self) -> Result<(), ChannelError> {
        Ok(())
    }
}

/// A transport that hands out fewer bytes than it is asked for.
struct Short;

impl Transport for Short {
    fn read_exact(&mut self, _len: usize) -> Result<Vec<u8>, ChannelError> {
        Ok(vec![])
    }

    fn write_all(&mut self, _bytes: &[u8]) -> Result<(), ChannelError> {
        Err(ChannelError::ConnectionAborted)
    }

    fn flush(&mut self) -> Result<(), ChannelError> {
        Ok(())
    }
}

struct Marking;

impl Upgrade<Pipe> for Marking {
    fn upgrade(&self, plain: Pipe) -> Result<Pipe, ChannelError> {
        Ok(Pipe { secured: true, ..plain })
    }
}

struct Refusing;

impl Upgrade<Pipe> for Refusing {
    fn upgrade(&self, _plain: Pipe) -> Result<Pipe, ChannelError> {
        Err(ChannelError::ConnectionAborted)
    }
}

fn startup() -> Vec<u8> {
    let mut bytes = vec![];
    bytes.extend_from_slice(&19i32.to_be_bytes());
    bytes.extend_from_slice(&196608i32.to_be_bytes());
    bytes.extend_from_slice(b"user\0name\0\0");
    bytes
}

fn ssl_request() -> Vec<u8> {
    let mut bytes = vec![];
    bytes.extend_from_slice(&8i32.to_be_bytes());
    bytes.extend_from_slice(&80_877_103i32.to_be_bytes());
    bytes
}

fn password() -> Vec<u8> {
    let mut bytes = vec![b'p'];
    bytes.extend_from_slice(&8i32.to_be_bytes());
    bytes.extend_from_slice(b"123\0");
    bytes
}

#[test]
fn a_wire_reads_and_writes_through_its_transport() {
    let (pipe, output) = Pipe::new(vec![b'Q', 0, 0, 0, 6, b'x', 0]);
    let mut wire = Wire::new(pipe);
    assert_eq!(read_tag(&mut wire), Ok(b'Q'));
    assert_eq!(read_message(&mut wire), Ok(vec![b'x', 0]));
    assert_eq!(read_tag(&mut wire), Err(ChannelError::UnexpectedEof));
    assert_eq!(wire.write_all(&[1, 2]), Ok(()));
    assert_eq!(wire.write_all(&[3]), Ok(()));
    assert_eq!(wire.flush(), Ok(()));
    assert_eq!(*output.borrow(), vec![1, 2, 3]);
    assert_eq!(wire.into_inner().at, 7);
}

#[test]
fn a_wire_refuses_fewer_bytes_than_it_asked_for() {
    let mut wire = Wire::new(Short);
    assert_eq!(wire.read_exact(0), Ok(vec![]));
    assert_eq!(wire.read_exact(1), Err(ChannelError::Other));
    assert_eq!(read_message_len(&mut wire), Err(ChannelError::Other));
    assert_eq!(wire.write_all(&[1]), Err(ChannelError::ConnectionAborted));
}

#[test]
fn a_length_below_four_is_invalid() {
    let (pipe, _output) = Pipe::new(vec![0, 0, 0, 3]);
    assert_eq!(read_message_len(&mut Wire::new(pipe)), Err(ChannelError::InvalidInput));
    let (pipe, _output) = Pipe::new(vec![0, 0, 0, 4]);
    assert_eq!(read_message_len(&mut Wire::new(pipe)), Ok(0));
}

#[test]
fn a_client_is_accepted_over_a_wire() {
    let mut input = startup();
    input.extend(password());
    let (pipe, output) = Pipe::new(input);
    let mut manager: ConnectionManager<Upgrading<Marking>> =
        ConnectionManager::new(ProtocolConfiguration::none(), ConnSupervisor::new(5, 6));

    match manager.accept(Wire::new(pipe), 99) {
        Ok(Ok(ClientRequest::Connect { conn_id, props, channel })) => {
            assert_eq!(conn_id, 5);
            assert_eq!(props, vec![("user".to_owned(), "name".to_owned())]);
            assert!(!channel.into_inner().secured);
        }
        _ => panic!("client is connected"),
    }
    let written = output.borrow();
    assert_eq!(&written[..9], &[b'R', 0, 0, 0, 8, 0, 0, 0, 3]);
    assert_eq!(&written[written.len() - 6..], &[b'Z', 0, 0, 0, 5, b'I']);
}

#[test]
fn a_wire_is_secured_by_upgrading_its_transport() {
    let mut input = ssl_request();
    input.extend(startup());
    input.extend(password());
    let (pipe, output) = Pipe::new(input);
    let mut manager =
        ConnectionManager::new(ProtocolConfiguration::with_ssl(Upgrading(Marking)), ConnSupervisor::new(1, 1));

    match manager.accept(Wire::new(pipe), 1) {
        Ok(Ok(ClientRequest::Connect { channel, .. })) => assert!(channel.into_inner().secured),
        _ => panic!("client is connected"),
    }
    assert_eq!(output.borrow()[0], b'S');
}

#[test]
fn a_wire_that_cannot_be_secured_fails_the_connection() {
    let mut input = ssl_request();
    input.extend(startup());
    let (pipe, output) = Pipe::new(input);
    let mut manager =
        ConnectionManager::new(ProtocolConfiguration::with_ssl(Upgrading(Refusing)), ConnSupervisor::new(1, 1));

    assert!(matches!(manager.accept(Wire::new(pipe), 1), Err(ChannelError::ConnectionAborted)));
    assert_eq!(*output.borrow(), vec![b'S']);
}

#[test]
fn a_request_for_encryption_is_rejected_without_an_identity() {
    let mut input = ssl_request();
    input.extend(startup());
    input.extend(password());
    let (pipe, output) = Pipe::new(input);
    let mut manager: ConnectionManager<Upgrading<Marking>> =
        ConnectionManager::new(ProtocolConfiguration::none(), ConnSupervisor::new(1, 1));

    assert!(matches!(manager.accept(Wire::new(pipe), 1), Ok(Ok(ClientRequest::Connect { .. }))));
    assert_eq!(output.borrow()[0], b'N');
}
