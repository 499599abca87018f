use relational_db::acceptor::{
    accept_client_request, cancel_query, greet_client, ClientRequest, ConnSupervisor,
    PgWireAcceptor, ProtocolConfiguration,
};
use relational_db::channel::{Channel, ChannelError, TestData};
use relational_db::connection::{Connection, ConnectionOld, Sender, Unsecured};
use relational_db::handshake::{HandShakeError, HandShakeProcess, HandShakeStatus};
use relational_db::messages::{
    BackendMessage, Encryption, ACCEPT_SSL, AUTHENTICATION, BACKEND_KEY_DATA, PARAMETER_STATUS,
    READY_FOR_QUERY, REJECT_SSL,
};
use relational_db::request::{parse_client_request, Request, RequestError};

fn startup_with_ssl_request() -> Vec<Vec<u8>> {
    vec![
        8i32.to_be_bytes().to_vec(),
        1234i16.to_be_bytes().to_vec(),
        5679i16.to_be_bytes().to_vec(),
        89i32.to_be_bytes().to_vec(),
        3i16.to_be_bytes().to_vec(),
        0i16.to_be_bytes().to_vec(),
        b"user\0".to_vec(),
        b"username\0".to_vec(),
        b"database\0".to_vec(),
        b"database_name\0".to_vec(),
        b"application_name\0".to_vec(),
        b"psql\0".to_vec(),
        b"client_encoding\0".to_vec(),
        b"UTF8\0".to_vec(),
        vec![0],
    ]
}

fn with_password(mut content: Vec<Vec<u8>>) -> Vec<Vec<u8>> {
    content.push(vec![b'p']);
    content.push(8i32.to_be_bytes().to_vec());
    content.push(b"123\0".to_vec());
    content
}

fn test_data(content: &[Vec<u8>]) -> TestData {
    TestData::new(content.iter().map(|part| part.as_slice()).collect())
}

#[test]
fn trying_read_from_empty_stream() {
    let connection = Connection::new(TestData::new(vec![]));

    let connection = connection.hand_shake::<Unsecured>(None);
    assert!(matches!(connection, Err(_)));
}

#[test]
fn trying_read_only_length_of_ssl_message() {
    let connection = Connection::new(TestData::new(vec![&[0, 0, 0, 8]]));

    let connection = connection.hand_shake::<Unsecured>(None);
    assert!(matches!(connection, Err(_)));
}

#[test]
fn successful_connection_handshake_for_none_secure() {
    let connection = Connection::new(test_data(&startup_with_ssl_request()));
    let connection = connection.hand_shake::<Unsecured>(None);

    assert!(matches!(connection, Ok(_)));

    let actual_content = connection.unwrap().channel_ref().read_result();
    let mut expected_content = Vec::new();
    expected_content.extend_from_slice(&[REJECT_SSL]);
    assert_eq!(actual_content, expected_content);
}

#[test]
fn successful_connection_handshake_for_ssl_secure() {
    let connection = Connection::new(test_data(&startup_with_ssl_request()));
    let connection = connection.hand_shake(Some(&Unsecured));

    assert!(matches!(connection, Ok(_)));

    let actual_content = connection.unwrap().channel_ref().read_result();
    let mut expected_content = Vec::new();
    expected_content.extend_from_slice(&[ACCEPT_SSL]);
    assert_eq!(actual_content, expected_content);
}

#[test]
fn authenticate() {
    let connection = Connection::new(test_data(&with_password(startup_with_ssl_request())));
    let connection = connection.hand_shake::<Unsecured>(None).unwrap();
    let connection = connection.authenticate("123");

    assert!(matches!(connection, Ok(_)));

    let actual_content = connection.unwrap().channel_ref().read_result();
    let mut expected_content = Vec::new();
    expected_content.extend_from_slice(&[REJECT_SSL]);
    expected_content.extend_from_slice(&[AUTHENTICATION, 0, 0, 0, 8, 0, 0, 0, 3]);
    expected_content.extend_from_slice(&[AUTHENTICATION, 0, 0, 0, 8, 0, 0, 0, 0]);
    assert_eq!(actual_content, expected_content);
}

#[test]
fn send_server_params() {
    let connection = Connection::new(test_data(&with_password(startup_with_ssl_request())));
    let connection = connection.hand_shake::<Unsecured>(None).unwrap();
    let connection = connection.authenticate("123").unwrap();
    let connection = connection.send_params(&[("key1", "value1"), ("key2", "value2")]);

    assert!(matches!(connection, Ok(_)));

    let actual_content = connection.unwrap().channel_ref().read_result();
    let mut expected_content = Vec::new();
    expected_content.extend_from_slice(&[REJECT_SSL]);
    expected_content.extend_from_slice(&[AUTHENTICATION, 0, 0, 0, 8, 0, 0, 0, 3]);
    expected_content.extend_from_slice(&[AUTHENTICATION, 0, 0, 0, 8, 0, 0, 0, 0]);
    expected_content.extend_from_slice(&[PARAMETER_STATUS]);
    expected_content.extend_from_slice(&16i32.to_be_bytes());
    expected_content.extend_from_slice(b"key1\0");
    expected_content.extend_from_slice(b"value1\0");
    expected_content.extend_from_slice(&[PARAMETER_STATUS]);
    expected_content.extend_from_slice(&16i32.to_be_bytes());
    expected_content.extend_from_slice(b"key2\0");
    expected_content.extend_from_slice(b"value2\0");
    assert_eq!(actual_content, expected_content);
}

#[test]
fn send_backend_keys() {
    const CONNECTION_ID: u32 = 1;
    const CONNECTION_SECRET_KEY: u32 = 1;

    let connection = Connection::new(test_data(&with_password(startup_with_ssl_request())));
    let connection = connection.hand_shake::<Unsecured>(None).unwrap();
    let connection = connection.authenticate("123").unwrap();
    let connection = connection
        .send_params(&[("key1", "value1"), ("key2", "value2")])
        .unwrap();
    let connection = connection.send_backend_keys(CONNECTION_ID, CONNECTION_SECRET_KEY);

    assert!(matches!(connection, Ok(_)));

    let actual_content = connection.unwrap().channel().read_result();
    let mut expected_content = Vec::new();
    expected_content.extend_from_slice(&[REJECT_SSL]);
    expected_content.extend_from_slice(&[AUTHENTICATION, 0, 0, 0, 8, 0, 0, 0, 3]);
    expected_content.extend_from_slice(&[AUTHENTICATION, 0, 0, 0, 8, 0, 0, 0, 0]);
    expected_content.extend_from_slice(&[PARAMETER_STATUS]);
    expected_content.extend_from_slice(&16i32.to_be_bytes());
    expected_content.extend_from_slice(b"key1\0");
    expected_content.extend_from_slice(b"value1\0");
    expected_content.extend_from_slice(&[PARAMETER_STATUS]);
    expected_content.extend_from_slice(&16i32.to_be_bytes());
    expected_content.extend_from_slice(b"key2\0");
    expected_content.extend_from_slice(b"value2\0");
    expected_content.extend_from_slice(&[BACKEND_KEY_DATA]);
    expected_content.extend_from_slice(&12i32.to_be_bytes());
    expected_content.extend_from_slice(&CONNECTION_ID.to_be_bytes());
    expected_content.extend_from_slice(&CONNECTION_SECRET_KEY.to_be_bytes());
    assert_eq!(actual_content, expected_content);
}

fn plain_startup() -> Vec<Vec<u8>> {
    let mut payload = Vec::new();
    payload.extend_from_slice(&0x0003_0000i32.to_be_bytes());
    payload.extend_from_slice(b"user\0username\0database\0database_name\0\0");
    vec![((payload.len() + 4) as i32).to_be_bytes().to_vec(), payload]
}

fn greeting(version: &str, conn_id: u32, secret_key: u32) -> Vec<u8> {
    let mut expected = Vec::new();
    expected.extend_from_slice(&[AUTHENTICATION, 0, 0, 0, 8, 0, 0, 0, 3]);
    expected.extend_from_slice(&[AUTHENTICATION, 0, 0, 0, 8, 0, 0, 0, 0]);
    for (name, value) in [
        ("client_encoding", "UTF8"),
        ("DateStyle", "ISO"),
        ("integer_datetimes", "off"),
        ("server_version", version),
    ] {
        expected.push(PARAMETER_STATUS);
        expected.extend_from_slice(&((4 + name.len() + 1 + value.len() + 1) as i32).to_be_bytes());
        expected.extend_from_slice(name.as_bytes());
        expected.push(0);
        expected.extend_from_slice(value.as_bytes());
        expected.push(0);
    }
    expected.push(BACKEND_KEY_DATA);
    expected.extend_from_slice(&12i32.to_be_bytes());
    expected.extend_from_slice(&conn_id.to_be_bytes());
    expected.extend_from_slice(&secret_key.to_be_bytes());
    expected.extend_from_slice(&[READY_FOR_QUERY, 0, 0, 0, 5, b'I']);
    expected
}

#[test]
fn plain_startup_proceeds_to_established_without_an_ssl_answer() {
    let acceptor: PgWireAcceptor<TestData, Unsecured> = PgWireAcceptor::new(None);
    let accepted = acceptor.accept(test_data(&with_password(plain_startup())));

    let mut connection = accepted.expect("connection is established");
    assert_eq!(connection.channel_ref().read_result(), greeting("13.0", 1, 1));
    assert_eq!(connection.receive(), Ok(Ok(Request::Terminate)));
}

#[test]
fn hand_shake_keeps_the_properties_of_the_client() {
    let connection = Connection::new(test_data(&plain_startup()));
    let connection = connection.hand_shake::<Unsecured>(None).expect("startup is read");

    assert_eq!(connection.channel_ref().read_result(), Vec::<u8>::new());
}

#[test]
fn hand_shake_process_asks_for_length_then_payload() {
    let startup = plain_startup();
    let mut process = HandShakeProcess::start();

    assert_eq!(process.next_stage(None), Ok(HandShakeStatus::RequestingBytes(4)));
    assert_eq!(
        process.next_stage(Some(&startup[0])),
        Ok(HandShakeStatus::RequestingBytes(startup[1].len()))
    );
    assert_eq!(
        process.next_stage(Some(&startup[1])),
        Ok(HandShakeStatus::Done(vec![
            ("user".to_owned(), "username".to_owned()),
            ("database".to_owned(), "database_name".to_owned()),
        ]))
    );
    assert_eq!(process.next_stage(None), Err(HandShakeError::UnexpectedInput));
}

#[test]
fn hand_shake_process_answers_ssl_request_once() {
    let mut process = HandShakeProcess::start();
    let ssl_request = 80_877_103i32.to_be_bytes();

    assert_eq!(process.next_stage(None), Ok(HandShakeStatus::RequestingBytes(4)));
    assert_eq!(
        process.next_stage(Some(&8i32.to_be_bytes())),
        Ok(HandShakeStatus::RequestingBytes(4))
    );
    assert_eq!(
        process.next_stage(Some(&ssl_request)),
        Ok(HandShakeStatus::UpdatingToSecureWithReadingBytes(4))
    );
    assert_eq!(
        process.next_stage(Some(&8i32.to_be_bytes())),
        Ok(HandShakeStatus::RequestingBytes(4))
    );
    assert_eq!(
        process.next_stage(Some(&ssl_request)),
        Err(HandShakeError::UnsupportedVersion)
    );
}

#[test]
fn hand_shake_process_rejects_impossible_length() {
    let mut process = HandShakeProcess::start();

    assert_eq!(process.next_stage(None), Ok(HandShakeStatus::RequestingBytes(4)));
    assert_eq!(
        process.next_stage(Some(&3i32.to_be_bytes())),
        Err(HandShakeError::InvalidLength)
    );
}

#[test]
fn accepted_client_gets_an_id_of_its_own() {
    let mut supervisor = ConnSupervisor::new(1, 2);
    let config: ProtocolConfiguration<Unsecured> = ProtocolConfiguration::none();

    let request = accept_client_request(
        test_data(&with_password(plain_startup())),
        &config,
        &mut supervisor,
        77,
    );

    match request {
        Ok(Ok(ClientRequest::Connect { conn_id, props, channel })) => {
            assert_eq!(conn_id, 1);
            assert_eq!(props.len(), 2);
            assert_eq!(channel.read_result(), greeting("12.4", 1, 77));
        }
        _ => panic!("client is connected"),
    }
    assert!(supervisor.verify(1, 77));
    assert!(!supervisor.verify(1, 78));
}

fn cancel_request(conn_id: i32, secret_key: i32) -> Vec<Vec<u8>> {
    vec![
        16i32.to_be_bytes().to_vec(),
        80_877_102i32.to_be_bytes().to_vec(),
        conn_id.to_be_bytes().to_vec(),
        secret_key.to_be_bytes().to_vec(),
    ]
}

#[test]
fn cancel_request_is_checked_against_open_connections() {
    let mut supervisor = ConnSupervisor::new(1, 2);
    let config: ProtocolConfiguration<Unsecured> = ProtocolConfiguration::none();
    assert_eq!(supervisor.allocate(-5), Ok((1, -5)));

    let valid = accept_client_request(test_data(&cancel_request(1, -5)), &config, &mut supervisor, 0);
    assert!(matches!(valid, Ok(Ok(ClientRequest::QueryCancellation(1)))));

    let invalid =
        accept_client_request(test_data(&cancel_request(1, 6)), &config, &mut supervisor, 0);
    assert!(matches!(invalid, Ok(Err(()))));
    assert!(supervisor.verify(1, -5));
}

#[test]
fn supervisor_gives_out_each_id_once() {
    let mut supervisor = ConnSupervisor::new(1, 2);

    assert_eq!(supervisor.allocate(10), Ok((1, 10)));
    assert_eq!(supervisor.allocate(20), Ok((2, 20)));
    assert_eq!(supervisor.allocate(30), Err(()));
    supervisor.free(1);
    assert!(!supervisor.verify(1, 10));
    assert_eq!(supervisor.allocate(40), Ok((1, 40)));
}

#[test]
fn backend_messages_are_laid_out_with_their_length() {
    assert_eq!(
        BackendMessage::ParameterStatus("key1".to_owned(), "value1".to_owned()).as_vec(),
        [&[PARAMETER_STATUS][..], &16i32.to_be_bytes(), b"key1\0value1\0"].concat()
    );
    assert_eq!(
        BackendMessage::BackendKeyData(258, 3).as_vec(),
        vec![BACKEND_KEY_DATA, 0, 0, 0, 12, 0, 0, 1, 2, 0, 0, 0, 3]
    );
    assert_eq!(Encryption::AcceptSsl.byte(), b'S');
    assert_eq!(Encryption::RejectSsl.byte(), b'N');
}

fn message(tag: u8, payload: &[u8]) -> Vec<u8> {
    let mut bytes = vec![tag];
    bytes.extend_from_slice(&((payload.len() + 4) as i32).to_be_bytes());
    bytes.extend_from_slice(payload);
    bytes
}

#[test]
fn receive_reads_requests_one_after_the_other() {
    let mut content = message(b'Q', b"select 1;\0");
    content.extend(message(b'S', b""));
    content.extend(message(b'?', b"abc"));
    content.extend(message(b'X', b""));
    let mut connection = ConnectionOld::from(TestData::new(vec![&content]));

    assert_eq!(connection.receive(), Ok(Ok(Request::Query { sql: "select 1;".to_owned() })));
    assert_eq!(connection.receive(), Ok(Ok(Request::Sync)));
    assert_eq!(connection.receive(), Ok(Err(())));
    assert_eq!(connection.receive(), Ok(Ok(Request::Terminate)));
    assert_eq!(connection.receive(), Ok(Ok(Request::Terminate)));
}

#[test]
fn receive_fails_on_a_message_that_is_cut_short() {
    let mut connection = ConnectionOld::from(TestData::new(vec![&[b'Q', 0, 0, 0, 14], b"sel;\0"]));

    assert_eq!(connection.receive(), Err(ChannelError::UnexpectedEof));
}

#[test]
fn send_writes_the_message_to_the_client() {
    let mut connection = ConnectionOld::from(TestData::new(vec![]));

    assert_eq!(connection.send(&[1, 2, 3]), Ok(()));
    assert_eq!(connection.flush(), Ok(()));
    assert_eq!(connection.channel_ref().read_result(), vec![1, 2, 3]);
}

#[test]
fn bind_payload_is_read_field_by_field() {
    let mut payload = Vec::new();
    payload.extend_from_slice(b"portal\0statement\0");
    payload.extend_from_slice(&2i16.to_be_bytes());
    payload.extend_from_slice(&1i16.to_be_bytes());
    payload.extend_from_slice(&0i16.to_be_bytes());
    payload.extend_from_slice(&2i16.to_be_bytes());
    payload.extend_from_slice(&2i32.to_be_bytes());
    payload.extend_from_slice(&[0, 1]);
    payload.extend_from_slice(&(-1i32).to_be_bytes());
    payload.extend_from_slice(&1i16.to_be_bytes());
    payload.extend_from_slice(&(-2i16).to_be_bytes());

    assert_eq!(
        parse_client_request(b'B', &payload),
        Ok(Request::Bind {
            portal_name: "portal".to_owned(),
            statement_name: "statement".to_owned(),
            query_param_formats: vec![1, 0],
            query_params: vec![Some(vec![0, 1]), None],
            result_value_formats: vec![-2],
        })
    );

    payload.push(0);
    assert_eq!(parse_client_request(b'B', &payload), Err(RequestError::Malformed));
}

#[test]
fn parse_execute_close_and_describe_payloads() {
    let mut parse = Vec::new();
    parse.extend_from_slice(b"statement\0select $1;\0");
    parse.extend_from_slice(&1i16.to_be_bytes());
    parse.extend_from_slice(&23u32.to_be_bytes());
    assert_eq!(
        parse_client_request(b'P', &parse),
        Ok(Request::Parse {
            statement_name: "statement".to_owned(),
            sql: "select $1;".to_owned(),
            param_types: vec![23],
        })
    );

    let mut execute = Vec::new();
    execute.extend_from_slice(b"portal\0");
    execute.extend_from_slice(&(-7i32).to_be_bytes());
    assert_eq!(
        parse_client_request(b'E', &execute),
        Ok(Request::Execute { portal_name: "portal".to_owned(), max_rows: -7 })
    );

    assert_eq!(
        parse_client_request(b'C', b"Pportal\0"),
        Ok(Request::ClosePortal { name: "portal".to_owned() })
    );
    assert_eq!(
        parse_client_request(b'C', b"Sstatement\0"),
        Ok(Request::CloseStatement { name: "statement".to_owned() })
    );
    assert_eq!(
        parse_client_request(b'D', b"Pportal\0"),
        Ok(Request::DescribePortal { name: "portal".to_owned() })
    );
    assert_eq!(
        parse_client_request(b'D', b"Sstatement\0"),
        Ok(Request::DescribeStatement { name: "statement".to_owned() })
    );
    assert_eq!(parse_client_request(b'D', b"Xname\0"), Err(RequestError::Malformed));
    assert_eq!(parse_client_request(b'H', b""), Ok(Request::Flush));
    assert_eq!(parse_client_request(b'Q', &[0xff, 0]), Err(RequestError::Malformed));
    assert_eq!(parse_client_request(b'z', b""), Err(RequestError::UnknownTag));
}

#[test]
fn a_request_to_cancel_is_in_order_for_the_key_of_the_connection() {
    let mut supervisor = ConnSupervisor::new(-3, 5);
    assert_eq!(supervisor.allocate(-7), Ok((-3, -7)));

    assert_eq!(cancel_query(&supervisor, (-3i32) as u32, (-7i32) as u32), Ok(-3));
    assert_eq!(cancel_query(&supervisor, (-3i32) as u32, 7), Err(()));
    assert_eq!(cancel_query(&supervisor, 4, (-7i32) as u32), Err(()));
}

#[test]
fn a_client_that_wants_to_connect_is_greeted_under_a_new_id() {
    let mut supervisor = ConnSupervisor::new(1, 1);
    let password: Vec<Vec<u8>> = vec![vec![b'p'], 8i32.to_be_bytes().to_vec(), b"123\0".to_vec()];
    let props = vec![("user".to_owned(), "name".to_owned())];

    match greet_client(test_data(&password), props.clone(), &mut supervisor, 9) {
        Ok(Ok(ClientRequest::Connect { conn_id, props: got, channel })) => {
            assert_eq!(conn_id, 1);
            assert_eq!(got, props);
            assert_eq!(channel.read_result(), greeting("12.4", 1, 9));
        }
        _ => panic!("client is connected"),
    }
    assert!(supervisor.verify(1, 9));

    // no id is left
    assert!(matches!(
        greet_client(test_data(&password), props.clone(), &mut supervisor, 9),
        Ok(Err(()))
    ));
    // the password does not arrive
    supervisor.free(1);
    assert!(matches!(
        greet_client(test_data(&[]), props, &mut supervisor, 9),
        Err(ChannelError::UnexpectedEof)
    ));
    assert!(!supervisor.verify(1, 9));
}

#[test]
fn a_client_is_taken_as_it_is_where_it_asks_for_no_encryption() {
    let mut supervisor = ConnSupervisor::new(1, 2);
    let config = ProtocolConfiguration::with_ssl(Unsecured);

    let request =
        accept_client_request(test_data(&with_password(plain_startup())), &config, &mut supervisor, 77);

    match request {
        Ok(Ok(ClientRequest::Connect { conn_id, channel, .. })) => {
            assert_eq!(conn_id, 1);
            assert_eq!(channel.read_result(), greeting("12.4", 1, 77));
        }
        _ => panic!("client is connected"),
    }
}

#[test]
fn a_request_for_encryption_is_accepted_with_an_identity() {
    let mut supervisor = ConnSupervisor::new(1, 2);
    let config = ProtocolConfiguration::with_ssl(Unsecured);

    let request = accept_client_request(
        test_data(&with_password(startup_with_ssl_request())),
        &config,
        &mut supervisor,
        77,
    );

    match request {
        Ok(Ok(ClientRequest::Connect { channel, .. })) => {
            let mut expected = vec![ACCEPT_SSL];
            expected.extend(greeting("12.4", 1, 77));
            assert_eq!(channel.read_result(), expected);
        }
        _ => panic!("client is connected"),
    }
}
