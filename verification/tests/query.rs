use relational_db::channel::{ChannelError, TestData};
use relational_db::protocol::{Command, Connection, Field, Message, Params, SslMode};

fn connection(content: Vec<&[u8]>) -> Connection<TestData> {
    Connection::new((196608, Params(vec![]), SslMode::Disable), TestData::new(content))
}

#[test]
fn read_termination_command() {
    let mut connection = connection(vec![&[88], &[0, 0, 0, 4]]);
    let query = connection.read_query().expect("no io errors");
    assert_eq!(query, Ok(Command::Terminate));
}

#[test]
fn read_query_successfully() {
    let mut connection = connection(vec![&[81], &[0, 0, 0, 14], b"select 1;\0"]);
    let query = connection.read_query().expect("no io errors");
    assert_eq!(query, Ok(Command::Query("select 1;".to_owned())));
}

#[test]
fn unexpected_eof_when_read_type_code_of_query_request() {
    let mut connection = connection(vec![]);
    let query = connection.read_query();
    assert!(query.is_err());
}

#[test]
fn unexpected_eof_when_read_length_of_query() {
    let mut connection = connection(vec![&[81]]);
    let query = connection.read_query();
    assert!(query.is_err());
}

#[test]
fn unexpected_eof_when_query_string() {
    let mut connection = connection(vec![&[81], &[0, 0, 0, 14], b"sel;\0"]);
    let query = connection.read_query();
    assert!(query.is_err());
}

#[test]
fn a_query_that_is_no_text_ends_the_connection() {
    let mut connection = connection(vec![&[81], &[0, 0, 0, 6], &[255, 0]]);
    assert_eq!(connection.read_query(), Err(ChannelError::InvalidInput));
    assert_eq!(connection.read_query(), Err(ChannelError::UnexpectedEof));
}

#[test]
fn a_length_that_cannot_be_is_an_error() {
    let mut connection = connection(vec![&[81], &[0, 0, 0, 3]]);
    assert!(connection.read_query().is_err());
}

#[test]
fn a_query_without_its_end_byte_ends_the_connection() {
    let mut connection = connection(vec![&[81], &[0, 0, 0, 4]]);
    assert_eq!(connection.read_query(), Err(ChannelError::InvalidInput));
}

#[test]
fn connection_keeps_its_properties() {
    let connection = Connection::new(
        (196608, Params(vec![("user".to_owned(), "me".to_owned())]), SslMode::Require),
        TestData::new(vec![]),
    );
    let (version, params, ssl) = connection.properties();
    assert_eq!(*version, 196608);
    assert_eq!(params.0, vec![("user".to_owned(), "me".to_owned())]);
    assert_eq!(*ssl, SslMode::Require);
}

#[test]
fn field_holds_what_it_was_made_of() {
    let field = Field::new("c1".to_owned(), 23, 4);
    assert_eq!(field.name, "c1");
    assert_eq!(field.type_id, 23);
    assert_eq!(field.type_size, 4);
}

#[test]
fn send_ready_for_query() {
    let mut connection = connection(vec![]);
    let ready_for_query = connection.send_ready_for_query().expect("no io errors");
    assert_eq!(ready_for_query, Ok(()));
    assert_eq!(connection.into_channel().read_result(), vec![b'Z', 0, 0, 0, 5, b'I']);
}

#[test]
fn send_field_description_query() {
    let mut connection = connection(vec![]);
    let fields = vec![Field::new("c1".to_owned(), 23, 4), Field::new("c2".to_owned(), 23, 4)];
    connection.send_row_description(fields.clone()).expect("no io errors");
    let actual_content = connection.into_channel().read_result();
    let expected_content = Message::RowDescription(
        fields.into_iter().map(|f| (f.name, f.type_id, f.type_size)).collect(),
    )
    .as_vec();
    assert_eq!(actual_content, expected_content);
}

#[test]
fn send_rows_data() {
    let mut connection = connection(vec![]);
    let rows = vec![
        vec!["1".to_owned(), "2".to_owned()],
        vec!["3".to_owned(), "4".to_owned()],
        vec!["5".to_owned(), "6".to_owned()],
    ];
    for row in rows.iter() {
        connection.send_row_data(row.clone()).expect("no io errors");
    }
    let actual_content = connection.into_channel().read_result();
    let mut expected_content = Vec::new();
    for row in rows {
        expected_content.extend_from_slice(Message::DataRow(row).as_vec().as_slice());
    }
    assert_eq!(actual_content, expected_content);
}

#[test]
fn send_command_complete() {
    let mut connection = connection(vec![]);
    connection
        .send_command_complete(Message::CommandComplete("SELECT".to_owned()))
        .expect("no io errors");
    let actual_content = connection.into_channel().read_result();
    assert_eq!(actual_content, Message::CommandComplete("SELECT".to_owned()).as_vec());
}

#[test]
fn messages_are_laid_out_as_tag_length_and_body() {
    assert_eq!(Message::ReadyForQuery.as_vec(), vec![b'Z', 0, 0, 0, 5, b'I']);
    assert_eq!(
        Message::CommandComplete("SELECT".to_owned()).as_vec(),
        vec![b'C', 0, 0, 0, 11, b'S', b'E', b'L', b'E', b'C', b'T', 0]
    );
    assert_eq!(
        Message::DataRow(vec!["1".to_owned(), "23".to_owned()]).as_vec(),
        vec![b'D', 0, 0, 0, 17, 0, 2, 0, 0, 0, 1, b'1', 0, 0, 0, 2, b'2', b'3']
    );
    assert_eq!(Message::DataRow(vec![]).as_vec(), vec![b'D', 0, 0, 0, 6, 0, 0]);
    assert_eq!(
        Message::RowDescription(vec![("c1".to_owned(), 23, -1)]).as_vec(),
        vec![
            b'T', 0, 0, 0, 27, 0, 1, b'c', b'1', 0, 0, 0, 0, 0, 0, 0, 0, 0, 0, 23, 255, 255, 255,
            255, 255, 255, 0, 0
        ]
    );
    assert_eq!(
        Message::ErrorResponse(Some("ERROR".to_owned()), Some("3F000".to_owned()), None).as_vec(),
        vec![
            b'E', 0, 0, 0, 19, b'S', b'E', b'R', b'R', b'O', b'R', 0, b'C', b'3', b'F', b'0', b'0',
            b'0', 0, 0
        ]
    );
    assert_eq!(Message::ErrorResponse(None, None, None).as_vec(), vec![b'E', 0, 0, 0, 5, 0]);
}
