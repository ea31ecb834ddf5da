use postgres_to_polars::backend::next_message;
use postgres_to_polars::backend::BackendMessage;
use postgres_to_polars::backend::DataRow;
use postgres_to_polars::backend::ErrorBody;
use postgres_to_polars::client::portal_name;
use postgres_to_polars::client::Client;
use postgres_to_polars::client::Step;
use postgres_to_polars::column_result::ColumnStorage;
use postgres_to_polars::column_result::FieldDescription;
use postgres_to_polars::utils::md5_hash;
use postgres_to_polars::utils::statement_name;
use postgres_to_polars::BinaryParam;
use postgres_to_polars::ClientOptions;
use postgres_to_polars::PgToPlError;

fn options(prepare: bool) -> ClientOptions {
    ClientOptions::new(
        String::from("POSTGRES_USER"),
        String::from("pgpassword"),
        String::from("pg-database"),
        String::from("127.0.0.1"),
        5432,
        prepare,
    )
}

fn message(tag: u8, body: &[u8]) -> Vec<u8> {
    let mut out = vec![tag];
    out.extend_from_slice(&((body.len() + 4) as i32).to_be_bytes());
    out.extend_from_slice(body);
    out
}

fn cstr(text: &str) -> Vec<u8> {
    let mut out = text.as_bytes().to_vec();
    out.push(0);
    out
}

fn ready() -> Vec<u8> {
    message(b'Z', b"I")
}

fn parse_complete() -> Vec<u8> {
    message(b'1', &[])
}

fn bind_complete() -> Vec<u8> {
    message(b'2', &[])
}

fn close_complete() -> Vec<u8> {
    message(b'3', &[])
}

fn no_data() -> Vec<u8> {
    message(b'n', &[])
}

fn command_complete(tag: &str) -> Vec<u8> {
    message(b'C', &cstr(tag))
}

fn parameter_description(oids: &[u32]) -> Vec<u8> {
    let mut body = (oids.len() as u16).to_be_bytes().to_vec();
    for oid in oids {
        body.extend_from_slice(&oid.to_be_bytes());
    }
    message(b't', &body)
}

fn row_description(fields: &[(&str, u32)]) -> Vec<u8> {
    let mut body = (fields.len() as u16).to_be_bytes().to_vec();
    for (name, oid) in fields {
        body.extend_from_slice(&cstr(name));
        body.extend_from_slice(&0u32.to_be_bytes());
        body.extend_from_slice(&0i16.to_be_bytes());
        body.extend_from_slice(&oid.to_be_bytes());
        body.extend_from_slice(&(-1i16).to_be_bytes());
        body.extend_from_slice(&(-1i32).to_be_bytes());
        body.extend_from_slice(&1i16.to_be_bytes());
    }
    message(b'T', &body)
}

fn data_row(values: &[Option<&[u8]>]) -> Vec<u8> {
    let mut body = (values.len() as u16).to_be_bytes().to_vec();
    for value in values {
        match value {
            Some(bytes) => {
                body.extend_from_slice(&(bytes.len() as i32).to_be_bytes());
                body.extend_from_slice(bytes);
            }
            None => body.extend_from_slice(&(-1i32).to_be_bytes()),
        }
    }
    message(b'D', &body)
}

fn error_response(fields: &[(u8, &str)]) -> Vec<u8> {
    let mut body = Vec::new();
    for (kind, value) in fields {
        body.push(*kind);
        body.extend_from_slice(&cstr(value));
    }
    body.push(0);
    message(b'E', &body)
}

fn authentication(code: i32, rest: &[u8]) -> Vec<u8> {
    let mut body = code.to_be_bytes().to_vec();
    body.extend_from_slice(rest);
    message(b'R', &body)
}

fn concat(parts: &[Vec<u8>]) -> Vec<u8> {
    parts.iter().flatten().copied().collect()
}

fn parse_bytes(name: &str, sql: &str, oids: &[u32]) -> Vec<u8> {
    let mut body = cstr(name);
    body.extend_from_slice(&cstr(sql));
    body.extend_from_slice(&(oids.len() as u16).to_be_bytes());
    for oid in oids {
        body.extend_from_slice(&oid.to_be_bytes());
    }
    message(b'P', &body)
}

fn describe_bytes(name: &str) -> Vec<u8> {
    let mut body = vec![b'S'];
    body.extend_from_slice(&cstr(name));
    message(b'D', &body)
}

fn bind_bytes(portal: &str, name: &str, values: &[Option<&[u8]>]) -> Vec<u8> {
    let mut body = cstr(portal);
    body.extend_from_slice(&cstr(name));
    body.extend_from_slice(&(values.len() as u16).to_be_bytes());
    for _ in values {
        body.extend_from_slice(&1i16.to_be_bytes());
    }
    body.extend_from_slice(&(values.len() as u16).to_be_bytes());
    for value in values {
        match value {
            Some(bytes) => {
                body.extend_from_slice(&(bytes.len() as i32).to_be_bytes());
                body.extend_from_slice(bytes);
            }
            None => body.extend_from_slice(&(-1i32).to_be_bytes()),
        }
    }
    body.extend_from_slice(&1u16.to_be_bytes());
    body.extend_from_slice(&1i16.to_be_bytes());
    message(b'B', &body)
}

fn tail_bytes(portal: &str) -> Vec<u8> {
    let mut execute = cstr(portal);
    execute.extend_from_slice(&0i32.to_be_bytes());
    let mut close = vec![b'P'];
    close.extend_from_slice(&cstr(portal));
    concat(&[message(b'E', &execute), message(b'C', &close), message(b'S', &[])])
}

fn connected(prepare: bool) -> Client {
    let mut client = Client::new(options(prepare));
    client.connect().unwrap();
    let step = client.connect_feed(&concat(&[authentication(0, &[]), ready()]));
    assert!(matches!(step, Step::Done(Ok(()))));
    client
}

fn users_reply(first: bool, rows: &[(i32, &str)]) -> Vec<u8> {
    let mut parts = Vec::new();
    if first {
        parts.push(parse_complete());
        parts.push(parameter_description(&[23]));
        parts.push(row_description(&[("id", 23), ("name", 25)]));
    }
    parts.push(bind_complete());
    for (id, name) in rows {
        let id = id.to_be_bytes();
        parts.push(data_row(&[Some(&id), Some(name.as_bytes())]));
    }
    parts.push(command_complete("SELECT"));
    parts.push(close_complete());
    parts.push(ready());
    concat(&parts)
}

fn failure_reply() -> Vec<u8> {
    concat(&[
        error_response(&[(b'S', "ERROR"), (b'C', "42P01"), (b'M', "relation does not exist")]),
        ready(),
    ])
}

fn finished(step: Step<Vec<ColumnStorage>>) -> Vec<ColumnStorage> {
    match step {
        Step::Done(Ok(columns)) => columns,
        Step::Done(Err(e)) => panic!("Query failed: {:?}", e),
        Step::More(_) => panic!("the query did not end"),
    }
}

fn ints(column: &ColumnStorage) -> Vec<Option<i32>> {
    match column {
        ColumnStorage::Ints(c) => c.data.clone(),
        _ => panic!("an int4 column was expected"),
    }
}

fn texts(column: &ColumnStorage) -> Vec<Option<String>> {
    match column {
        ColumnStorage::Texts(c) => c.data.clone(),
        _ => panic!("a text column was expected"),
    }
}

#[test]
fn new_client_is_not_healthy() {
    let client = Client::new(options(true));
    assert!(client.has_broken());
    assert_eq!(client.options().user, "POSTGRES_USER");
    assert_eq!(client.options().password, "pgpassword");
    assert_eq!(client.options().database, "pg-database");
    assert_eq!(client.options().host, "127.0.0.1");
    assert_eq!(client.options().port, 5432);
    assert!(client.options().prepare);
}

#[test]
fn connect_writes_the_startup_message() {
    let mut client = Client::new(options(true));
    let out = client.connect().unwrap();
    let mut body = 196608i32.to_be_bytes().to_vec();
    body.extend_from_slice(&cstr("user"));
    body.extend_from_slice(&cstr("POSTGRES_USER"));
    body.extend_from_slice(&cstr("database"));
    body.extend_from_slice(&cstr("pg-database"));
    body.push(0);
    let mut expected = ((body.len() + 4) as i32).to_be_bytes().to_vec();
    expected.extend_from_slice(&body);
    assert_eq!(out, expected);
    assert!(client.has_broken());
}

#[test]
fn connect_refuses_a_user_with_a_zero_byte() {
    let mut client = Client::new(ClientOptions::new(
        String::from("a\0b"),
        String::new(),
        String::from("db"),
        String::from("h"),
        1,
        true,
    ));
    assert!(matches!(client.connect(), Err(PgToPlError::Io(_))));
    assert!(client.has_broken());
}

#[test]
fn connect_becomes_healthy_on_ready_for_query() {
    let mut client = Client::new(options(true));
    client.connect().unwrap();
    let step = client.connect_feed(&authentication(0, &[]));
    assert!(matches!(step, Step::More(ref out) if out.is_empty()));
    assert!(client.has_broken());
    let step = client.connect_feed(&concat(&[
        message(b'S', &concat(&[cstr("server_version"), cstr("16.0")])),
        message(b'K', &[0, 0, 0, 1, 0, 0, 0, 2]),
    ]));
    assert!(matches!(step, Step::More(ref out) if out.is_empty()));
    let step = client.connect_feed(&ready());
    assert!(matches!(step, Step::Done(Ok(()))));
    assert!(!client.has_broken());
}

#[test]
fn connect_answers_an_md5_request() {
    let mut client = Client::new(options(true));
    client.connect().unwrap();
    let step = client.connect_feed(&authentication(5, &[9, 8, 7, 6]));
    let hash = md5_hash("POSTGRES_USER", "pgpassword", &[9, 8, 7, 6]);
    match step {
        Step::More(out) => assert_eq!(out, message(b'p', &cstr(&hash))),
        Step::Done(_) => panic!("the handshake ended early"),
    }
    let step = client.connect_feed(&concat(&[authentication(0, &[]), ready()]));
    assert!(matches!(step, Step::Done(Ok(()))));
    assert!(!client.has_broken());
}

#[test]
fn connect_answers_a_cleartext_request() {
    let mut client = Client::new(options(true));
    client.connect().unwrap();
    match client.connect_feed(&authentication(3, &[])) {
        Step::More(out) => assert_eq!(out, message(b'p', &cstr("pgpassword"))),
        Step::Done(_) => panic!("the handshake ended early"),
    }
}

#[test]
fn connect_refuses_sasl() {
    let mut client = Client::new(options(true));
    client.connect().unwrap();
    let step = client.connect_feed(&authentication(10, b"SCRAM-SHA-256\0\0"));
    assert!(matches!(
        step,
        Step::Done(Err(PgToPlError::QueryError(ref text)))
            if text == "SASL authentication is not supported"
    ));
    assert!(client.has_broken());
}

#[test]
fn connect_surfaces_a_server_error() {
    let mut client = Client::new(options(true));
    client.connect().unwrap();
    let step = client
        .connect_feed(&error_response(&[(b'S', "FATAL"), (b'M', "password authentication failed")]));
    match step {
        Step::Done(Err(PgToPlError::QueryError(text))) => {
            assert_eq!(text, "FATAL\npassword authentication failed")
        }
        _ => panic!("an error was expected"),
    }
    assert!(client.has_broken());
}

#[test]
fn connect_reports_a_closed_connection() {
    let mut client = Client::new(options(true));
    client.connect().unwrap();
    assert!(matches!(client.connect_feed(&[]), Step::Done(Err(PgToPlError::ConnectionClosed))));
    assert!(client.has_broken());
}

#[test]
fn test_simple_query() {
    let mut client = connected(true);
    let sql = "SELECT * FROM users LIMIT 10";
    let out = client.query(sql, vec![]).unwrap();
    let name = statement_name(sql);
    assert_eq!(
        out,
        concat(&[
            parse_bytes(&name, sql, &[]),
            describe_bytes(&name),
            bind_bytes("portal_1", &name, &[]),
            tail_bytes("portal_1"),
        ])
    );
    let reply = concat(&[
        parse_complete(),
        parameter_description(&[]),
        row_description(&[("id", 23), ("name", 25)]),
        bind_complete(),
        data_row(&[Some(&1i32.to_be_bytes()), Some(b"a")]),
        data_row(&[Some(&2i32.to_be_bytes()), None]),
        command_complete("SELECT 2"),
        close_complete(),
        ready(),
    ]);
    let columns = finished(client.query_feed(&reply));
    assert_eq!(columns.len(), 2);
    assert!(columns[0].len() <= 10, "Should have at most 10 rows");
    assert_eq!(ints(&columns[0]), vec![Some(1), Some(2)]);
    assert_eq!(texts(&columns[1]), vec![Some("a".to_string()), None]);
    assert!(!client.has_broken());
}

#[test]
fn test_query_with_params() {
    let mut client = connected(true);
    let sql = "SELECT * FROM users WHERE id = $1;";
    let user_id = 1i32;
    let out = client.query(sql, vec![Some(BinaryParam::Int4(user_id))]).unwrap();
    let name = statement_name(sql);
    assert_eq!(
        out,
        concat(&[
            parse_bytes(&name, sql, &[23]),
            describe_bytes(&name),
            bind_bytes("portal_1", &name, &[Some(&[0, 0, 0, 1])]),
            tail_bytes("portal_1"),
        ])
    );
    let columns = finished(client.query_feed(&users_reply(true, &[(1, "alice")])));
    assert!(columns[0].len() <= 1, "Should have at most 1 row");
    assert_eq!(ints(&columns[0]), vec![Some(1)]);
}

#[test]
fn test_prepared_statement_cache() {
    let mut client = connected(true);
    let query = "SELECT * FROM users WHERE id = $1";
    let name = statement_name(query);
    let first = client.query(query, vec![Some(BinaryParam::Int4(1))]).unwrap();
    assert_eq!(first[0], b'P');
    let result1 = client.query_feed(&users_reply(true, &[(1, "alice")]));
    assert!(matches!(result1, Step::Done(Ok(_))), "First query should succeed");

    let second = client.query(query, vec![Some(BinaryParam::Int4(2))]).unwrap();
    assert_eq!(
        second,
        concat(&[bind_bytes("portal_2", &name, &[Some(&[0, 0, 0, 2])]), tail_bytes("portal_2")])
    );
    let result2 = client.query_feed(&users_reply(false, &[(2, "bob")]));
    let columns = finished(result2);
    assert_eq!(columns.len(), 2);
    assert_eq!(columns[0].name(), "id");
    assert_eq!(columns[1].name(), "name");
    assert_eq!(ints(&columns[0]), vec![Some(2)]);
    assert_eq!(texts(&columns[1]), vec![Some("bob".to_string())]);
}

#[test]
fn test_error_handling() {
    let mut client = connected(true);
    client.query("SELECT * FROM table_qui_nexiste_pas", vec![]).unwrap();
    match client.query_feed(&failure_reply()) {
        Step::Done(Ok(_)) => panic!("Query should have failed"),
        Step::Done(Err(PgToPlError::QueryError(text))) => {
            assert_eq!(text, "ERROR\n42P01\nrelation does not exist");
            assert!(client.has_broken(), "Client should be marked unhealthy");
        }
        _ => panic!("a query error was expected"),
    }
}

#[test]
fn test_error_handling_retry() {
    let mut client = connected(true);
    client.query("SELECT * FROM table_qui_nexiste_pas", vec![]).unwrap();
    let result = client.query_feed(&failure_reply());
    assert!(matches!(result, Step::Done(Err(_))));

    client.query("SELECT * FROM users limit 10;", vec![]).unwrap();
    let result = client.query_feed(&users_reply(true, &[(1, "a")]));
    assert!(matches!(result, Step::Done(Ok(_))));
    assert!(!client.has_broken());
}

#[test]
fn test_error_handling_retry_loop() {
    let mut client = connected(true);
    for i in 0..100 {
        client.query("SELECT * FROM table_qui_nexiste_pas", vec![]).unwrap();
        let result = client.query_feed(&failure_reply());
        assert!(matches!(result, Step::Done(Err(_))));
        assert!(client.has_broken());

        client.query("SELECT * FROM users limit 10;", vec![]).unwrap();
        let result = client.query_feed(&users_reply(i == 0, &[(1, "a")]));
        assert!(matches!(result, Step::Done(Ok(_))));
        assert!(!client.has_broken());
    }
}

#[test]
fn query_returns_the_matching_row() {
    let mut client = connected(true);
    client
        .query("SELECT id, name FROM users WHERE id = $1", vec![Some(BinaryParam::Int4(24))])
        .unwrap();
    let columns = finished(client.query_feed(&users_reply(true, &[(24, "alice")])));
    assert_eq!(columns.len(), 2);
    assert_eq!(columns[0].name(), "id");
    assert_eq!(columns[1].name(), "name");
    assert_eq!(ints(&columns[0]), vec![Some(24)]);
    assert_eq!(texts(&columns[1]), vec![Some("alice".to_string())]);
}

#[test]
fn query_without_rows_returns_empty_columns() {
    let mut client = connected(true);
    client
        .query("SELECT id FROM users WHERE id = $1", vec![Some(BinaryParam::Int4(999_999))])
        .unwrap();
    let reply = concat(&[
        parse_complete(),
        parameter_description(&[23]),
        row_description(&[("id", 23)]),
        bind_complete(),
        command_complete("SELECT 0"),
        close_complete(),
        ready(),
    ]);
    let columns = finished(client.query_feed(&reply));
    assert_eq!(columns.len(), 1);
    assert_eq!(columns[0].len(), 0);
}

#[test]
fn every_column_has_one_cell_for_each_row() {
    let mut client = connected(true);
    client.query("SELECT id, name FROM users", vec![]).unwrap();
    let rows: Vec<(i32, &str)> = (0..250).map(|i| (i, "n")).collect();
    let reply = users_reply(true, &rows);
    let mut last = None;
    for chunk in reply.chunks(7) {
        match client.query_feed(chunk) {
            Step::More(out) => assert!(out.is_empty()),
            step => last = Some(step),
        }
    }
    let columns = finished(last.unwrap());
    assert_eq!(columns.len(), 2);
    for column in &columns {
        assert_eq!(column.len(), 250);
    }
    assert_eq!(ints(&columns[0])[249], Some(249));
}

#[test]
fn second_execution_does_not_parse_again() {
    let mut client = connected(true);
    let sql = "SELECT $1::int4";
    let first = client.query(sql, vec![Some(BinaryParam::Int4(7))]).unwrap();
    let reply = concat(&[
        parse_complete(),
        parameter_description(&[23]),
        row_description(&[("int4", 23)]),
        bind_complete(),
        data_row(&[Some(&7i32.to_be_bytes())]),
        command_complete("SELECT 1"),
        close_complete(),
        ready(),
    ]);
    finished(client.query_feed(&reply));
    let second = client.query(sql, vec![Some(BinaryParam::Int4(7))]).unwrap();
    assert_eq!(first[0], b'P');
    assert_eq!(second[0], b'B');
    assert!(second.len() < first.len());
    let name = statement_name(sql);
    assert_eq!(
        second,
        concat(&[bind_bytes("portal_2", &name, &[Some(&[0, 0, 0, 7])]), tail_bytes("portal_2")])
    );
    let reply = concat(&[
        bind_complete(),
        data_row(&[Some(&7i32.to_be_bytes())]),
        command_complete("SELECT 1"),
        close_complete(),
        ready(),
    ]);
    let columns = finished(client.query_feed(&reply));
    assert_eq!(ints(&columns[0]), vec![Some(7)]);
}

#[test]
fn other_parameter_types_are_a_mismatch() {
    let mut client = connected(true);
    let sql = "SELECT $1::int4";
    client.query(sql, vec![Some(BinaryParam::Int4(7))]).unwrap();
    let reply = concat(&[
        parse_complete(),
        parameter_description(&[23]),
        row_description(&[("int4", 23)]),
        bind_complete(),
        data_row(&[Some(&7i32.to_be_bytes())]),
        command_complete("SELECT 1"),
        close_complete(),
        ready(),
    ]);
    finished(client.query_feed(&reply));
    let second = client.query(sql, vec![Some(BinaryParam::Text("7".to_string()))]);
    assert!(matches!(second, Err(PgToPlError::ParamTypeMismatch)));
    assert!(!client.has_broken());
    let third = client.query(sql, vec![Some(BinaryParam::Int4(8))]).unwrap();
    assert_eq!(third[0], b'B');
    assert!(third.windows(9).any(|w| w == b"portal_3\0"));
}

#[test]
fn without_caching_every_query_parses_under_a_random_name() {
    let mut client = connected(false);
    let sql = "SELECT 1";
    let mut names = Vec::new();
    for _ in 0..3 {
        let out = client.query(sql, vec![]).unwrap();
        assert_eq!(out[0], b'P');
        let name: Vec<u8> = out[5..].iter().copied().take_while(|b| *b != 0).collect();
        assert_eq!(name.len(), 21);
        assert!(name.iter().all(|b| b.is_ascii_alphanumeric() || *b == b'_' || *b == b'-'));
        assert_eq!(&out[5 + 22..5 + 22 + sql.len()], sql.as_bytes());
        names.push(name);
        let reply = concat(&[
            parse_complete(),
            parameter_description(&[]),
            row_description(&[("?column?", 23)]),
            bind_complete(),
            data_row(&[Some(&1i32.to_be_bytes())]),
            command_complete("SELECT 1"),
            close_complete(),
            ready(),
        ]);
        finished(client.query_feed(&reply));
    }
    assert_ne!(names[0], names[1]);
    assert_ne!(names[1], names[2]);
}

#[test]
fn null_parameter_is_sent_as_minus_one() {
    let mut client = connected(true);
    let sql = "SELECT $1::text, $2::bool";
    let out = client.query(sql, vec![None, Some(BinaryParam::Bool(true))]).unwrap();
    let name = statement_name(sql);
    assert_eq!(
        out,
        concat(&[
            parse_bytes(&name, sql, &[0, 16]),
            describe_bytes(&name),
            bind_bytes("portal_1", &name, &[None, Some(&[1])]),
            tail_bytes("portal_1"),
        ])
    );
}

#[test]
fn bind_announces_every_parameter() {
    for count in [0usize, 1, 2, 17, 300] {
        let mut client = connected(true);
        let params: Vec<Option<BinaryParam>> =
            (0..count).map(|i| Some(BinaryParam::Int4(i as i32))).collect();
        let sql = "SELECT 1";
        let out = client.query(sql, params).unwrap();
        let name = statement_name(sql);
        let skip = parse_bytes(&name, sql, &vec![23; count]).len() + describe_bytes(&name).len();
        let bind = &out[skip..];
        assert_eq!(bind[0], b'B');
        let at = 5 + "portal_1".len() + 1 + name.len() + 1;
        assert_eq!(u16::from_be_bytes([bind[at], bind[at + 1]]) as usize, count);
        let values_at = at + 2 + 2 * count;
        assert_eq!(u16::from_be_bytes([bind[values_at], bind[values_at + 1]]) as usize, count);
        for i in 0..count {
            assert_eq!(&bind[at + 2 + 2 * i..at + 4 + 2 * i], &[0, 1]);
            let value = values_at + 2 + 8 * i;
            assert_eq!(&bind[value..value + 4], &[0, 0, 0, 4]);
            assert_eq!(&bind[value + 4..value + 8], &(i as i32).to_be_bytes());
        }
    }
}

#[test]
fn too_many_parameters_cannot_be_written() {
    let mut client = connected(true);
    client.query("SELECT 1", vec![]).unwrap();
    finished(client.query_feed(&concat(&[parse_complete(), no_data()])));
    let params: Vec<Option<BinaryParam>> = (0..65536).map(|_| None).collect();
    let r = client.query("SELECT 1", params);
    assert!(matches!(r, Err(PgToPlError::ParamTypeMismatch)));
    let params: Vec<Option<BinaryParam>> = (0..65536).map(|_| None).collect();
    let r = client.query("SELECT 2", params);
    assert!(matches!(r, Err(PgToPlError::Io(_))));
    assert!(client.has_broken());
}

#[test]
fn query_text_with_a_zero_byte_cannot_be_written() {
    let mut client = connected(true);
    let r = client.query("SELECT \0", vec![]);
    assert!(matches!(r, Err(PgToPlError::Io(_))));
    assert!(client.has_broken());
}

#[test]
fn statement_name_with_a_zero_byte_cannot_be_written() {
    let mut client = connected(true);
    let r = client.query_named("a\0b".to_string(), "SELECT 1", vec![]);
    assert!(matches!(r, Err(PgToPlError::Io(_))));
    assert!(client.has_broken());
}

#[test]
fn kept_statement_is_found_under_its_name() {
    let mut client = connected(true);
    client.query("SELECT 1", vec![]).unwrap();
    finished(client.query_feed(&concat(&[parse_complete(), no_data()])));
    let out = client.query_named(statement_name("SELECT 1"), "SELECT 1", vec![]).unwrap();
    assert_eq!(out[0], b'B');
    let out = client.query_named("other".to_string(), "SELECT 1", vec![]).unwrap();
    assert_eq!(out[0], b'P');
}

#[test]
fn no_data_ends_the_query_without_columns() {
    let mut client = connected(true);
    client.query("CREATE TABLE t (id int4)", vec![]).unwrap();
    let step = client.query_feed(&concat(&[parse_complete(), parameter_description(&[]), no_data()]));
    let columns = finished(step);
    assert!(columns.is_empty());
    assert!(!client.has_broken());
}

#[test]
fn only_the_first_error_is_kept() {
    let mut client = connected(true);
    client.query("SELECT 1", vec![]).unwrap();
    let step = client.query_feed(&error_response(&[(b'M', "first")]));
    assert!(matches!(step, Step::More(_)));
    let step = client.query_feed(&error_response(&[(b'M', "second")]));
    assert!(matches!(step, Step::More(_)));
    match client.query_feed(&ready()) {
        Step::Done(Err(PgToPlError::QueryError(text))) => assert_eq!(text, "first"),
        _ => panic!("a query error was expected"),
    }
    assert!(client.has_broken());
}

#[test]
fn failed_query_does_not_keep_its_statement() {
    let mut client = connected(true);
    let sql = "SELECT * FROM nonexistent";
    client.query(sql, vec![]).unwrap();
    assert!(matches!(client.query_feed(&failure_reply()), Step::Done(Err(_))));
    let again = client.query(sql, vec![]).unwrap();
    assert_eq!(again[0], b'P');
}

#[test]
fn short_row_drops_the_kept_statement() {
    let mut client = connected(true);
    let sql = "SELECT id, name FROM users";
    client.query(sql, vec![]).unwrap();
    finished(client.query_feed(&users_reply(true, &[(1, "a")])));
    let second = client.query(sql, vec![]).unwrap();
    assert_eq!(second[0], b'B');
    let reply = concat(&[bind_complete(), data_row(&[Some(&1i32.to_be_bytes())])]);
    let step = client.query_feed(&reply);
    assert!(matches!(step, Step::Done(Err(PgToPlError::TooFewField(1, 2)))));
    assert!(client.has_broken());
    let third = client.query(sql, vec![]).unwrap();
    assert_eq!(third[0], b'P');
}

#[test]
fn long_row_drops_the_kept_statement() {
    let mut client = connected(true);
    let sql = "SELECT id, name FROM users";
    client.query(sql, vec![]).unwrap();
    finished(client.query_feed(&users_reply(true, &[(1, "a")])));
    client.query(sql, vec![]).unwrap();
    let reply = concat(&[
        bind_complete(),
        data_row(&[Some(&1i32.to_be_bytes()), Some(b"a"), Some(b"extra"), Some(b"more")]),
    ]);
    let step = client.query_feed(&reply);
    assert!(matches!(step, Step::Done(Err(PgToPlError::TooManyField(2)))));
    assert!(client.has_broken());
    let third = client.query(sql, vec![]).unwrap();
    assert_eq!(third[0], b'P');
}

#[test]
fn closed_connection_breaks_the_session() {
    let mut client = connected(true);
    client.query("SELECT 1", vec![]).unwrap();
    assert!(matches!(client.query_feed(&[]), Step::Done(Err(PgToPlError::ConnectionClosed))));
    assert!(client.has_broken());
}

#[test]
fn malformed_message_breaks_the_session() {
    let mut client = connected(true);
    client.query("SELECT 1", vec![]).unwrap();
    let step = client.query_feed(&[b'Z', 0, 0, 0, 3, b'I']);
    assert!(matches!(step, Step::Done(Err(PgToPlError::Io(_)))));
    assert!(client.has_broken());
    let mut client = connected(true);
    client.query("SELECT 1", vec![]).unwrap();
    let step = client.query_feed(&message(b'?', &[]));
    assert!(matches!(step, Step::Done(Err(PgToPlError::Io(_)))));
    assert!(client.has_broken());
}

#[test]
fn text_that_is_not_utf8_is_a_null_cell() {
    let mut client = connected(true);
    client.query("SELECT name FROM users", vec![]).unwrap();
    let reply = concat(&[
        parse_complete(),
        row_description(&[("name", 25)]),
        bind_complete(),
        data_row(&[Some(&[0xff])]),
        data_row(&[Some(b"ok")]),
        command_complete("SELECT 2"),
        close_complete(),
        ready(),
    ]);
    let columns = finished(client.query_feed(&reply));
    assert_eq!(texts(&columns[0]), vec![None, Some("ok".to_string())]);
    assert!(!client.has_broken());
}

#[test]
fn malformed_array_breaks_the_session() {
    let mut client = connected(true);
    client.query("SELECT tags FROM users", vec![]).unwrap();
    let reply = concat(&[
        parse_complete(),
        row_description(&[("tags", 1009)]),
        bind_complete(),
        data_row(&[Some(&[0, 0, 0, 1, 0, 0])]),
    ]);
    assert!(matches!(client.query_feed(&reply), Step::Done(Err(PgToPlError::NotEnoughBytes))));
    assert!(client.has_broken());
    let mut client = connected(true);
    client.query("SELECT tags FROM users", vec![]).unwrap();
    let reply = concat(&[
        parse_complete(),
        row_description(&[("tags", 1009)]),
        bind_complete(),
        data_row(&[Some(&2i32.to_be_bytes())]),
    ]);
    assert!(matches!(
        client.query_feed(&reply),
        Step::Done(Err(PgToPlError::OnlyOneDimensionArraySupported))
    ));
    assert!(client.has_broken());
}

#[test]
fn io_failure_breaks_the_session() {
    let mut client = connected(true);
    client.query("SELECT 1", vec![]).unwrap();
    let e = client.io_failed(std::io::Error::new(std::io::ErrorKind::BrokenPipe, "gone"));
    assert!(matches!(e, PgToPlError::Io(ref io) if io.kind() == std::io::ErrorKind::BrokenPipe));
    assert!(client.has_broken());
}

#[test]
fn message_split_over_reads_is_put_together() {
    let mut client = connected(true);
    client.query("SELECT id, name FROM users", vec![]).unwrap();
    let reply = users_reply(true, &[(24, "alice")]);
    for byte in &reply[..reply.len() - 1] {
        assert!(matches!(client.query_feed(&[*byte]), Step::More(_)));
    }
    let columns = finished(client.query_feed(&reply[reply.len() - 1..]));
    assert_eq!(ints(&columns[0]), vec![Some(24)]);
    assert_eq!(texts(&columns[1]), vec![Some("alice".to_string())]);
}

#[test]
fn on_query_message_takes_plain_messages() {
    let mut client = connected(true);
    client.query("SELECT id FROM users", vec![]).unwrap();
    let described = client.on_query_message(BackendMessage::RowDescription(vec![
        FieldDescription { name: "id".to_string(), type_oid: 23, format: 1 },
    ]));
    assert!(matches!(described, Step::More(ref out) if out.is_empty()));
    let row = DataRow { cells: vec![Some(vec![0, 0, 0, 5])], more: false };
    assert!(matches!(client.on_query_message(BackendMessage::DataRow(row)), Step::More(_)));
    assert!(matches!(client.on_query_message(BackendMessage::Other), Step::More(_)));
    let columns = finished(client.on_query_message(BackendMessage::ReadyForQuery));
    assert_eq!(ints(&columns[0]), vec![Some(5)]);
    let mut client = connected(true);
    client.query("SELECT id FROM users", vec![]).unwrap();
    client.on_query_message(BackendMessage::RowDescription(vec![FieldDescription {
        name: "id".to_string(),
        type_oid: 23,
        format: 1,
    }]));
    let row = DataRow { cells: vec![Some(vec![0, 0, 0, 5])], more: true };
    assert!(matches!(
        client.on_query_message(BackendMessage::DataRow(row)),
        Step::Done(Err(PgToPlError::TooManyField(1)))
    ));
    let mut client = connected(true);
    client.query("SELECT 1", vec![]).unwrap();
    let err = ErrorBody { values: vec![b"boom".to_vec()], failure: None };
    assert!(matches!(client.on_query_message(BackendMessage::ErrorResponse(err)), Step::More(_)));
    assert!(matches!(
        client.on_query_message(BackendMessage::ReadyForQuery),
        Step::Done(Err(PgToPlError::QueryError(ref text))) if text == "boom"
    ));
}

#[test]
fn ping_writes_a_simple_query() {
    let mut client = connected(true);
    let out = client.ping().unwrap();
    assert_eq!(out, message(b'Q', &cstr("/* ping */ SELECT 1")));
    let reply = concat(&[
        row_description(&[("?column?", 23)]),
        data_row(&[Some(b"1")]),
        command_complete("SELECT 1"),
    ]);
    assert!(matches!(client.ping_feed(&reply), Step::More(ref out) if out.is_empty()));
    assert!(matches!(client.ping_feed(&ready()), Step::Done(Ok(()))));
    assert!(!client.has_broken());
}

#[test]
fn ping_fails_on_a_server_error() {
    let mut client = connected(true);
    client.ping().unwrap();
    match client.ping_feed(&concat(&[error_response(&[(b'M', "shutting down")]), ready()])) {
        Step::Done(Err(PgToPlError::PingFailed(text))) => assert_eq!(text, "shutting down"),
        _ => panic!("a failed ping was expected"),
    }
    assert!(client.has_broken());
}

#[test]
fn ping_reports_a_closed_connection() {
    let mut client = connected(true);
    client.ping().unwrap();
    assert!(matches!(client.ping_feed(&[]), Step::Done(Err(PgToPlError::ConnectionClosed))));
    assert!(client.has_broken());
}

#[test]
fn ping_makes_a_broken_session_healthy_again() {
    let mut client = connected(true);
    client.query("SELECT * FROM nonexistent", vec![]).unwrap();
    assert!(matches!(client.query_feed(&failure_reply()), Step::Done(Err(_))));
    assert!(client.has_broken());
    client.ping().unwrap();
    assert!(matches!(client.ping_feed(&ready()), Step::Done(Ok(()))));
    assert!(!client.has_broken());
}

#[test]
fn replace_gives_a_fresh_session() {
    let mut client = connected(true);
    let sql = "SELECT id, name FROM users";
    client.query(sql, vec![]).unwrap();
    finished(client.query_feed(&users_reply(true, &[(1, "a")])));
    let mut fresh = client.replace();
    assert!(fresh.has_broken());
    assert_eq!(fresh.options().database, "pg-database");
    assert_eq!(fresh.options().host, "127.0.0.1");
    assert_eq!(fresh.options().port, 5432);
    fresh.connect().unwrap();
    assert!(matches!(fresh.connect_feed(&ready()), Step::Done(Ok(()))));
    let out = fresh.query(sql, vec![]).unwrap();
    assert_eq!(out[0], b'P');
    assert!(out.windows(9).any(|w| w == b"portal_1\0"));
}

#[test]
fn portal_names_count_up() {
    assert_eq!(portal_name(1), "portal_1");
    assert_eq!(portal_name(0), "portal_0");
    assert_eq!(portal_name(u64::MAX), "portal_18446744073709551615");
    let mut client = connected(true);
    for i in 1..=12u64 {
        let out = client.query("SELECT 1", vec![]).unwrap();
        let expected = format!("portal_{}\0", i);
        assert!(out.windows(expected.len()).any(|w| w == expected.as_bytes()));
        finished(client.query_feed(&concat(&[parse_complete(), no_data()])));
    }
}

#[test]
fn next_message_waits_for_a_whole_message() {
    let mut buf = Vec::<u8>::new();
    assert!(matches!(next_message(&mut buf, 0), Ok(None)));
    let whole = concat(&[ready(), no_data()]);
    buf.extend_from_slice(&whole[..4]);
    assert!(matches!(next_message(&mut buf, 0), Ok(None)));
    assert_eq!(&buf[..], &whole[..4]);
    buf.extend_from_slice(&whole[4..5]);
    assert!(matches!(next_message(&mut buf, 0), Ok(None)));
    buf.extend_from_slice(&whole[5..]);
    assert!(matches!(next_message(&mut buf, 0), Ok(Some(BackendMessage::ReadyForQuery))));
    assert_eq!(&buf[..], &no_data()[..]);
    assert!(matches!(next_message(&mut buf, 0), Ok(Some(BackendMessage::NoData))));
    assert!(buf.is_empty());
    assert!(matches!(next_message(&mut buf, 0), Ok(None)));
}

#[test]
fn next_message_reads_the_bodies() {
    let mut buf = Vec::<u8>::new();
    buf.extend_from_slice(&row_description(&[("id", 23), ("name", 25)]));
    match next_message(&mut buf, 0) {
        Ok(Some(BackendMessage::RowDescription(fields))) => {
            assert_eq!(fields.len(), 2);
            assert_eq!(fields[0].name, "id");
            assert_eq!(fields[0].type_oid, 23);
            assert_eq!(fields[0].format, 1);
            assert_eq!(fields[1].name, "name");
            assert_eq!(fields[1].type_oid, 25);
        }
        _ => panic!("a row description was expected"),
    }
    buf.extend_from_slice(&data_row(&[Some(b"ab"), None, Some(b"")]));
    match next_message(&mut buf, 3) {
        Ok(Some(BackendMessage::DataRow(row))) => {
            assert_eq!(row.cells, vec![Some(b"ab".to_vec()), None, Some(vec![])]);
            assert!(!row.more);
        }
        _ => panic!("a data row was expected"),
    }
    buf.extend_from_slice(&data_row(&[Some(b"ab"), None, Some(b"")]));
    match next_message(&mut buf, 2) {
        Ok(Some(BackendMessage::DataRow(row))) => {
            assert_eq!(row.cells, vec![Some(b"ab".to_vec()), None]);
            assert!(row.more);
        }
        _ => panic!("a data row was expected"),
    }
    buf.extend_from_slice(&data_row(&[Some(b"ab")]));
    match next_message(&mut buf, 2) {
        Ok(Some(BackendMessage::DataRow(row))) => {
            assert_eq!(row.cells, vec![Some(b"ab".to_vec())]);
            assert!(!row.more);
        }
        _ => panic!("a data row was expected"),
    }
    buf.extend_from_slice(&error_response(&[(b'S', "ERROR"), (b'M', "no")]));
    match next_message(&mut buf, 0) {
        Ok(Some(BackendMessage::ErrorResponse(err))) => {
            assert_eq!(err.values, vec![b"ERROR".to_vec(), b"no".to_vec()]);
            assert!(err.failure.is_none());
        }
        _ => panic!("an error response was expected"),
    }
    buf.extend_from_slice(&authentication(5, &[1, 2, 3, 4]));
    assert!(matches!(
        next_message(&mut buf, 0),
        Ok(Some(BackendMessage::AuthenticationMd5Password([1, 2, 3, 4])))
    ));
    buf.extend_from_slice(&authentication(3, &[]));
    assert!(matches!(
        next_message(&mut buf, 0),
        Ok(Some(BackendMessage::AuthenticationCleartextPassword))
    ));
    buf.extend_from_slice(&command_complete("SELECT 1"));
    assert!(matches!(next_message(&mut buf, 0), Ok(Some(BackendMessage::Other))));
}

#[test]
fn next_message_keeps_the_fields_before_a_malformed_one() {
    let mut buf = Vec::<u8>::new();
    let mut body = vec![b'S'];
    body.extend_from_slice(&cstr("ERROR"));
    body.push(b'M');
    body.extend_from_slice(b"cut");
    buf.extend_from_slice(&message(b'E', &body));
    match next_message(&mut buf, 0) {
        Ok(Some(BackendMessage::ErrorResponse(err))) => {
            assert_eq!(err.values, vec![b"ERROR".to_vec()]);
            let why = err.failure.unwrap();
            assert!(why.contains("UnexpectedEof"), "{}", why);
        }
        _ => panic!("an error response was expected"),
    }
}

#[test]
fn next_message_refuses_a_length_that_is_negative() {
    let mut buf = vec![b'D', 0x80, 0, 0, 0, 1, 2, 3];
    assert!(next_message(&mut buf, 0).is_err());
    assert_eq!(buf, vec![b'D', 0x80, 0, 0, 0, 1, 2, 3]);
    let mut buf = vec![b'D', 0xff, 0xff, 0xff, 0xff];
    assert!(next_message(&mut buf, 0).is_err());
}

#[test]
fn next_message_refuses_malformed_bodies() {
    let mut buf = Vec::<u8>::new();
    buf.extend_from_slice(&message(b'D', &[0, 1, 0, 0, 0, 9, b'a']));
    assert!(next_message(&mut buf, 1).is_err());
    let mut buf = Vec::<u8>::new();
    buf.extend_from_slice(&message(b'T', &[0, 1, b'a']));
    assert!(next_message(&mut buf, 0).is_err());
    let mut buf = Vec::<u8>::new();
    buf.extend_from_slice(&[b'Z', 0, 0, 0, 0]);
    assert!(next_message(&mut buf, 0).is_err());
}
