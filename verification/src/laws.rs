//! Laws that hold between the encoders, the decoders and the session.

use crate::backend::frame_len;
use crate::backend::next_in;
use crate::backend::MessageView;
use crate::backend::Next;
use crate::client::binary_codes;
use crate::client::connect_more;
use crate::client::connect_run;
use crate::client::ping_more;
use crate::client::ping_run;
use crate::client::evicted;
use crate::client::failed;
use crate::client::finished;
use crate::client::health_follows;
use crate::client::lemma_first_fault_range;
use crate::client::query_messages;
use crate::client::query_more;
use crate::client::query_run;
use crate::client::query_step;
use crate::client::received;
use crate::client::row_end;
use crate::client::started;
use crate::client::uniform;
use crate::client::well_formed;
use crate::client::with_row;
use crate::client::with_unread;
use crate::client::ClientView;
use crate::client::Step;
use crate::client::BINARY;
use crate::client::PORTAL;
use crate::column_result::decode_cell;
use crate::column_result::shifted_days;
use crate::column_result::shifted_micros;
use crate::column_result::views_of;
use crate::column_result::Cell;
use crate::column_result::ColumnKind;
use crate::column_result::ColumnStorage;
use crate::column_result::ColumnView;
use crate::endian::be_u16;
use crate::endian::i32_be_bytes;
use crate::endian::lemma_i32_round_trip;
use crate::endian::lemma_i64_round_trip;
use crate::endian::lemma_u64_round_trip;
use crate::endian::u16_be_bytes;
use crate::error::PgToPlResult;
use crate::frontend::bind_body;
use crate::frontend::codes_bytes;
use crate::frontend::cstr;
use crate::frontend::execute_body;
use crate::frontend::framed;
use crate::frontend::max_frame;
use crate::frontend::target_body;
use crate::frontend::values_bytes;
use crate::params::param_bytes;
use crate::params::param_oid;
use crate::params::param_payloads;
use crate::params::BinaryParam;
use crate::text_array::PayloadFault;
use crate::utils::statement_name_text;
use vstd::prelude::*;
use vstd::utf8::encode_utf8;

verus! {

/// Two bytes written for a count read back as the count.
pub proof fn lemma_u16_round_trip(v: int)
    requires
        0 <= v <= 0xffff,
    ensures
        u16_be_bytes(v).len() == 2,
        be_u16(u16_be_bytes(v)) == v,
{
}

/// Format codes take two bytes each.
pub proof fn lemma_codes_len(codes: Seq<i16>)
    ensures
        codes_bytes(codes).len() == 2 * codes.len(),
    decreases codes.len(),
{
    if codes.len() > 0 {
        lemma_codes_len(codes.drop_last());
    }
}

/// A Bind message for a list of parameters announces as many format
/// codes as there are parameters and then as many values: after the two
/// names stands the number of parameters, then that many codes, then the
/// number of parameters again, then their values.
pub proof fn lemma_bind_announces_every_parameter(
    portal: Seq<u8>,
    statement: Seq<u8>,
    params: Seq<Option<BinaryParam>>,
)
    requires
        params.len() <= 0xffff,
    ensures
        ({
            let count = params.len() as int;
            let values = param_payloads(params);
            let body = bind_body(portal, statement, binary_codes(params.len()), values, seq![BINARY]);
            let at = portal.len() as int + statement.len() as int + 2;
            &&& values.len() == count
            &&& be_u16(body.subrange(at, at + 2)) == count
            &&& body.subrange(at + 2, at + 2 + 2 * count) == codes_bytes(binary_codes(params.len()))
            &&& be_u16(body.subrange(at + 2 + 2 * count, at + 4 + 2 * count)) == count
            &&& body.subrange(at + 4 + 2 * count, at + 4 + 2 * count + values_bytes(values).len())
                == values_bytes(values)
        }),
{
    let count = params.len() as int;
    let values = param_payloads(params);
    let codes = codes_bytes(binary_codes(params.len()));
    let body = bind_body(portal, statement, binary_codes(params.len()), values, seq![BINARY]);
    let at = portal.len() as int + statement.len() as int + 2;
    lemma_codes_len(binary_codes(params.len()));
    lemma_u16_round_trip(count);
    let head = cstr(portal) + cstr(statement);
    let tail = u16_be_bytes(1) + codes_bytes(seq![BINARY]);
    assert(head.len() == at);
    assert(body =~= head + u16_be_bytes(count) + codes + u16_be_bytes(count) + values_bytes(values)
        + tail);
    assert(body.subrange(at, at + 2) =~= u16_be_bytes(count));
    assert(body.subrange(at + 2, at + 2 + 2 * count) =~= codes);
    assert(body.subrange(at + 2 + 2 * count, at + 4 + 2 * count) =~= u16_be_bytes(count));
    assert(body.subrange(at + 4 + 2 * count, at + 4 + 2 * count + values_bytes(values).len())
        =~= values_bytes(values));
}

/// Once a query that prepared its statement has succeeded on a session
/// that keeps statements, the same text with the same parameter types is
/// written without Parse and Describe: the bytes are Bind, Execute, Close
/// and Sync alone.
pub proof fn lemma_kept_statement_is_not_parsed_again(
    s: ClientView,
    sql: Seq<char>,
    portal: Seq<u8>,
    values: Seq<Option<Seq<u8>>>,
)
    requires
        s.caching,
        s.first_prepare,
        s.statement == statement_name_text(sql),
    ensures
        ({
            let name = statement_name_text(sql);
            let after = finished(s);
            &&& after.cache.contains_key(name)
            &&& after.cache[name].param_types == s.param_types
            &&& started(after, name, s.param_types).first_prepare == false
            &&& query_messages(
                !after.cache.contains_key(name),
                encode_utf8(name),
                encode_utf8(sql),
                s.param_types,
                portal,
                values,
            ) matches Ok(bytes) ==> bytes == framed(
                66,
                bind_body(
                    portal,
                    encode_utf8(name),
                    binary_codes(values.len()),
                    values,
                    seq![BINARY],
                ),
            ) + framed(69, execute_body(portal, 0)) + framed(67, target_body(PORTAL, portal))
                + framed(83, Seq::<u8>::empty())
        }),
{
    reveal(query_messages);
    let name = statement_name_text(sql);
    let bind = framed(
        66,
        bind_body(portal, encode_utf8(name), binary_codes(values.len()), values, seq![BINARY]),
    );
    assert(Seq::<u8>::empty() + bind =~= bind);
}

/// What is kept of a statement stays kept through every later query that
/// succeeds on the session.
pub proof fn lemma_finished_keeps_statements(s: ClientView, name: Seq<char>)
    requires
        s.cache.contains_key(name),
        name != s.statement,
    ensures
        finished(s).cache.contains_key(name),
        finished(s).cache[name] == s.cache[name],
{
}

/// A row that every column can decode leaves every column one cell
/// longer, so that columns which held one cell for each row still do.
pub proof fn lemma_row_keeps_columns_level(
    columns: Seq<ColumnView>,
    rows: nat,
    row: Seq<Option<Seq<u8>>>,
)
    requires
        uniform(columns, rows),
    ensures
        uniform(with_row(columns, row), rows + 1),
        with_row(columns, row).len() == columns.len(),
{
    assert forall|i: int| 0 <= i < with_row(columns, row).len() implies (#[trigger] with_row(
        columns,
        row,
    )[i]).cells.len() == rows + 1 by {
        assert(columns[i].cells.len() == rows);
    }
}

/// A query that succeeds leaves the session well formed and healthy, and
/// one that fails leaves it well formed and broken.
pub proof fn lemma_finished_is_well_formed(s: ClientView)
    requires
        well_formed(s),
    ensures
        well_formed(finished(s)),
        finished(s).healthy,
        well_formed(failed(s)),
        !failed(s).healthy,
        well_formed(failed(evicted(s))),
{
    let after = finished(s);
    assert forall|k: Seq<char>| #[trigger] after.cache.contains_key(k) implies uniform(
        after.cache[k].columns,
        0,
    ) by {
        if s.first_prepare && s.caching && k == s.statement {
        } else {
            assert(s.cache.contains_key(k));
        }
    }
    assert forall|k: Seq<char>| #[trigger]
        evicted(s).cache.contains_key(k) implies uniform(evicted(s).cache[k].columns, 0) by {
        assert(s.cache.contains_key(k));
    }
}

/// A 32-bit integer sent as a parameter and read back into an integer
/// column is the same integer.
pub proof fn lemma_int4_round_trip(v: i32)
    ensures
        param_oid(Some(BinaryParam::Int4(v))) == 23,
        decode_cell(ColumnKind::Ints, param_bytes(Some(BinaryParam::Int4(v)))) == Ok::<
            Cell,
            PayloadFault,
        >(Cell::Int4(v)),
{
    lemma_i32_round_trip(v as int);
}

/// A 64-bit integer sent as a parameter and read back into a column of
/// times of day is the same integer.
pub proof fn lemma_int8_round_trip(v: i64)
    ensures
        param_oid(Some(BinaryParam::Int8(v))) == 20,
        decode_cell(ColumnKind::Times, param_bytes(Some(BinaryParam::Int8(v)))) == Ok::<
            Cell,
            PayloadFault,
        >(Cell::Int8(v)),
{
    lemma_i64_round_trip(v as int);
}

/// A double-precision number sent as a parameter and read back into a
/// column of such numbers has the same bit pattern.
pub proof fn lemma_float8_round_trip(bits: u64)
    ensures
        param_oid(Some(BinaryParam::Float8(bits))) == 701,
        decode_cell(ColumnKind::Doubles, param_bytes(Some(BinaryParam::Float8(bits)))) == Ok::<
            Cell,
            PayloadFault,
        >(Cell::Bits(bits)),
{
    lemma_u64_round_trip(bits as int);
}

/// A truth value sent as a parameter and read back into a boolean column
/// is the same truth value.
pub proof fn lemma_bool_round_trip(v: bool)
    ensures
        decode_cell(ColumnKind::Bools, param_bytes(Some(BinaryParam::Bool(v)))) == Ok::<
            Cell,
            PayloadFault,
        >(Cell::Bool(v)),
{
}

/// A text sent as a parameter and read back into a text column is the
/// same text.
pub proof fn lemma_text_round_trip(s: String)
    ensures
        decode_cell(ColumnKind::Texts, param_bytes(Some(BinaryParam::Text(s)))) == Ok::<
            Cell,
            PayloadFault,
        >(Cell::Text(s@)),
{
    vstd::utf8::encode_utf8_valid_utf8(s@);
    vstd::utf8::encode_utf8_decode_utf8(s@);
}

/// An absent parameter announces no type and reads back as a null cell in
/// a column of any kind.
pub proof fn lemma_null_round_trip(kind: ColumnKind)
    ensures
        param_oid(None) == 0,
        decode_cell(kind, param_bytes(None)) == Ok::<Cell, PayloadFault>(Cell::Null),
{
}

/// Every value makes a cell in a column of any kind but the text array:
/// what cannot be decoded there is a null cell, never a fault.
pub proof fn lemma_only_arrays_fault(kind: ColumnKind, value: Option<Seq<u8>>)
    requires
        kind != ColumnKind::TextArray,
    ensures
        decode_cell(kind, value) is Ok,
{
}

/// A date or a point in time is shifted to its count from 1970-01-01
/// where that count fits, and is a null cell where it does not.
pub proof fn lemma_shift_is_exact_or_null(days: i32, micros: i64)
    ensures
        match shifted_days(days) {
            Some(d) => d == days + 10957,
            None => days + 10957 > i32::MAX,
        },
        match shifted_micros(micros) {
            Some(m) => m == micros + 946_684_800_000_000,
            None => micros + 946_684_800_000_000 > i64::MAX,
        },
{
}

/// A message as a client frames it is a whole message as a reader of
/// the server's messages measures it: the tag, then four bytes of length
/// that count themselves and the body. Whatever follows it stays unread.
pub proof fn lemma_framed_is_a_whole_message(tag: u8, body: Seq<u8>, rest: Seq<u8>, expected: usize)
    requires
        body.len() + 4 <= max_frame(),
    ensures
        framed(tag, body).len() == 5 + body.len(),
        frame_len(framed(tag, body) + rest) == 5 + body.len(),
        !(next_in(framed(tag, body) + rest, expected) is Wait),
        next_in(framed(tag, body) + rest, expected) matches Next::Message(_, behind) ==> behind
            == rest,
{
    let n = body.len() as int + 4;
    lemma_i32_round_trip(n);
    let whole = framed(tag, body) + rest;
    assert(whole.subrange(1, 5) =~= i32_be_bytes(n));
    assert(whole.subrange(frame_len(whole), whole.len() as int) =~= rest);
}

/// A query ends well only on `ReadyForQuery` or `NoData`; every other end
/// is a failure.
pub proof fn lemma_query_ends_on_ready_or_no_data(
    s: ClientView,
    msg: MessageView,
    s2: ClientView,
    r: Step<Vec<ColumnStorage>>,
)
    requires
        query_step(s, msg, s2, r),
        r matches Step::Done(Ok(_)),
    ensures
        msg is ReadyForQuery || msg is NoData,
        msg is ReadyForQuery ==> s.pending_error is None,
{
}

/// However a message ends a query, the session is healthy after a
/// success and broken after a failure; a message that does not end the
/// query leaves the health as it was.
pub proof fn lemma_health_follows_every_step(
    s: ClientView,
    msg: MessageView,
    s2: ClientView,
    r: Step<Vec<ColumnStorage>>,
)
    requires
        query_step(s, msg, s2, r),
    ensures
        health_follows(s2, r),
        r is More ==> s2.healthy == s.healthy,
{
}

/// Every message keeps the columns level, and the columns that a query
/// hands out hold one cell for each row that was taken in.
pub proof fn lemma_query_step_keeps_rows_level(
    s: ClientView,
    msg: MessageView,
    s2: ClientView,
    r: Step<Vec<ColumnStorage>>,
)
    requires
        well_formed(s),
        query_step(s, msg, s2, r),
    ensures
        well_formed(s2),
        r matches Step::Done(Ok(columns)) ==> uniform(views_of(columns@), s.rows),
        msg is DataRow && r is More ==> s2.rows == s.rows + 1,
{
    lemma_finished_is_well_formed(s);
    match msg {
        MessageView::DataRow(cells, more) => {
            lemma_row_keeps_columns_level(s.columns, s.rows, cells);
        },
        _ => {},
    }
}

/// A row of the wrong length takes the kept statement of the query away.
pub proof fn lemma_row_shape_error_evicts(
    s: ClientView,
    cells: Seq<Option<Seq<u8>>>,
    more: bool,
    s2: ClientView,
    r: PgToPlResult<Vec<ColumnStorage>>,
)
    requires
        row_end(s, cells, more, s2, r),
        r matches Err(e) && (e is TooFewField || e is TooManyField),
    ensures
        !s2.cache.contains_key(s.statement),
        !s2.healthy,
{
    lemma_first_fault_range(s.columns, cells, 0);
}

/// Whatever is received, a query that ends leaves the session healthy
/// after a success and broken after a failure, and one that goes on
/// leaves the health as it was.
pub proof fn lemma_health_follows_every_run(
    s: ClientView,
    s2: ClientView,
    r: Step<Vec<ColumnStorage>>,
)
    requires
        query_run(s, s2, r),
    ensures
        health_follows(s2, r),
        r is More ==> s2.healthy == s.healthy,
    decreases s.unread.len(),
{
    match next_in(s.unread, s.columns.len() as usize) {
        Next::Message(msg, rest) => {
            match query_more(with_unread(s, rest), msg) {
                Some(next) => {
                    lemma_health_follows_every_run(with_unread(next, rest), s2, r);
                },
                None => {},
            }
        },
        _ => {},
    }
}

/// Whatever is received, the columns in progress stay level, and the
/// columns that a query hands out all hold the same number of cells: one
/// for each row that was taken in.
pub proof fn lemma_every_run_keeps_rows_level(
    s: ClientView,
    s2: ClientView,
    r: Step<Vec<ColumnStorage>>,
)
    requires
        well_formed(s),
        query_run(s, s2, r),
    ensures
        well_formed(s2),
        r matches Step::Done(Ok(columns)) ==> exists|rows: nat|
            uniform(views_of(columns@), rows),
    decreases s.unread.len(),
{
    lemma_finished_is_well_formed(s);
    match next_in(s.unread, s.columns.len() as usize) {
        Next::Message(msg, rest) => {
            let s1 = with_unread(s, rest);
            lemma_finished_is_well_formed(s1);
            match query_more(s1, msg) {
                Some(next) => {
                    match msg {
                        MessageView::DataRow(cells, more) => {
                            lemma_row_keeps_columns_level(s1.columns, s1.rows, cells);
                        },
                        _ => {},
                    }
                    lemma_every_run_keeps_rows_level(with_unread(next, rest), s2, r);
                },
                None => {
                    if r matches Step::Done(Ok(_)) {
                        let columns = r->Done_0->Ok_0;
                        assert(uniform(views_of(columns@), s1.rows));
                    }
                },
            }
        },
        _ => {},
    }
}

/// More bytes behind a whole message change nothing of the message; they
/// stay behind it.
pub proof fn lemma_more_bytes_stay_behind(bytes: Seq<u8>, more: Seq<u8>, expected: usize)
    ensures
        next_in(bytes, expected) matches Next::Message(msg, rest) ==> next_in(
            bytes + more,
            expected,
        ) == Next::Message(msg, rest + more),
        next_in(bytes, expected) is Refused ==> next_in(bytes + more, expected) is Refused,
{
    if bytes.len() >= 5 {
        let both = bytes + more;
        assert(both.subrange(1, 5) =~= bytes.subrange(1, 5));
        if 5 <= frame_len(bytes) <= bytes.len() {
            let n = frame_len(bytes);
            assert(both.subrange(0, n) =~= bytes.subrange(0, n));
            assert(both.subrange(n, both.len() as int) =~= bytes.subrange(n, bytes.len() as int)
                + more);
        }
    }
}

/// It makes no difference where the reads fall: a query that has taken
/// in some bytes and waits, and then takes in more, ends up as if it had
/// taken in all of them at once.
pub proof fn lemma_reads_can_be_split(
    s: ClientView,
    first: Seq<u8>,
    second: Seq<u8>,
    s1: ClientView,
    r1: Step<Vec<ColumnStorage>>,
    s2: ClientView,
    r: Step<Vec<ColumnStorage>>,
)
    requires
        query_run(received(s, first), s1, r1),
        r1 is More,
        query_run(received(s1, second), s2, r),
    ensures
        query_run(received(s, first + second), s2, r),
    decreases s.unread.len() + first.len(),
{
    let start = received(s, first);
    let whole = received(s, first + second);
    let expected = s.columns.len() as usize;
    assert(whole.unread =~= start.unread + second);
    lemma_more_bytes_stay_behind(start.unread, second, expected);
    match next_in(start.unread, expected) {
        Next::Wait => {
            assert(received(s1, second) == whole);
        },
        Next::Refused => {},
        Next::Message(msg, rest) => {
            match query_more(with_unread(start, rest), msg) {
                Some(next) => {
                    let base = with_unread(next, Seq::<u8>::empty());
                    assert(Seq::<u8>::empty() + rest =~= rest);
                    assert(Seq::<u8>::empty() + (rest + second) =~= rest + second);
                    assert(received(base, rest) == with_unread(next, rest));
                    lemma_reads_can_be_split(base, rest, second, s1, r1, s2, r);
                    let next_whole = query_more(with_unread(whole, rest + second), msg);
                    assert(next_whole is Some);
                    assert(with_unread(next_whole->Some_0, rest + second) == received(
                        base,
                        rest + second,
                    ));
                },
                None => {},
            }
        },
    }
}

/// Whatever is received, a handshake that ends leaves the session healthy
/// after a success and broken after a failure, and one that goes on
/// leaves the health as it was.
pub proof fn lemma_health_follows_every_handshake(
    s: ClientView,
    written: Seq<u8>,
    s2: ClientView,
    r: Step<()>,
)
    requires
        connect_run(s, written, s2, r),
    ensures
        health_follows(s2, r),
        r is More ==> s2.healthy == s.healthy,
    decreases s.unread.len(),
{
    match next_in(s.unread, 0) {
        Next::Message(msg, rest) => {
            match connect_more(with_unread(s, rest), msg) {
                Some((next, answer)) => {
                    lemma_health_follows_every_handshake(
                        with_unread(next, rest),
                        written + answer,
                        s2,
                        r,
                    );
                },
                None => {},
            }
        },
        _ => {},
    }
}

/// Whatever is received, a ping that ends leaves the session healthy
/// after a success and broken after a failure, and one that goes on
/// leaves the session as it was but for the bytes it has not read.
pub proof fn lemma_health_follows_every_ping(s: ClientView, s2: ClientView, r: Step<()>)
    requires
        ping_run(s, s2, r),
    ensures
        health_follows(s2, r),
        r is More ==> s2 == with_unread(s, s2.unread),
    decreases s.unread.len(),
{
    match next_in(s.unread, 0) {
        Next::Message(msg, rest) => {
            match ping_more(with_unread(s, rest), msg) {
                Some(next) => {
                    lemma_health_follows_every_ping(with_unread(next, rest), s2, r);
                },
                None => {},
            }
        },
        _ => {},
    }
}

/// It makes no difference where the reads fall: a ping that has taken in
/// some bytes and waits, and then takes in more, ends up as if it had
/// taken in all of them at once.
pub proof fn lemma_ping_reads_can_be_split(
    s: ClientView,
    first: Seq<u8>,
    second: Seq<u8>,
    s1: ClientView,
    r1: Step<()>,
    s2: ClientView,
    r: Step<()>,
)
    requires
        ping_run(received(s, first), s1, r1),
        r1 is More,
        ping_run(received(s1, second), s2, r),
    ensures
        ping_run(received(s, first + second), s2, r),
    decreases s.unread.len() + first.len(),
{
    let start = received(s, first);
    let whole = received(s, first + second);
    assert(whole.unread =~= start.unread + second);
    lemma_more_bytes_stay_behind(start.unread, second, 0);
    match next_in(start.unread, 0) {
        Next::Wait => {
            assert(received(s1, second) == whole);
        },
        Next::Refused => {},
        Next::Message(msg, rest) => {
            match ping_more(with_unread(start, rest), msg) {
                Some(next) => {
                    let base = with_unread(next, Seq::<u8>::empty());
                    assert(Seq::<u8>::empty() + rest =~= rest);
                    assert(Seq::<u8>::empty() + (rest + second) =~= rest + second);
                    assert(received(base, rest) == with_unread(next, rest));
                    lemma_ping_reads_can_be_split(base, rest, second, s1, r1, s2, r);
                    let next_whole = ping_more(with_unread(whole, rest + second), msg);
                    assert(next_whole is Some);
                    assert(with_unread(next_whole->Some_0, rest + second) == received(
                        base,
                        rest + second,
                    ));
                },
                None => {},
            }
        },
    }
}

} // verus!
