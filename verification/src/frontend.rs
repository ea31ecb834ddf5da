//! The messages a client writes, as byte strings, and the calls that
//! build them.

use crate::endian::i32_be_bytes;
use crate::endian::u16_be_bytes;
use crate::endian::u32_be_bytes;
use crate::params::payloads_of;
use bytes::BufMut;
use bytes::BytesMut;
use postgres_protocol::message::frontend;
use postgres_protocol::message::frontend::BindError;
use postgres_protocol::IsNull;
use vstd::prelude::*;
use vstd::utf8::encode_utf8;

verus! {

/// `bytes::BytesMut`, a growable byte buffer.
#[verifier::external_type_specification]
#[verifier::external_body]
pub struct ExBytesMut(BytesMut);

/// `postgres_protocol::IsNull`, the mark a value serializer returns.
#[verifier::external_type_specification]
#[verifier::external_body]
pub struct ExIsNull(IsNull);

/// `postgres_protocol::message::frontend::BindError`.
#[verifier::external_type_specification]
#[verifier::external_body]
pub struct ExBindError(BindError);

/// The bytes that a buffer holds.
pub uninterp spec fn buffer_bytes(buf: BytesMut) -> Seq<u8>;

/// Whether a mark says that the value is null.
pub uninterp spec fn marks_null(mark: IsNull) -> bool;

/// A string followed by its terminating zero byte.
pub open spec fn cstr(s: Seq<u8>) -> Seq<u8> {
    s.push(0u8)
}

/// The two bytes of a signed 16-bit number, most significant first.
pub open spec fn i16_be_bytes(v: int) -> Seq<u8> {
    if v < 0 {
        u16_be_bytes(v + 0x1_0000)
    } else {
        u16_be_bytes(v)
    }
}

/// The largest length that a message can announce of itself.
pub open spec fn max_frame() -> int {
    0x7fff_ffff
}

/// A body behind its own length: the length counts its four bytes too.
pub open spec fn sized(body: Seq<u8>) -> Seq<u8> {
    i32_be_bytes(body.len() as int + 4) + body
}

/// A message: the tag, then the body behind its length.
pub open spec fn framed(tag: u8, body: Seq<u8>) -> Seq<u8> {
    seq![tag] + sized(body)
}

/// Format codes, two bytes each.
pub open spec fn codes_bytes(codes: Seq<i16>) -> Seq<u8>
    decreases codes.len(),
{
    if codes.len() == 0 {
        Seq::empty()
    } else {
        codes_bytes(codes.drop_last()) + i16_be_bytes(codes.last() as int)
    }
}

/// Type identifiers, four bytes each.
pub open spec fn oids_bytes(oids: Seq<u32>) -> Seq<u8>
    decreases oids.len(),
{
    if oids.len() == 0 {
        Seq::empty()
    } else {
        oids_bytes(oids.drop_last()) + u32_be_bytes(oids.last() as int)
    }
}

/// One parameter value: its length and its bytes, or the length -1 alone
/// for a null.
pub open spec fn value_bytes(value: Option<Seq<u8>>) -> Seq<u8> {
    match value {
        Some(b) => i32_be_bytes(b.len() as int) + b,
        None => i32_be_bytes(-1),
    }
}

/// Parameter values, one after the other.
pub open spec fn values_bytes(values: Seq<Option<Seq<u8>>>) -> Seq<u8>
    decreases values.len(),
{
    if values.len() == 0 {
        Seq::empty()
    } else {
        values_bytes(values.drop_last()) + value_bytes(values.last())
    }
}

/// Every present value is short enough for its length to be announced.
pub open spec fn values_fit(values: Seq<Option<Seq<u8>>>) -> bool {
    forall|i: int|
        0 <= i < values.len() ==> (#[trigger] values[i] matches Some(b) ==> b.len() <= max_frame())
}

/// The body of a startup message with two parameters: the protocol
/// version 3.0, the two pairs of name and value, and a closing zero.
pub open spec fn startup_body(k1: Seq<u8>, v1: Seq<u8>, k2: Seq<u8>, v2: Seq<u8>) -> Seq<u8> {
    i32_be_bytes(196608) + cstr(k1) + cstr(v1) + cstr(k2) + cstr(v2) + seq![0u8]
}

/// The body of a Parse message.
pub open spec fn parse_body(name: Seq<u8>, query: Seq<u8>, oids: Seq<u32>) -> Seq<u8> {
    cstr(name) + cstr(query) + u16_be_bytes(oids.len() as int) + oids_bytes(oids)
}

/// The body of a Describe or of a Close message.
pub open spec fn target_body(variant: u8, name: Seq<u8>) -> Seq<u8> {
    seq![variant] + cstr(name)
}

/// The body of a Bind message.
pub open spec fn bind_body(
    portal: Seq<u8>,
    statement: Seq<u8>,
    formats: Seq<i16>,
    values: Seq<Option<Seq<u8>>>,
    result_formats: Seq<i16>,
) -> Seq<u8> {
    cstr(portal) + cstr(statement) + u16_be_bytes(formats.len() as int) + codes_bytes(formats)
        + u16_be_bytes(values.len() as int) + values_bytes(values) + u16_be_bytes(
        result_formats.len() as int,
    ) + codes_bytes(result_formats)
}

/// The body of an Execute message.
pub open spec fn execute_body(portal: Seq<u8>, max_rows: i32) -> Seq<u8> {
    cstr(portal) + i32_be_bytes(max_rows as int)
}

/// A startup message with these two parameters can be written: no name
/// or value holds a zero byte, and the length can be announced.
pub open spec fn startup_fits(k1: Seq<u8>, v1: Seq<u8>, k2: Seq<u8>, v2: Seq<u8>) -> bool {
    &&& !k1.contains(0u8)
    &&& !v1.contains(0u8)
    &&& !k2.contains(0u8)
    &&& !v2.contains(0u8)
    &&& startup_body(k1, v1, k2, v2).len() + 4 <= max_frame()
}

/// A message whose body is this one zero-terminated string can be
/// written.
pub open spec fn text_fits(text: Seq<u8>) -> bool {
    &&& !text.contains(0u8)
    &&& cstr(text).len() + 4 <= max_frame()
}

/// A Parse message can be written.
pub open spec fn parse_fits(name: Seq<u8>, query: Seq<u8>, oids: Seq<u32>) -> bool {
    &&& !name.contains(0u8)
    &&& !query.contains(0u8)
    &&& oids.len() <= 0xffff
    &&& parse_body(name, query, oids).len() + 4 <= max_frame()
}

/// A Describe or a Close message can be written.
pub open spec fn target_fits(variant: u8, name: Seq<u8>) -> bool {
    &&& !name.contains(0u8)
    &&& target_body(variant, name).len() + 4 <= max_frame()
}

/// A Bind message can be written.
pub open spec fn bind_fits(
    portal: Seq<u8>,
    statement: Seq<u8>,
    formats: Seq<i16>,
    values: Seq<Option<Seq<u8>>>,
    result_formats: Seq<i16>,
) -> bool {
    &&& !portal.contains(0u8)
    &&& !statement.contains(0u8)
    &&& formats.len() <= 0xffff
    &&& values.len() <= 0xffff
    &&& result_formats.len() <= 0xffff
    &&& values_fit(values)
    &&& bind_body(portal, statement, formats, values, result_formats).len() + 4 <= max_frame()
}

/// An Execute message can be written.
pub open spec fn execute_fits(portal: Seq<u8>, max_rows: i32) -> bool {
    &&& !portal.contains(0u8)
    &&& execute_body(portal, max_rows).len() + 4 <= max_frame()
}

/// `postgres_protocol::message::frontend::startup_message` on two
/// parameters and an empty buffer. It fails when a name or a value holds
/// a zero byte or the message is too long to announce its length;
/// otherwise the buffer holds the body behind its length, without a tag.
#[verifier::external_body]
pub(crate) fn startup_message(k1: &str, v1: &str, k2: &str, v2: &str) -> (r: Result<
    Vec<u8>,
    std::io::Error,
>)
    ensures
        r is Ok <==> startup_fits(
            encode_utf8(k1@),
            encode_utf8(v1@),
            encode_utf8(k2@),
            encode_utf8(v2@),
        ),
        r matches Ok(m) ==> m@ == sized(
            startup_body(encode_utf8(k1@), encode_utf8(v1@), encode_utf8(k2@), encode_utf8(v2@)),
        ),
{
    let mut buf = BytesMut::new();
    frontend::startup_message([(k1, v1), (k2, v2)], &mut buf)?;
    Ok(buf.to_vec())
}

/// `postgres_protocol::message::frontend::password_message` on an empty
/// buffer: the tag `p` and the password as a zero-terminated string. It
/// fails on a zero byte in the password or on a message too long.
#[verifier::external_body]
pub(crate) fn password_message(password: &[u8]) -> (r: Result<Vec<u8>, std::io::Error>)
    ensures
        r is Ok <==> text_fits(password@),
        r matches Ok(m) ==> m@ == framed(112, cstr(password@)),
{
    let mut buf = BytesMut::new();
    frontend::password_message(password, &mut buf)?;
    Ok(buf.to_vec())
}

/// `postgres_protocol::message::frontend::parse` on an empty buffer: the
/// tag `P`, the statement name, the query text and the counted parameter
/// types. It fails on a zero byte in the name or the text, on more than
/// 65535 types, or on a message too long.
#[verifier::external_body]
pub(crate) fn parse_message(name: &str, query: &str, param_types: &Vec<u32>) -> (r: Result<
    Vec<u8>,
    std::io::Error,
>)
    ensures
        r is Ok <==> parse_fits(encode_utf8(name@), encode_utf8(query@), param_types@),
        r matches Ok(m) ==> m@ == framed(
            80,
            parse_body(encode_utf8(name@), encode_utf8(query@), param_types@),
        ),
{
    let mut buf = BytesMut::new();
    frontend::parse(name, query, param_types.iter().copied(), &mut buf)?;
    Ok(buf.to_vec())
}

/// `postgres_protocol::message::frontend::describe` on an empty buffer:
/// the tag `D`, the variant byte and the name. It fails on a zero byte in
/// the name or on a message too long.
#[verifier::external_body]
pub(crate) fn describe_message(variant: u8, name: &str) -> (r: Result<Vec<u8>, std::io::Error>)
    ensures
        r is Ok <==> target_fits(variant, encode_utf8(name@)),
        r matches Ok(m) ==> m@ == framed(68, target_body(variant, encode_utf8(name@))),
{
    let mut buf = BytesMut::new();
    frontend::describe(variant, name, &mut buf)?;
    Ok(buf.to_vec())
}

/// `bytes::BufMut::put_slice` on a `BytesMut`: appends the bytes.
#[verifier::external_body]
pub(crate) fn put_slice(buf: &mut BytesMut, src: &[u8])
    ensures
        buffer_bytes(*final(buf)) == buffer_bytes(*old(buf)) + src@,
{
    buf.put_slice(src)
}

/// The mark `IsNull::Yes`.
#[verifier::external_body]
pub(crate) fn null_mark() -> (r: IsNull)
    ensures
        marks_null(r),
{
    IsNull::Yes
}

/// The mark `IsNull::No`.
#[verifier::external_body]
pub(crate) fn value_mark() -> (r: IsNull)
    ensures
        !marks_null(r),
{
    IsNull::No
}

/// Serializes one parameter for a Bind message: a present value puts its
/// bytes into the buffer, an absent one puts nothing and is marked null.
pub fn write_value(value: &Option<Vec<u8>>, buf: &mut BytesMut) -> (r: IsNull)
    ensures
        marks_null(r) <==> value is None,
        buffer_bytes(*final(buf)) == buffer_bytes(*old(buf)) + match value {
            Some(b) => b@,
            None => Seq::<u8>::empty(),
        },
{
    match value {
        Some(bytes) => {
            put_slice(buf, bytes.as_slice());
            value_mark()
        },
        None => {
            assert(buffer_bytes(*buf) + Seq::<u8>::empty() =~= buffer_bytes(*buf));
            null_mark()
        },
    }
}

/// `postgres_protocol::message::frontend::bind` on an empty buffer, with
/// `write_value` as the serializer of each value: the tag `B`, the portal
/// and statement names, the counted parameter format codes, the counted
/// values, each behind its length or as the length -1, and the counted
/// result format codes. It fails on a zero byte in a name, on more than
/// 65535 codes or values, on a value longer than a length can announce,
/// or on a message too long.
#[verifier::external_body]
pub(crate) fn bind_message(
    portal: &str,
    statement: &str,
    formats: &Vec<i16>,
    values: &Vec<Option<Vec<u8>>>,
    result_formats: &Vec<i16>,
) -> (r: Result<Vec<u8>, BindError>)
    ensures
        r is Ok <==> bind_fits(
            encode_utf8(portal@),
            encode_utf8(statement@),
            formats@,
            payloads_of(values@),
            result_formats@,
        ),
        r matches Ok(m) ==> m@ == framed(
            66,
            bind_body(
                encode_utf8(portal@),
                encode_utf8(statement@),
                formats@,
                payloads_of(values@),
                result_formats@,
            ),
        ),
{
    let mut buf = BytesMut::new();
    let codes = formats.iter().copied();
    let results = result_formats.iter().copied();
    let write = |v: &Option<Vec<u8>>, b: &mut BytesMut| Ok(write_value(v, b));
    frontend::bind(portal, statement, codes, values.iter(), write, results, &mut buf)?;
    Ok(buf.to_vec())
}

/// `postgres_protocol::message::frontend::execute` on an empty buffer:
/// the tag `E`, the portal name and the row limit. It fails on a zero
/// byte in the name or on a message too long.
#[verifier::external_body]
pub(crate) fn execute_message(portal: &str, max_rows: i32) -> (r: Result<Vec<u8>, std::io::Error>)
    ensures
        r is Ok <==> execute_fits(encode_utf8(portal@), max_rows),
        r matches Ok(m) ==> m@ == framed(69, execute_body(encode_utf8(portal@), max_rows)),
{
    let mut buf = BytesMut::new();
    frontend::execute(portal, max_rows, &mut buf)?;
    Ok(buf.to_vec())
}

/// `postgres_protocol::message::frontend::close` on an empty buffer: the
/// tag `C`, the variant byte and the name. It fails on a zero byte in the
/// name or on a message too long.
#[verifier::external_body]
pub(crate) fn close_message(variant: u8, name: &str) -> (r: Result<Vec<u8>, std::io::Error>)
    ensures
        r is Ok <==> target_fits(variant, encode_utf8(name@)),
        r matches Ok(m) ==> m@ == framed(67, target_body(variant, encode_utf8(name@))),
{
    let mut buf = BytesMut::new();
    frontend::close(variant, name, &mut buf)?;
    Ok(buf.to_vec())
}

/// `postgres_protocol::message::frontend::sync` on an empty buffer: the
/// tag `S` and an empty body.
#[verifier::external_body]
pub(crate) fn sync_message() -> (r: Vec<u8>)
    ensures
        r@ == framed(83, Seq::<u8>::empty()),
{
    let mut buf = BytesMut::new();
    frontend::sync(&mut buf);
    buf.to_vec()
}

/// `postgres_protocol::message::frontend::query` on an empty buffer: the
/// tag `Q` and the query text. It fails on a zero byte in the text or on
/// a message too long.
#[verifier::external_body]
pub(crate) fn query_message(query: &str) -> (r: Result<Vec<u8>, std::io::Error>)
    ensures
        r is Ok <==> text_fits(encode_utf8(query@)),
        r matches Ok(m) ==> m@ == framed(81, cstr(encode_utf8(query@))),
{
    let mut buf = BytesMut::new();
    frontend::query(query, &mut buf)?;
    Ok(buf.to_vec())
}

} // verus!
