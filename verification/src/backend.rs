//! The messages a server writes: taking them off the received bytes and
//! turning them into plain values.

use crate::column_result::row_of;
use crate::column_result::FieldDescription;
use crate::endian::be_i32;
use bytes::BytesMut;
use fallible_iterator::FallibleIterator;
use postgres_protocol::message::backend::Header;
use postgres_protocol::message::backend::Message;
use vstd::prelude::*;
use vstd::slice::slice_subrange;
use vstd::slice::slice_to_vec;
use vstd::string::StringExecFns;

verus! {

/// The kinds of message that a session tells apart.
#[derive(Debug, Clone, Copy)]
pub enum MessageKind {
    /// The server asks for a SASL exchange.
    AuthenticationSasl,
    /// The server asks for the password in clear.
    AuthenticationCleartextPassword,
    /// The server asks for the salted MD5 hash of the password, with
    /// this salt.
    AuthenticationMd5Password([u8; 4]),
    /// The server reports an error.
    ErrorResponse,
    /// The server is ready for the next query.
    ReadyForQuery,
    /// The server describes the columns of the rows to come.
    RowDescription,
    /// One row.
    DataRow,
    /// The statement returns no rows.
    NoData,
    /// Any other message.
    Other,
}

/// The text fields of an error response: the values that could be read,
/// in order, and, where reading stopped on a malformed field, what went
/// wrong.
#[derive(Debug, Clone)]
pub struct ErrorBody {
    /// The values of the fields that could be read.
    pub values: Vec<Vec<u8>>,
    /// What went wrong at the first field that could not be read.
    pub failure: Option<String>,
}

/// What the fields of an error response stand for.
pub struct ErrorView {
    /// The values of the fields that could be read.
    pub values: Seq<Seq<u8>>,
    /// What went wrong at the first field that could not be read.
    pub failure: Option<Seq<char>>,
}

impl View for ErrorBody {
    type V = ErrorView;

    open spec fn view(&self) -> ErrorView {
        ErrorView {
            values: Seq::new(self.values@.len(), |i: int| self.values@[i]@),
            failure: match self.failure {
                Some(why) => Some(why@),
                None => None,
            },
        }
    }
}

/// What a described column stands for.
pub struct FieldView {
    /// The name of the column.
    pub name: Seq<char>,
    /// The identifier of the column's type.
    pub type_oid: u32,
    /// The format code of the column's values.
    pub format: i16,
}

/// What a list of described columns stands for.
pub open spec fn fields_view(fields: Seq<FieldDescription>) -> Seq<FieldView> {
    Seq::new(
        fields.len(),
        |i: int|
            FieldView {
                name: fields[i].name@,
                type_oid: fields[i].type_oid,
                format: fields[i].format,
            },
    )
}

/// The values of a data row as far as they were asked for, and whether
/// the row holds more.
#[derive(Debug, Clone)]
pub struct DataRow {
    /// The values that were read, in order; a null value is absent.
    pub cells: Vec<Option<Vec<u8>>>,
    /// Whether the row holds a value after those.
    pub more: bool,
}

/// A message from the server, as plain values.
#[derive(Debug, Clone)]
pub enum BackendMessage {
    /// The server asks for a SASL exchange.
    AuthenticationSasl,
    /// The server asks for the password in clear.
    AuthenticationCleartextPassword,
    /// The server asks for the salted MD5 hash of the password.
    AuthenticationMd5Password([u8; 4]),
    /// The server reports an error.
    ErrorResponse(ErrorBody),
    /// The server is ready for the next query.
    ReadyForQuery,
    /// The server describes the columns of the rows to come.
    RowDescription(Vec<FieldDescription>),
    /// One row.
    DataRow(DataRow),
    /// The statement returns no rows.
    NoData,
    /// Any other message.
    Other,
}

/// What a message from the server stands for.
pub enum MessageView {
    /// The server asks for a SASL exchange.
    AuthenticationSasl,
    /// The server asks for the password in clear.
    AuthenticationCleartextPassword,
    /// The server asks for the salted MD5 hash of the password.
    AuthenticationMd5Password(Seq<u8>),
    /// The server reports an error.
    ErrorResponse(ErrorView),
    /// The server is ready for the next query.
    ReadyForQuery,
    /// The server describes the columns of the rows to come.
    RowDescription(Seq<FieldView>),
    /// One row: the values that were read, and whether more follow.
    DataRow(Seq<Option<Seq<u8>>>, bool),
    /// The statement returns no rows.
    NoData,
    /// Any other message.
    Other,
}

impl View for BackendMessage {
    type V = MessageView;

    open spec fn view(&self) -> MessageView {
        match self {
            BackendMessage::AuthenticationSasl => MessageView::AuthenticationSasl,
            BackendMessage::AuthenticationCleartextPassword => {
                MessageView::AuthenticationCleartextPassword
            },
            BackendMessage::AuthenticationMd5Password(salt) => {
                MessageView::AuthenticationMd5Password(salt@)
            },
            BackendMessage::ErrorResponse(err) => MessageView::ErrorResponse(err@),
            BackendMessage::ReadyForQuery => MessageView::ReadyForQuery,
            BackendMessage::RowDescription(fields) => MessageView::RowDescription(
                fields_view(fields@),
            ),
            BackendMessage::DataRow(row) => MessageView::DataRow(row_of(row.cells@), row.more),
            BackendMessage::NoData => MessageView::NoData,
            BackendMessage::Other => MessageView::Other,
        }
    }
}

/// The kind of the message that `frame` holds, as
/// `postgres_protocol::message::backend::Message::parse` tells it; none
/// where the message is refused.
pub uninterp spec fn kind_of_frame(frame: Seq<u8>) -> Option<MessageKind>;

/// The columns that the row description in `frame` describes, as
/// `postgres_protocol`'s walk over its fields gives them; none where the
/// message or a field is refused.
pub uninterp spec fn fields_of_frame(frame: Seq<u8>) -> Option<Seq<FieldView>>;

/// The first `limit` values of the data row in `frame`, as
/// `postgres_protocol`'s walk over them gives them; none where the
/// message or a value among them is refused.
pub uninterp spec fn cells_of_frame(frame: Seq<u8>, limit: usize) -> Option<Seq<Option<Seq<u8>>>>;

/// The fields of the error response in `frame`, as `postgres_protocol`'s
/// walk over them gives them.
pub uninterp spec fn error_of_frame(frame: Seq<u8>) -> ErrorView;

/// `postgres_protocol::message::backend::Header::parse`: the tag and the
/// announced length of the first message in `buf`. With fewer than five
/// bytes there is no header yet; a length under four is refused.
#[verifier::external_body]
pub(crate) fn frame_header(buf: &[u8]) -> (r: Result<Option<(u8, i32)>, std::io::Error>)
    ensures
        buf@.len() < 5 ==> r matches Ok(None),
        buf@.len() >= 5 ==> {
            if be_i32(buf@.subrange(1, 5)) < 4 {
                r is Err
            } else {
                r matches Ok(Some(h)) && h.0 == buf@[0] && h.1 == be_i32(buf@.subrange(1, 5))
            }
        },
{
    Ok(Header::parse(buf)?.map(|h| (h.tag(), h.len())))
}

/// `postgres_protocol::message::backend::Message::parse` on one whole
/// message, the variants told apart.
#[verifier::external_body]
pub(crate) fn message_kind(frame: &[u8]) -> (r: Result<MessageKind, std::io::Error>)
    ensures
        match r {
            Ok(kind) => kind_of_frame(frame@) == Some(kind),
            Err(_) => kind_of_frame(frame@) is None,
        },
{
    Ok(match Message::parse(&mut BytesMut::from(frame))? {
        Some(Message::AuthenticationSasl(_)) => MessageKind::AuthenticationSasl,
        Some(Message::AuthenticationCleartextPassword) => MessageKind::AuthenticationCleartextPassword,
        Some(Message::AuthenticationMd5Password(b)) => MessageKind::AuthenticationMd5Password(b.salt()),
        Some(Message::ErrorResponse(_)) => MessageKind::ErrorResponse,
        Some(Message::ReadyForQuery(_)) => MessageKind::ReadyForQuery,
        Some(Message::RowDescription(_)) => MessageKind::RowDescription,
        Some(Message::DataRow(_)) => MessageKind::DataRow,
        Some(Message::NoData) => MessageKind::NoData,
        _ => MessageKind::Other,
    })
}

/// One described column.
pub fn field_description(name: &str, type_oid: u32, format: i16) -> (r: FieldDescription)
    ensures
        r.name@ == name@,
        r.type_oid == type_oid,
        r.format == format,
{
    FieldDescription { name: String::from_str(name), type_oid, format }
}

/// `postgres_protocol::message::backend::RowDescriptionBody::fields`,
/// walked to its end: every field of the row description in `frame` by
/// its name, type identifier and format code.
#[verifier::external_body]
pub(crate) fn described_fields(frame: &[u8]) -> (r: Result<Vec<FieldDescription>, std::io::Error>)
    ensures
        match r {
            Ok(fields) => fields_of_frame(frame@) == Some(fields_view(fields@)),
            Err(_) => fields_of_frame(frame@) is None,
        },
{
    match Message::parse(&mut BytesMut::from(frame))? {
        Some(Message::RowDescription(b)) => {
            b.fields().map(|f| Ok(field_description(f.name(), f.type_oid(), f.format()))).collect()
        },
        _ => Ok(Vec::new()),
    }
}

/// `postgres_protocol::message::backend::DataRowBody::ranges`, walked
/// over its first `limit` values: each as the bytes of the row's buffer
/// that its range covers, a null value as none.
#[verifier::external_body]
pub(crate) fn row_cells(frame: &[u8], limit: usize) -> (r: Result<
    Vec<Option<Vec<u8>>>,
    std::io::Error,
>)
    ensures
        match r {
            Ok(cells) => cells_of_frame(frame@, limit) == Some(row_of(cells@)),
            Err(_) => cells_of_frame(frame@, limit) is None,
        },
{
    match Message::parse(&mut BytesMut::from(frame))? {
        Some(Message::DataRow(b)) => {
            b.ranges().take(limit).map(|r| Ok(r.map(|r| b.buffer()[r].to_vec()))).collect()
        },
        _ => Ok(Vec::new()),
    }
}

/// Keeps the value of one field.
pub fn keep_value(values: &mut Vec<Vec<u8>>, value: &[u8])
    ensures
        final(values)@.len() == old(values)@.len() + 1,
        final(values)@[old(values)@.len() as int]@ == value@,
        forall|i: int| 0 <= i < old(values)@.len() ==> final(values)@[i] == old(values)@[i],
{
    values.push(slice_to_vec(value));
}

/// `postgres_protocol::message::backend::ErrorResponseBody::fields`,
/// walked until its end or its first malformed field: the values of the
/// fields before that, and the failure as `{:?}` writes it.
#[verifier::external_body]
pub(crate) fn error_fields(frame: &[u8]) -> (r: ErrorBody)
    ensures
        r@ == error_of_frame(frame@),
{
    let mut values = Vec::new();
    let read = match Message::parse(&mut BytesMut::from(frame)) {
        Ok(Some(Message::ErrorResponse(b))) => {
            b.fields().for_each(|f| Ok(keep_value(&mut values, f.value_bytes())))
        },
        _ => Ok(()),
    };
    ErrorBody { values, failure: read.err().map(|e| format!("{:?}", e)) }
}

/// How many values of a data row are asked for: one more than there are
/// columns, to see whether the row is too long.
pub open spec fn row_limit(expected: usize) -> usize {
    if expected < usize::MAX {
        (expected + 1) as usize
    } else {
        expected
    }
}

/// The message that one whole frame holds, or none where it is refused.
/// Of a data row the first `expected` values are kept, with a mark where
/// one more follows.
pub open spec fn message_of(frame: Seq<u8>, expected: usize) -> Option<MessageView> {
    match kind_of_frame(frame) {
        None => None,
        Some(MessageKind::AuthenticationSasl) => Some(MessageView::AuthenticationSasl),
        Some(MessageKind::AuthenticationCleartextPassword) => Some(
            MessageView::AuthenticationCleartextPassword,
        ),
        Some(MessageKind::AuthenticationMd5Password(salt)) => Some(
            MessageView::AuthenticationMd5Password(salt@),
        ),
        Some(MessageKind::ErrorResponse) => Some(MessageView::ErrorResponse(error_of_frame(frame))),
        Some(MessageKind::ReadyForQuery) => Some(MessageView::ReadyForQuery),
        Some(MessageKind::RowDescription) => match fields_of_frame(frame) {
            Some(fields) => Some(MessageView::RowDescription(fields)),
            None => None,
        },
        Some(MessageKind::DataRow) => match cells_of_frame(frame, row_limit(expected)) {
            Some(cells) => Some(
                if cells.len() > expected {
                    MessageView::DataRow(cells.take(expected as int), true)
                } else {
                    MessageView::DataRow(cells, false)
                },
            ),
            None => None,
        },
        Some(MessageKind::NoData) => Some(MessageView::NoData),
        Some(MessageKind::Other) => Some(MessageView::Other),
    }
}

/// What the received bytes hold at their front.
pub enum Next {
    /// Less than a whole message.
    Wait,
    /// A message that is refused.
    Refused,
    /// A whole message, and the bytes behind it.
    Message(MessageView, Seq<u8>),
}

/// The length of the first message in `bytes`, tag included: one more
/// than the length that the four bytes after the tag announce.
pub open spec fn frame_len(bytes: Seq<u8>) -> int
    recommends
        bytes.len() >= 5,
{
    1 + be_i32(bytes.subrange(1, 5))
}

/// What stands at the front of the received bytes. A message is one tag
/// byte, four bytes of length, most significant first, that count
/// themselves but not the tag, and the body. An announced length under
/// four is refused.
pub open spec fn next_in(bytes: Seq<u8>, expected: usize) -> Next {
    if bytes.len() < 5 {
        Next::Wait
    } else if frame_len(bytes) < 5 {
        Next::Refused
    } else if bytes.len() < frame_len(bytes) {
        Next::Wait
    } else {
        match message_of(bytes.subrange(0, frame_len(bytes)), expected) {
            Some(message) => Next::Message(
                message,
                bytes.subrange(frame_len(bytes), bytes.len() as int),
            ),
            None => Next::Refused,
        }
    }
}

/// Turns one whole frame into plain values.
pub fn decode_message(frame: &[u8], expected: usize) -> (r: Result<BackendMessage, std::io::Error>)
    ensures
        match message_of(frame@, expected) {
            Some(message) => r matches Ok(m) && m@ == message,
            None => r is Err,
        },
{
    let kind = match message_kind(frame) {
        Ok(kind) => kind,
        Err(e) => { return Err(e); },
    };
    match kind {
        MessageKind::AuthenticationSasl => Ok(BackendMessage::AuthenticationSasl),
        MessageKind::AuthenticationCleartextPassword => Ok(
            BackendMessage::AuthenticationCleartextPassword,
        ),
        MessageKind::AuthenticationMd5Password(salt) => Ok(
            BackendMessage::AuthenticationMd5Password(salt),
        ),
        MessageKind::ErrorResponse => Ok(BackendMessage::ErrorResponse(error_fields(frame))),
        MessageKind::ReadyForQuery => Ok(BackendMessage::ReadyForQuery),
        MessageKind::RowDescription => match described_fields(frame) {
            Ok(fields) => Ok(BackendMessage::RowDescription(fields)),
            Err(e) => Err(e),
        },
        MessageKind::DataRow => {
            let limit = if expected < usize::MAX {
                expected + 1
            } else {
                expected
            };
            match row_cells(frame, limit) {
                Ok(cells) => {
                    let mut cells = cells;
                    let more = cells.len() > expected;
                    let ghost all = row_of(cells@);
                    if more {
                        cells.truncate(expected);
                        assert(row_of(cells@) =~= all.take(expected as int));
                    }
                    Ok(BackendMessage::DataRow(DataRow { cells, more }))
                },
                Err(e) => Err(e),
            }
        },
        MessageKind::NoData => Ok(BackendMessage::NoData),
        MessageKind::Other => Ok(BackendMessage::Other),
    }
}

/// Takes the first message off the received bytes, if they hold a whole
/// one, and turns it into plain values. A message that is refused stays
/// where it is.
pub fn next_message(buf: &mut Vec<u8>, expected: usize) -> (r: Result<
    Option<BackendMessage>,
    std::io::Error,
>)
    ensures
        match next_in(old(buf)@, expected) {
            Next::Wait => r matches Ok(None) && final(buf)@ == old(buf)@,
            Next::Refused => r is Err && final(buf)@ == old(buf)@,
            Next::Message(message, rest) => r matches Ok(Some(m)) && m@ == message && final(buf)@
                == rest,
        },
{
    let header = match frame_header(buf.as_slice()) {
        Ok(Some(header)) => header,
        Ok(None) => { return Ok(None); },
        Err(e) => { return Err(e); },
    };
    let total = header.1 as usize + 1;
    if buf.len() < total {
        return Ok(None);
    }
    let message = match decode_message(slice_subrange(buf.as_slice(), 0, total), expected) {
        Ok(message) => message,
        Err(e) => { return Err(e); },
    };
    let rest = buf.split_off(total);
    *buf = rest;
    Ok(Some(message))
}

} // verus!
