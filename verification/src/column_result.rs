//! Typed column builders and the decoding of binary cells into them.

use crate::endian::be_i32;
use crate::endian::be_i64;
use crate::endian::be_u64;
use crate::endian::i32_of_be;
use crate::endian::i64_of_be;
use crate::endian::u64_of_be;
use crate::error::PgToPlError;
use crate::error::PgToPlResult;
use crate::text::text_from_utf8;
use crate::text::text_of;
use crate::text_array::parse_text_array;
use crate::text_array::text_array;
use crate::text_array::texts_of;
use crate::text_array::PayloadFault;
use vstd::prelude::*;
use vstd::slice::slice_to_vec;

verus! {

/// Days from 1970-01-01 to 2000-01-01.
pub const EPOCH_SHIFT_DAYS: i32 = 10957;

/// Microseconds from 1970-01-01 to 2000-01-01.
pub const EPOCH_SHIFT_MICROS: i64 = 946_684_800_000_000;

/// A named vector of optional values.
pub struct ColumnResult<T> {
    /// The name of the column.
    pub name: String,
    /// The cells, one for each row.
    pub data: Vec<Option<T>>,
}

/// `Vec::capacity`: how many elements the vector can hold without
/// allocating again. Nothing is claimed of the number.
#[verifier::external_body]
fn capacity_of<T>(v: &Vec<Option<T>>) -> (r: usize) {
    v.capacity()
}

impl<T> ColumnResult<T> {
    /// An empty column called `name`.
    pub fn new(name: String) -> (r: Self)
        ensures
            r.name == name,
            r.data@ == Seq::<Option<T>>::empty(),
    {
        ColumnResult { name, data: Vec::with_capacity(1024) }
    }

    /// Appends a present value.
    pub fn push(&mut self, value: T)
        ensures
            final(self).name == old(self).name,
            final(self).data@ == old(self).data@.push(Some(value)),
    {
        self.data.push(Some(value));
        self.extend_vec();
    }

    /// Appends an absent value.
    pub fn push_null(&mut self)
        ensures
            final(self).name == old(self).name,
            final(self).data@ == old(self).data@.push(None),
    {
        self.data.push(None);
        self.extend_vec();
    }

    /// Makes room for another block of values once the vector is full.
    fn extend_vec(&mut self)
        ensures
            final(self).name == old(self).name,
            final(self).data@ == old(self).data@,
    {
        if self.data.len() == capacity_of(&self.data) {
            self.data.reserve(1024);
        }
    }
}

/// The kinds of column builder.
#[derive(Debug, Clone, Copy, PartialEq, Eq, Structural)]
pub enum ColumnKind {
    /// 32-bit signed integers.
    Ints,
    /// UTF-8 texts.
    Texts,
    /// Truth values.
    Bools,
    /// Days since 1970-01-01.
    Dates,
    /// Lists of optional texts.
    TextArray,
    /// Microseconds since 1970-01-01 in UTC.
    Timestamps,
    /// Double-precision numbers, as IEEE-754 bit patterns.
    Doubles,
    /// Microseconds since 1970-01-01 on the wall clock.
    TimestampsWtz,
    /// Microseconds since midnight.
    Times,
    /// Raw bytes.
    Bytes,
}

/// The logical type that a finished column is given.
#[derive(Debug, Clone, Copy, PartialEq, Eq, Structural)]
pub enum SeriesType {
    /// 32-bit signed integers, as they are.
    Int32,
    /// Texts, as they are.
    Text,
    /// Truth values, as they are.
    Boolean,
    /// Calendar dates, from days since 1970-01-01.
    Date,
    /// Lists of texts.
    TextList,
    /// Points in time, from microseconds since 1970-01-01.
    DatetimeMicros,
    /// Double-precision numbers, from their bit patterns.
    Double,
    /// Times of day, from microseconds since midnight.
    Time,
    /// Raw bytes, as they are.
    Binary,
}

/// A column builder of one of the supported kinds; each variant is
/// described at the `ColumnKind` of the same name.
pub enum ColumnStorage {
    Ints(ColumnResult<i32>),
    Texts(ColumnResult<String>),
    Bools(ColumnResult<bool>),
    Dates(ColumnResult<i32>),
    TextArray(ColumnResult<Vec<Option<String>>>),
    Timestamps(ColumnResult<i64>),
    Doubles(ColumnResult<u64>),
    TimestampsWtz(ColumnResult<i64>),
    Times(ColumnResult<i64>),
    Bytes(ColumnResult<Vec<u8>>),
}

/// One cell of a column.
pub enum Cell {
    /// No value.
    Null,
    /// A 32-bit integer: a number or a count of days.
    Int4(i32),
    /// A 64-bit integer: a count of microseconds.
    Int8(i64),
    /// The bit pattern of a double-precision number.
    Bits(u64),
    /// A text.
    Text(Seq<char>),
    /// A truth value.
    Bool(bool),
    /// A list of optional texts.
    Texts(Seq<Option<Seq<char>>>),
    /// Raw bytes.
    Bytes(Seq<u8>),
}

/// What a column builder stands for: its name, its kind and its cells.
pub struct ColumnView {
    /// The name of the column.
    pub name: Seq<char>,
    /// The kind of the builder.
    pub kind: ColumnKind,
    /// The cells, one for each row.
    pub cells: Seq<Cell>,
}

/// The cell of an optional 32-bit integer.
pub open spec fn int4_cell(v: Option<i32>) -> Cell {
    match v {
        Some(x) => Cell::Int4(x),
        None => Cell::Null,
    }
}

/// The cell of an optional 64-bit integer.
pub open spec fn int8_cell(v: Option<i64>) -> Cell {
    match v {
        Some(x) => Cell::Int8(x),
        None => Cell::Null,
    }
}

/// The cell of an optional bit pattern.
pub open spec fn bits_cell(v: Option<u64>) -> Cell {
    match v {
        Some(x) => Cell::Bits(x),
        None => Cell::Null,
    }
}

/// The cell of an optional truth value.
pub open spec fn bool_cell(v: Option<bool>) -> Cell {
    match v {
        Some(x) => Cell::Bool(x),
        None => Cell::Null,
    }
}

/// The cell of an optional text.
pub open spec fn text_cell(v: Option<String>) -> Cell {
    match v {
        Some(x) => Cell::Text(x@),
        None => Cell::Null,
    }
}

/// The cell of an optional list of optional texts.
pub open spec fn texts_cell(v: Option<Vec<Option<String>>>) -> Cell {
    match v {
        Some(x) => Cell::Texts(texts_of(x@)),
        None => Cell::Null,
    }
}

/// The cell of optional raw bytes.
pub open spec fn bytes_cell(v: Option<Vec<u8>>) -> Cell {
    match v {
        Some(x) => Cell::Bytes(x@),
        None => Cell::Null,
    }
}

impl View for ColumnStorage {
    type V = ColumnView;

    open spec fn view(&self) -> ColumnView {
        match self {
            ColumnStorage::Ints(c) => ColumnView {
                name: c.name@,
                kind: ColumnKind::Ints,
                cells: c.data@.map_values(|v| int4_cell(v)),
            },
            ColumnStorage::Texts(c) => ColumnView {
                name: c.name@,
                kind: ColumnKind::Texts,
                cells: c.data@.map_values(|v| text_cell(v)),
            },
            ColumnStorage::Bools(c) => ColumnView {
                name: c.name@,
                kind: ColumnKind::Bools,
                cells: c.data@.map_values(|v| bool_cell(v)),
            },
            ColumnStorage::Dates(c) => ColumnView {
                name: c.name@,
                kind: ColumnKind::Dates,
                cells: c.data@.map_values(|v| int4_cell(v)),
            },
            ColumnStorage::TextArray(c) => ColumnView {
                name: c.name@,
                kind: ColumnKind::TextArray,
                cells: c.data@.map_values(|v| texts_cell(v)),
            },
            ColumnStorage::Timestamps(c) => ColumnView {
                name: c.name@,
                kind: ColumnKind::Timestamps,
                cells: c.data@.map_values(|v| int8_cell(v)),
            },
            ColumnStorage::Doubles(c) => ColumnView {
                name: c.name@,
                kind: ColumnKind::Doubles,
                cells: c.data@.map_values(|v| bits_cell(v)),
            },
            ColumnStorage::TimestampsWtz(c) => ColumnView {
                name: c.name@,
                kind: ColumnKind::TimestampsWtz,
                cells: c.data@.map_values(|v| int8_cell(v)),
            },
            ColumnStorage::Times(c) => ColumnView {
                name: c.name@,
                kind: ColumnKind::Times,
                cells: c.data@.map_values(|v| int8_cell(v)),
            },
            ColumnStorage::Bytes(c) => ColumnView {
                name: c.name@,
                kind: ColumnKind::Bytes,
                cells: c.data@.map_values(|v| bytes_cell(v)),
            },
        }
    }
}

/// What the server says of one result column.
#[derive(Debug, Clone)]
pub struct FieldDescription {
    /// The name of the column.
    pub name: String,
    /// The identifier of the column's type.
    pub type_oid: u32,
    /// The format code of the column's values.
    pub format: i16,
}

/// The builder kind for a type identifier; unknown types keep their bytes.
pub open spec fn kind_of_oid(oid: u32) -> ColumnKind {
    if oid == 23 {
        ColumnKind::Ints
    } else if oid == 25 || oid == 1043 {
        ColumnKind::Texts
    } else if oid == 16 {
        ColumnKind::Bools
    } else if oid == 1082 {
        ColumnKind::Dates
    } else if oid == 1009 {
        ColumnKind::TextArray
    } else if oid == 1184 {
        ColumnKind::Timestamps
    } else if oid == 701 {
        ColumnKind::Doubles
    } else if oid == 1114 {
        ColumnKind::TimestampsWtz
    } else if oid == 1083 {
        ColumnKind::Times
    } else {
        ColumnKind::Bytes
    }
}

/// `days` counted from 2000-01-01, counted from 1970-01-01 instead; none
/// where that count does not fit in 32 bits.
pub open spec fn shifted_days(days: i32) -> Option<i32> {
    if days + EPOCH_SHIFT_DAYS > i32::MAX {
        None
    } else {
        Some((days + EPOCH_SHIFT_DAYS) as i32)
    }
}

/// `micros` counted from 2000-01-01, counted from 1970-01-01 instead;
/// none where that count does not fit in 64 bits.
pub open spec fn shifted_micros(micros: i64) -> Option<i64> {
    if micros + EPOCH_SHIFT_MICROS > i64::MAX {
        None
    } else {
        Some((micros + EPOCH_SHIFT_MICROS) as i64)
    }
}

/// The cell that a raw value makes in a column of the given kind. An
/// absent value is null, and so is a value that cannot be decoded: one
/// whose width is not the fixed width of the kind, a date or a point in
/// time whose count from 1970-01-01 leaves the range of its integer, and
/// a text that is not well-formed UTF-8. Only an array that cannot be
/// read is a fault.
pub open spec fn decode_cell(kind: ColumnKind, value: Option<Seq<u8>>) -> Result<
    Cell,
    PayloadFault,
> {
    match value {
        None => Ok(Cell::Null),
        Some(b) => match kind {
            ColumnKind::Ints => if b.len() == 4 {
                Ok(Cell::Int4(be_i32(b) as i32))
            } else {
                Ok(Cell::Null)
            },
            ColumnKind::Texts => Ok(
                match text_of(b) {
                    Some(text) => Cell::Text(text),
                    None => Cell::Null,
                },
            ),
            ColumnKind::Bools => if b.len() == 1 {
                Ok(Cell::Bool(b[0] != 0))
            } else {
                Ok(Cell::Null)
            },
            ColumnKind::Dates => if b.len() == 4 {
                Ok(int4_cell(shifted_days(be_i32(b) as i32)))
            } else {
                Ok(Cell::Null)
            },
            ColumnKind::TextArray => match text_array(b) {
                Ok(items) => Ok(Cell::Texts(items)),
                Err(f) => Err(f),
            },
            ColumnKind::Timestamps => if b.len() == 8 {
                Ok(int8_cell(shifted_micros(be_i64(b) as i64)))
            } else {
                Ok(Cell::Null)
            },
            ColumnKind::Doubles => if b.len() == 8 {
                Ok(Cell::Bits(be_u64(b) as u64))
            } else {
                Ok(Cell::Null)
            },
            ColumnKind::TimestampsWtz => if b.len() == 8 {
                Ok(int8_cell(shifted_micros(be_i64(b) as i64)))
            } else {
                Ok(Cell::Null)
            },
            ColumnKind::Times => if b.len() == 8 {
                Ok(Cell::Int8(be_i64(b) as i64))
            } else {
                Ok(Cell::Null)
            },
            ColumnKind::Bytes => Ok(Cell::Bytes(b)),
        },
    }
}

/// The bytes of an optional slice.
pub open spec fn raw_of(value: Option<&[u8]>) -> Option<Seq<u8>> {
    match value {
        Some(b) => Some(b@),
        None => None,
    }
}

/// The error `e` is the one that reports the fault `f`.
pub open spec fn reports(e: PgToPlError, f: PayloadFault) -> bool {
    match f {
        PayloadFault::Dimensions => e is OnlyOneDimensionArraySupported,
        PayloadFault::NotEnoughBytes => e is NotEnoughBytes,
    }
}

/// An empty builder for a described result column.
pub fn column_from_field(field: &FieldDescription) -> (r: ColumnStorage)
    ensures
        r@ == (ColumnView {
            name: field.name@,
            kind: kind_of_oid(field.type_oid),
            cells: Seq::<Cell>::empty(),
        }),
{
    let name = field.name.clone();
    let oid = field.type_oid;
    let r = if oid == 23 {
        ColumnStorage::Ints(ColumnResult::new(name))
    } else if oid == 25 || oid == 1043 {
        ColumnStorage::Texts(ColumnResult::new(name))
    } else if oid == 16 {
        ColumnStorage::Bools(ColumnResult::new(name))
    } else if oid == 1082 {
        ColumnStorage::Dates(ColumnResult::new(name))
    } else if oid == 1009 {
        ColumnStorage::TextArray(ColumnResult::new(name))
    } else if oid == 1184 {
        ColumnStorage::Timestamps(ColumnResult::new(name))
    } else if oid == 701 {
        ColumnStorage::Doubles(ColumnResult::new(name))
    } else if oid == 1114 {
        ColumnStorage::TimestampsWtz(ColumnResult::new(name))
    } else if oid == 1083 {
        ColumnStorage::Times(ColumnResult::new(name))
    } else {
        ColumnStorage::Bytes(ColumnResult::new(name))
    };
    assert(r@.cells =~= Seq::<Cell>::empty());
    r
}

/// Appends one cell to a column: the value decoded for the column's kind,
/// or null where it cannot be decoded. An array that cannot be read is
/// reported and leaves the column as it was.
pub fn push_column_value(column: &mut ColumnStorage, value: Option<&[u8]>) -> (r: PgToPlResult<()>)
    ensures
        match decode_cell(old(column)@.kind, raw_of(value)) {
            Ok(cell) => r is Ok && final(column)@ == (ColumnView {
                cells: old(column)@.cells.push(cell),
                ..old(column)@
            }),
            Err(f) => r matches Err(e) && reports(e, f) && *final(column) == *old(column),
        },
{
    match column {
        ColumnStorage::Ints(col) => match value {
            Some(bytes) if bytes.len() == 4 => {
                let val = i32_of_be(bytes);
                col.push(val);
            },
            _ => col.push_null(),
        },
        ColumnStorage::Texts(col) => match value {
            Some(bytes) => match text_from_utf8(bytes) {
                Some(val) => col.push(val),
                None => col.push_null(),
            },
            _ => col.push_null(),
        },
        ColumnStorage::Bools(col) => match value {
            Some(bytes) if bytes.len() == 1 => col.push(bytes[0] != 0),
            _ => col.push_null(),
        },
        ColumnStorage::Bytes(col) => match value {
            Some(bytes) => col.push(slice_to_vec(bytes)),
            _ => col.push_null(),
        },
        ColumnStorage::Dates(col) => match value {
            Some(bytes) if bytes.len() == 4 => {
                let pg_days = i32_of_be(bytes);
                match pg_days.checked_add(EPOCH_SHIFT_DAYS) {
                    Some(unix_days) => col.push(unix_days),
                    None => col.push_null(),
                }
            },
            _ => col.push_null(),
        },
        ColumnStorage::TextArray(col) => match value {
            Some(bytes) => match parse_text_array(bytes) {
                Ok(val) => col.push(val),
                Err(e) => { return Err(e); },
            },
            _ => col.push_null(),
        },
        ColumnStorage::Timestamps(col) => match value {
            Some(bytes) if bytes.len() == 8 => {
                let pg_microseconds = i64_of_be(bytes);
                match pg_microseconds.checked_add(EPOCH_SHIFT_MICROS) {
                    Some(unix_microseconds) => col.push(unix_microseconds),
                    None => col.push_null(),
                }
            },
            _ => col.push_null(),
        },
        ColumnStorage::Doubles(col) => match value {
            Some(bytes) if bytes.len() == 8 => {
                let bits = u64_of_be(bytes);
                col.push(bits);
            },
            _ => col.push_null(),
        },
        ColumnStorage::TimestampsWtz(col) => match value {
            Some(bytes) if bytes.len() == 8 => {
                let micros_pg_epoch = i64_of_be(bytes);
                match micros_pg_epoch.checked_add(EPOCH_SHIFT_MICROS) {
                    Some(micros_unix_epoch) => col.push(micros_unix_epoch),
                    None => col.push_null(),
                }
            },
            _ => col.push_null(),
        },
        ColumnStorage::Times(col) => match value {
            Some(bytes) if bytes.len() == 8 => {
                let micros_since_midnight = i64_of_be(bytes);
                col.push(micros_since_midnight);
            },
            _ => col.push_null(),
        },
    }
    proof {
        let cell = decode_cell(old(column)@.kind, raw_of(value))->Ok_0;
        assert(column@.cells =~= old(column)@.cells.push(cell));
    }
    Ok(())
}

/// The logical type that finishing gives a column of the given kind.
pub open spec fn series_type_of(kind: ColumnKind) -> SeriesType {
    match kind {
        ColumnKind::Ints => SeriesType::Int32,
        ColumnKind::Texts => SeriesType::Text,
        ColumnKind::Bools => SeriesType::Boolean,
        ColumnKind::Dates => SeriesType::Date,
        ColumnKind::TextArray => SeriesType::TextList,
        ColumnKind::Timestamps => SeriesType::DatetimeMicros,
        ColumnKind::Doubles => SeriesType::Double,
        ColumnKind::TimestampsWtz => SeriesType::DatetimeMicros,
        ColumnKind::Times => SeriesType::Time,
        ColumnKind::Bytes => SeriesType::Binary,
    }
}

/// The column with its cells taken out.
pub open spec fn emptied(c: ColumnView) -> ColumnView {
    ColumnView { cells: Seq::<Cell>::empty(), ..c }
}

/// What a list of column builders stands for.
pub open spec fn views_of(columns: Seq<ColumnStorage>) -> Seq<ColumnView> {
    Seq::new(columns.len(), |i: int| columns[i]@)
}

/// The column with one more cell at its end.
pub open spec fn extended(c: ColumnView, cell: Cell) -> ColumnView {
    ColumnView { cells: c.cells.push(cell), ..c }
}

/// The payloads that a row of optional byte vectors holds.
pub open spec fn row_of(cells: Seq<Option<Vec<u8>>>) -> Seq<Option<Seq<u8>>> {
    Seq::new(
        cells.len(),
        |i: int|
            match cells[i] {
                Some(b) => Some(b@),
                None => None,
            },
    )
}

/// The first column at or after `from` whose cell of `row` is an array
/// that cannot be read, or the number of columns if there is none.
pub open spec fn first_fault(columns: Seq<ColumnView>, row: Seq<Option<Seq<u8>>>, from: int) -> int
    decreases columns.len() - from,
{
    if from < 0 || from >= columns.len() {
        columns.len() as int
    } else if decode_cell(columns[from].kind, row[from]) is Err {
        from
    } else {
        first_fault(columns, row, from + 1)
    }
}

impl ColumnStorage {
    /// The kind of this builder.
    pub fn kind(&self) -> (r: ColumnKind)
        ensures
            r == self@.kind,
    {
        match self {
            ColumnStorage::Ints(_) => ColumnKind::Ints,
            ColumnStorage::Texts(_) => ColumnKind::Texts,
            ColumnStorage::Bools(_) => ColumnKind::Bools,
            ColumnStorage::Dates(_) => ColumnKind::Dates,
            ColumnStorage::TextArray(_) => ColumnKind::TextArray,
            ColumnStorage::Timestamps(_) => ColumnKind::Timestamps,
            ColumnStorage::Doubles(_) => ColumnKind::Doubles,
            ColumnStorage::TimestampsWtz(_) => ColumnKind::TimestampsWtz,
            ColumnStorage::Times(_) => ColumnKind::Times,
            ColumnStorage::Bytes(_) => ColumnKind::Bytes,
        }
    }

    /// The name of this builder.
    pub fn name(&self) -> (r: &String)
        ensures
            r@ == self@.name,
    {
        match self {
            ColumnStorage::Ints(c) => &c.name,
            ColumnStorage::Texts(c) => &c.name,
            ColumnStorage::Bools(c) => &c.name,
            ColumnStorage::Dates(c) => &c.name,
            ColumnStorage::TextArray(c) => &c.name,
            ColumnStorage::Timestamps(c) => &c.name,
            ColumnStorage::Doubles(c) => &c.name,
            ColumnStorage::TimestampsWtz(c) => &c.name,
            ColumnStorage::Times(c) => &c.name,
            ColumnStorage::Bytes(c) => &c.name,
        }
    }

    /// The number of cells in this builder.
    pub fn len(&self) -> (r: usize)
        ensures
            r == self@.cells.len(),
    {
        match self {
            ColumnStorage::Ints(c) => c.data.len(),
            ColumnStorage::Texts(c) => c.data.len(),
            ColumnStorage::Bools(c) => c.data.len(),
            ColumnStorage::Dates(c) => c.data.len(),
            ColumnStorage::TextArray(c) => c.data.len(),
            ColumnStorage::Timestamps(c) => c.data.len(),
            ColumnStorage::Doubles(c) => c.data.len(),
            ColumnStorage::TimestampsWtz(c) => c.data.len(),
            ColumnStorage::Times(c) => c.data.len(),
            ColumnStorage::Bytes(c) => c.data.len(),
        }
    }

    /// An empty builder of the same name and kind.
    pub fn empty_like(&self) -> (r: ColumnStorage)
        ensures
            r@ == emptied(self@),
    {
        let r = match self {
            ColumnStorage::Ints(c) => ColumnStorage::Ints(ColumnResult::new(c.name.clone())),
            ColumnStorage::Texts(c) => ColumnStorage::Texts(ColumnResult::new(c.name.clone())),
            ColumnStorage::Bools(c) => ColumnStorage::Bools(ColumnResult::new(c.name.clone())),
            ColumnStorage::Dates(c) => ColumnStorage::Dates(ColumnResult::new(c.name.clone())),
            ColumnStorage::TextArray(c) => ColumnStorage::TextArray(
                ColumnResult::new(c.name.clone()),
            ),
            ColumnStorage::Timestamps(c) => ColumnStorage::Timestamps(
                ColumnResult::new(c.name.clone()),
            ),
            ColumnStorage::Doubles(c) => ColumnStorage::Doubles(ColumnResult::new(c.name.clone())),
            ColumnStorage::TimestampsWtz(c) => ColumnStorage::TimestampsWtz(
                ColumnResult::new(c.name.clone()),
            ),
            ColumnStorage::Times(c) => ColumnStorage::Times(ColumnResult::new(c.name.clone())),
            ColumnStorage::Bytes(c) => ColumnStorage::Bytes(ColumnResult::new(c.name.clone())),
        };
        assert(r@.cells =~= Seq::<Cell>::empty());
        r
    }

    /// The logical type that the finished column is to be given.
    pub fn series_type(&self) -> (r: SeriesType)
        ensures
            r == series_type_of(self@.kind),
    {
        match self {
            ColumnStorage::Ints(_) => SeriesType::Int32,
            ColumnStorage::Texts(_) => SeriesType::Text,
            ColumnStorage::Bools(_) => SeriesType::Boolean,
            ColumnStorage::Dates(_) => SeriesType::Date,
            ColumnStorage::TextArray(_) => SeriesType::TextList,
            ColumnStorage::Timestamps(_) => SeriesType::DatetimeMicros,
            ColumnStorage::Doubles(_) => SeriesType::Double,
            ColumnStorage::TimestampsWtz(_) => SeriesType::DatetimeMicros,
            ColumnStorage::Times(_) => SeriesType::Time,
            ColumnStorage::Bytes(_) => SeriesType::Binary,
        }
    }
}

/// Empty builders with the names and kinds of `columns`, in order.
pub fn clone_storages(columns: &Vec<ColumnStorage>) -> (r: Vec<ColumnStorage>)
    ensures
        r@.len() == columns@.len(),
        forall|i: int| 0 <= i < r@.len() ==> (#[trigger] r@[i])@ == emptied(columns@[i]@),
{
    let mut out: Vec<ColumnStorage> = Vec::new();
    let mut i: usize = 0;
    while i < columns.len()
        invariant
            i <= columns.len(),
            out@.len() == i,
            forall|j: int| 0 <= j < i ==> (#[trigger] out@[j])@ == emptied(columns@[j]@),
        decreases columns.len() - i,
    {
        out.push(columns[i].empty_like());
        i = i + 1;
    }
    out
}

/// Empty builders for the described result columns, in order.
pub fn columns_from_fields(fields: &Vec<FieldDescription>) -> (r: Vec<ColumnStorage>)
    ensures
        r@.len() == fields@.len(),
        forall|i: int|
            0 <= i < r@.len() ==> (#[trigger] r@[i])@ == (ColumnView {
                name: fields@[i].name@,
                kind: kind_of_oid(fields@[i].type_oid),
                cells: Seq::<Cell>::empty(),
            }),
{
    let mut out: Vec<ColumnStorage> = Vec::new();
    let mut i: usize = 0;
    while i < fields.len()
        invariant
            i <= fields.len(),
            out@.len() == i,
            forall|j: int|
                0 <= j < i ==> (#[trigger] out@[j])@ == (ColumnView {
                    name: fields@[j].name@,
                    kind: kind_of_oid(fields@[j].type_oid),
                    cells: Seq::<Cell>::empty(),
                }),
        decreases fields.len() - i,
    {
        out.push(column_from_field(&fields[i]));
        i = i + 1;
    }
    out
}

/// Appends one row: cell `i` of the row goes to column `i`. A row that is
/// shorter or longer than the list of columns is refused and nothing is
/// appended. Otherwise the cells are appended in order up to the first
/// array that cannot be read, which is reported.
pub fn push_row(columns: &mut Vec<ColumnStorage>, cells: &Vec<Option<Vec<u8>>>) -> (r:
    PgToPlResult<()>)
    ensures
        final(columns)@.len() == old(columns)@.len(),
        cells@.len() < old(columns)@.len() ==> *final(columns) == *old(columns) && r == Err::<
            (),
            PgToPlError,
        >(PgToPlError::TooFewField(cells.len(), old(columns).len())),
        cells@.len() > old(columns)@.len() ==> *final(columns) == *old(columns) && r == Err::<
            (),
            PgToPlError,
        >(PgToPlError::TooManyField(old(columns).len())),
        cells@.len() == old(columns)@.len() ==> {
            let stop = first_fault(views_of(old(columns)@), row_of(cells@), 0);
            &&& forall|i: int|
                0 <= i < stop ==> (#[trigger] final(columns)@[i])@ == extended(
                    old(columns)@[i]@,
                    decode_cell(old(columns)@[i]@.kind, row_of(cells@)[i])->Ok_0,
                )
            &&& forall|i: int|
                stop <= i < old(columns)@.len() ==> #[trigger] final(columns)@[i] == old(
                    columns,
                )@[i]
            &&& r is Ok <==> stop == old(columns)@.len()
            &&& r matches Err(e) ==> reports(
                e,
                decode_cell(old(columns)@[stop]@.kind, row_of(cells@)[stop])->Err_0,
            )
        },
{
    let n = columns.len();
    if cells.len() < n {
        return Err(PgToPlError::TooFewField(cells.len(), n));
    }
    if cells.len() > n {
        return Err(PgToPlError::TooManyField(n));
    }
    let mut i: usize = 0;
    while i < n
        invariant
            i <= n,
            n == columns@.len(),
            n == old(columns)@.len(),
            n == cells@.len(),
            first_fault(views_of(old(columns)@), row_of(cells@), i as int) == first_fault(
                views_of(old(columns)@),
                row_of(cells@),
                0,
            ),
            forall|j: int|
                0 <= j < i ==> (#[trigger] columns@[j])@ == extended(
                    old(columns)@[j]@,
                    decode_cell(old(columns)@[j]@.kind, row_of(cells@)[j])->Ok_0,
                ),
            forall|j: int| i <= j < n ==> #[trigger] columns@[j] == old(columns)@[j],
        decreases n - i,
    {
        let ghost before = columns@;
        let value: Option<&[u8]> = match &cells[i] {
            Some(b) => Some(b.as_slice()),
            None => None,
        };
        assert(raw_of(value) == row_of(cells@)[i as int]);
        let step = push_column_value(&mut columns[i], value);
        assert(forall|j: int| 0 <= j < n && j != i ==> columns@[j] == before[j]);
        match step {
            Ok(()) => {},
            Err(e) => {
                return Err(e);
            },
        }
        i = i + 1;
    }
    Ok(())
}

} // verus!
