use crate::bytes::{be_int_at, be_uint_at, lemma_pow256_values, read_int, read_uint};
use crate::error::DbError;
use crate::serial_type::{lemma_serial_type_of_wf, serial_type_of, SerialType};
use crate::text::decode_text;
use crate::varint::{varint_value, varint_width, Varint};
use vstd::prelude::*;
use vstd::slice::{slice_subrange, slice_to_vec};
use vstd::utf8::{decode_utf8, valid_utf8};

verus! {

/// The value of one column of a record.
#[derive(Debug, PartialEq, Eq)]
pub enum RecordValue {
    /// A NULL.
    Null,
    /// An 8-bit integer.
    I8(i8),
    /// A 16-bit integer.
    I16(i16),
    /// A 24-bit integer, sign-extended.
    I24(i32),
    /// A 32-bit integer.
    I32(i32),
    /// A 48-bit integer, sign-extended.
    I48(i64),
    /// A 64-bit integer.
    I64(i64),
    /// A 64-bit IEEE 754 floating point number, as its 64 bits.
    F64(u64),
    /// The integer 0.
    Zero,
    /// The integer 1.
    One,
    /// A blob.
    N12AndEven(Vec<u8>),
    /// Text.
    N13AndOdd(String),
}

/// What a `RecordValue` holds.
pub enum ValueModel {
    Null,
    I8(i8),
    I16(i16),
    I24(i32),
    I32(i32),
    I48(i64),
    I64(i64),
    F64(u64),
    Zero,
    One,
    Blob(Seq<u8>),
    Text(Seq<char>),
}

impl ValueModel {
    /// Whether this is a value of the serial type `st`.
    pub open spec fn has_type(self, st: SerialType) -> bool {
        match st {
            SerialType::Null => self is Null,
            SerialType::I8 => self is I8,
            SerialType::I16 => self is I16,
            SerialType::I24 => self is I24,
            SerialType::I32 => self is I32,
            SerialType::I48 => self is I48,
            SerialType::I64 => self is I64,
            SerialType::F64 => self is F64,
            SerialType::Zero => self is Zero,
            SerialType::One => self is One,
            SerialType::N12AndEven(_) => self is Blob,
            SerialType::N13AndOdd(_) => self is Text,
        }
    }

    /// The integer that a value read from the record's body holds, if it is
    /// one.
    pub open spec fn stored_int(self) -> Option<int> {
        match self {
            ValueModel::I8(x) => Some(x as int),
            ValueModel::I16(x) => Some(x as int),
            ValueModel::I24(x) => Some(x as int),
            ValueModel::I32(x) => Some(x as int),
            ValueModel::I48(x) => Some(x as int),
            ValueModel::I64(x) => Some(x as int),
            _ => None,
        }
    }

    /// The characters of a text value.
    pub open spec fn text(self) -> Option<Seq<char>> {
        match self {
            ValueModel::Text(s) => Some(s),
            _ => None,
        }
    }
}

impl View for RecordValue {
    type V = ValueModel;

    open spec fn view(&self) -> ValueModel {
        match self {
            RecordValue::Null => ValueModel::Null,
            RecordValue::I8(x) => ValueModel::I8(*x),
            RecordValue::I16(x) => ValueModel::I16(*x),
            RecordValue::I24(x) => ValueModel::I24(*x),
            RecordValue::I32(x) => ValueModel::I32(*x),
            RecordValue::I48(x) => ValueModel::I48(*x),
            RecordValue::I64(x) => ValueModel::I64(*x),
            RecordValue::F64(x) => ValueModel::F64(*x),
            RecordValue::Zero => ValueModel::Zero,
            RecordValue::One => ValueModel::One,
            RecordValue::N12AndEven(b) => ValueModel::Blob(b@),
            RecordValue::N13AndOdd(s) => ValueModel::Text(s@),
        }
    }
}

/// Why `bytes` do not start with a value of the type `st`, if they do not:
/// `st` holds a descriptor that does not stand for it, the bytes are too
/// few, or they should be text and are not UTF-8.
pub open spec fn value_error(st: SerialType, bytes: Seq<u8>) -> Option<DbError> {
    if !st.wf() {
        Some(DbError::Format)
    } else if bytes.len() < st.spec_len() {
        Some(DbError::Bounds)
    } else if st is N13AndOdd && !valid_utf8(bytes.subrange(0, st.spec_len())) {
        Some(DbError::Format)
    } else {
        None
    }
}

/// The value of the type `st` that `bytes` start with.
pub open spec fn value_of(st: SerialType, bytes: Seq<u8>) -> ValueModel {
    match st {
        SerialType::Null => ValueModel::Null,
        SerialType::I8 => ValueModel::I8(be_int_at(bytes, 0, 1) as i8),
        SerialType::I16 => ValueModel::I16(be_int_at(bytes, 0, 2) as i16),
        SerialType::I24 => ValueModel::I24(be_int_at(bytes, 0, 3) as i32),
        SerialType::I32 => ValueModel::I32(be_int_at(bytes, 0, 4) as i32),
        SerialType::I48 => ValueModel::I48(be_int_at(bytes, 0, 6) as i64),
        SerialType::I64 => ValueModel::I64(be_int_at(bytes, 0, 8) as i64),
        SerialType::F64 => ValueModel::F64(be_uint_at(bytes, 0, 8) as u64),
        SerialType::Zero => ValueModel::Zero,
        SerialType::One => ValueModel::One,
        SerialType::N12AndEven(_) => ValueModel::Blob(bytes.subrange(0, st.spec_len())),
        SerialType::N13AndOdd(_) => ValueModel::Text(
            decode_utf8(bytes.subrange(0, st.spec_len())),
        ),
    }
}

impl RecordValue {
    /// Decodes the value of the type `st` that `bytes` start with, and says
    /// how many bytes it took.
    pub fn parse(st: &SerialType, bytes: &[u8]) -> (r: Result<(RecordValue, usize), DbError>)
        ensures
            r is Ok <==> value_error(*st, bytes@) is None,
            r matches Ok((v, n)) ==> v@ == value_of(*st, bytes@) && n == st.spec_len()
                && v@.has_type(*st),
            r matches Err(e) ==> value_error(*st, bytes@) == Some(e),
    {
        match st {
            SerialType::N12AndEven(n) => {
                if n.0 < 12 || n.0 as u64 % 2 != 0 {
                    return Err(DbError::Format);
                }
            },
            SerialType::N13AndOdd(n) => {
                if n.0 < 13 || n.0 as u64 % 2 != 1 {
                    return Err(DbError::Format);
                }
            },
            _ => {},
        }
        let len = match st.len_within(bytes.len()) {
            Some(len) => len,
            None => {
                return Err(DbError::Bounds);
            },
        };
        proof {
            lemma_pow256_values();
        }
        match st {
            SerialType::Null => Ok((RecordValue::Null, 0)),
            SerialType::Zero => Ok((RecordValue::Zero, 0)),
            SerialType::One => Ok((RecordValue::One, 0)),
            SerialType::I8 => Ok((RecordValue::I8(read_int(bytes, 0, 1) as i8), 1)),
            SerialType::I16 => Ok((RecordValue::I16(read_int(bytes, 0, 2) as i16), 2)),
            SerialType::I24 => Ok((RecordValue::I24(read_int(bytes, 0, 3) as i32), 3)),
            SerialType::I32 => Ok((RecordValue::I32(read_int(bytes, 0, 4) as i32), 4)),
            SerialType::I48 => Ok((RecordValue::I48(read_int(bytes, 0, 6)), 6)),
            SerialType::I64 => Ok((RecordValue::I64(read_int(bytes, 0, 8)), 8)),
            SerialType::F64 => Ok((RecordValue::F64(read_uint(bytes, 0, 8)), 8)),
            SerialType::N12AndEven(_) => {
                let val = slice_to_vec(slice_subrange(bytes, 0, len));
                Ok((RecordValue::N12AndEven(val), len))
            },
            SerialType::N13AndOdd(_) => {
                match decode_text(slice_subrange(bytes, 0, len)) {
                    Some(val) => Ok((RecordValue::N13AndOdd(val), len)),
                    None => Err(DbError::Format),
                }
            },
        }
    }
}

/// A record: the header, which lists the serial type of each column, and the
/// value of each column.
#[derive(Debug, PartialEq, Eq)]
pub struct Record {
    /// The length of the record's header in bytes, its own bytes included.
    pub header_len: Varint,
    /// The serial type of each column.
    pub serial_types: Vec<SerialType>,
    /// The value of each column, in the order of the serial types.
    pub values: Vec<RecordValue>,
}

/// What a `Record` holds.
pub struct RecordModel {
    pub header_len: int,
    pub serial_types: Seq<SerialType>,
    pub values: Seq<ValueModel>,
}

/// What each of `values` holds.
pub open spec fn values_view(values: Seq<RecordValue>) -> Seq<ValueModel> {
    Seq::new(values.len(), |i: int| values[i]@)
}

impl RecordModel {
    /// Whether there is one value for each serial type, of that type.
    pub open spec fn wf(self) -> bool {
        &&& self.values.len() == self.serial_types.len()
        &&& forall|i: int|
            0 <= i < self.serial_types.len() ==> (#[trigger] self.serial_types[i]).wf()
        &&& forall|i: int|
            0 <= i < self.values.len() ==> (#[trigger] self.values[i]).has_type(
                self.serial_types[i],
            )
    }
}

impl View for Record {
    type V = RecordModel;

    open spec fn view(&self) -> RecordModel {
        RecordModel {
            header_len: self.header_len.0 as int,
            serial_types: self.serial_types@,
            values: values_view(self.values@),
        }
    }
}

/// `front` before what `rest` gives, where it gives something.
pub open spec fn types_after(front: Seq<SerialType>, rest: Result<Seq<SerialType>, DbError>)
    -> Result<Seq<SerialType>, DbError> {
    match rest {
        Ok(s) => Ok(front + s),
        Err(e) => Err(e),
    }
}

/// The serial types that the descriptors from `pos` up to `end` stand for.
/// It is an error for a descriptor to run past the end of `bytes`, to run
/// past `end`, or to stand for no serial type.
pub open spec fn serial_types_from(bytes: Seq<u8>, pos: int, end: int) -> Result<
    Seq<SerialType>,
    DbError,
>
    decreases end - pos,
{
    if pos >= end || pos < 0 {
        Ok(Seq::empty())
    } else {
        let rest = bytes.subrange(pos, bytes.len() as int);
        let w = varint_width(rest);
        if pos > bytes.len() || w > rest.len() {
            Err(DbError::Bounds)
        } else if pos + w > end {
            Err(DbError::Format)
        } else {
            match serial_type_of(varint_value(rest) as i64) {
                None => Err(DbError::Format),
                Some(st) => types_after(seq![st], serial_types_from(bytes, pos + w, end)),
            }
        }
    }
}

/// `front` before what `rest` gives, where it gives something.
pub open spec fn values_after(front: Seq<ValueModel>, rest: Result<(Seq<ValueModel>, int), DbError>)
    -> Result<(Seq<ValueModel>, int), DbError> {
    match rest {
        Ok((s, end)) => Ok((front + s, end)),
        Err(e) => Err(e),
    }
}

/// The values of the columns from the `i`-th on, the first of them at
/// `pos`, and the offset at which the last one ends. It is an error for a
/// value to run past the end of `bytes`, and for text not to be UTF-8.
pub open spec fn values_from(bytes: Seq<u8>, pos: int, types: Seq<SerialType>, i: int) -> Result<
    (Seq<ValueModel>, int),
    DbError,
>
    decreases types.len() - i,
{
    if i >= types.len() || i < 0 {
        Ok((Seq::empty(), pos))
    } else {
        let st = types[i];
        if pos + st.spec_len() > bytes.len() {
            Err(DbError::Bounds)
        } else {
            let chunk = bytes.subrange(pos, pos + st.spec_len());
            match value_error(st, chunk) {
                Some(e) => Err(e),
                None => values_after(
                    seq![value_of(st, chunk)],
                    values_from(bytes, pos + st.spec_len(), types, i + 1),
                ),
            }
        }
    }
}

/// The record that `bytes` start with, and its length in bytes.
pub open spec fn parse_record(bytes: Seq<u8>) -> Result<(RecordModel, int), DbError> {
    let w = varint_width(bytes);
    if w > bytes.len() {
        Err(DbError::Bounds)
    } else {
        let header_len = varint_value(bytes);
        if header_len < w {
            Err(DbError::Format)
        } else {
            match serial_types_from(bytes, w, header_len) {
                Err(e) => Err(e),
                Ok(types) => match values_from(bytes, header_len, types, 0) {
                    Err(e) => Err(e),
                    Ok((values, end)) => Ok(
                        (RecordModel { header_len, serial_types: types, values }, end),
                    ),
                },
            }
        }
    }
}

impl Record {
    /// Decodes the record that `bytes` start with, and says how many bytes it
    /// took.
    #[verifier::loop_isolation(false)]
    pub fn parse(bytes: &[u8]) -> (r: Result<(Record, usize), DbError>)
        ensures
            r is Ok <==> parse_record(bytes@) is Ok,
            r matches Ok((rec, n)) ==> parse_record(bytes@) == Ok::<(RecordModel, int), DbError>(
                (rec@, n as int),
            ) && rec@.wf() && n <= bytes@.len(),
            r matches Err(e) ==> parse_record(bytes@) == Err::<(RecordModel, int), DbError>(e),
    {
        let (header_len, w) = Varint::parse(bytes)?;
        if header_len.0 < w as i64 {
            return Err(DbError::Format);
        }
        let end: u64 = header_len.0 as u64;
        let mut pos: usize = w;
        let mut serial_types: Vec<SerialType> = Vec::new();
        while (pos as u64) < end
            invariant
                w <= pos <= bytes.len(),
                pos <= end || serial_types_from(bytes@, pos as int, end as int) is Err,
                serial_types_from(bytes@, w as int, end as int) == types_after(
                    serial_types@,
                    serial_types_from(bytes@, pos as int, end as int),
                ),
                forall|i: int| 0 <= i < serial_types@.len() ==> (#[trigger] serial_types@[i]).wf(),
            decreases bytes.len() - pos,
        {
            let rest = slice_subrange(bytes, pos, bytes.len());
            let (code, n) = Varint::parse(rest)?;
            if n as u64 > end - pos as u64 {
                return Err(DbError::Format);
            }
            let st = SerialType::try_from(code)?;
            proof {
                lemma_serial_type_of_wf(code.0);
                let tail = serial_types_from(bytes@, pos + n, end as int);
                if let Ok(t) = tail {
                    assert(serial_types@.push(st) + t =~= serial_types@ + (seq![st] + t));
                }
            }
            serial_types.push(st);
            pos += n;
        }
        assert(serial_types_from(bytes@, w as int, end as int) == Ok::<Seq<SerialType>, DbError>(
            serial_types@,
        )) by {
            assert(serial_types@ + Seq::<SerialType>::empty() =~= serial_types@);
        }
        let ghost body = pos as int;
        let mut values: Vec<RecordValue> = Vec::new();
        let mut i: usize = 0;
        while i < serial_types.len()
            invariant
                i <= serial_types.len(),
                values.len() == i,
                body <= pos <= bytes.len(),
                forall|k: int| 0 <= k < serial_types@.len() ==> (#[trigger] serial_types@[k]).wf(),
                forall|k: int|
                    0 <= k < i ==> (#[trigger] values_view(values@)[k]).has_type(serial_types@[k]),
                values_from(bytes@, body, serial_types@, 0) == values_after(
                    values_view(values@),
                    values_from(bytes@, pos as int, serial_types@, i as int),
                ),
            decreases serial_types.len() - i,
        {
            let st = serial_types[i];
            let len = match st.len_within(bytes.len() - pos) {
                Some(len) => len,
                None => {
                    return Err(DbError::Bounds);
                },
            };
            let chunk = slice_subrange(bytes, pos, pos + len);
            let (value, n) = RecordValue::parse(&st, chunk)?;
            proof {
                let before = values_view(values@);
                let after = values_view(values@.push(value));
                assert(after =~= before.push(value@));
                let tail = values_from(bytes@, pos + n, serial_types@, i + 1);
                if let Ok((t, _)) = tail {
                    assert(before.push(value@) + t =~= before + (seq![value@] + t));
                }
            }
            values.push(value);
            pos += n;
            i += 1;
        }
        proof {
            assert(values_view(values@) + Seq::<ValueModel>::empty() =~= values_view(values@));
        }
        Ok((Record { header_len, serial_types, values }, pos))
    }
}

} // verus!
