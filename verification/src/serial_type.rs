use crate::error::DbError;
use crate::varint::Varint;
use vstd::prelude::*;
use vstd::std_specs::convert::TryFromSpecImpl;

verus! {

/// How one column of a record is stored.
#[derive(Clone, Copy, Debug, PartialEq, Eq)]
pub enum SerialType {
    /// A NULL; no content.
    Null,
    /// An 8-bit two's complement integer.
    I8,
    /// A big-endian 16-bit two's complement integer.
    I16,
    /// A big-endian 24-bit two's complement integer.
    I24,
    /// A big-endian 32-bit two's complement integer.
    I32,
    /// A big-endian 48-bit two's complement integer.
    I48,
    /// A big-endian 64-bit two's complement integer.
    I64,
    /// A big-endian 64-bit IEEE 754 floating point number.
    F64,
    /// The integer 0; no content.
    Zero,
    /// The integer 1; no content.
    One,
    /// A blob of (N-12)/2 bytes, for the even descriptor N that it holds.
    N12AndEven(Varint),
    /// Text of (N-13)/2 bytes, for the odd descriptor N that it holds.
    N13AndOdd(Varint),
}

/// The serial type that a descriptor stands for, if it stands for one.
pub open spec fn serial_type_of(code: i64) -> Option<SerialType> {
    if code == 0 {
        Some(SerialType::Null)
    } else if code == 1 {
        Some(SerialType::I8)
    } else if code == 2 {
        Some(SerialType::I16)
    } else if code == 3 {
        Some(SerialType::I24)
    } else if code == 4 {
        Some(SerialType::I32)
    } else if code == 5 {
        Some(SerialType::I48)
    } else if code == 6 {
        Some(SerialType::I64)
    } else if code == 7 {
        Some(SerialType::F64)
    } else if code == 8 {
        Some(SerialType::Zero)
    } else if code == 9 {
        Some(SerialType::One)
    } else if code >= 12 && code % 2 == 0 {
        Some(SerialType::N12AndEven(Varint(code)))
    } else if code >= 13 && code % 2 == 1 {
        Some(SerialType::N13AndOdd(Varint(code)))
    } else {
        None
    }
}

impl SerialType {
    /// Whether a blob or text type holds a descriptor that stands for it.
    pub open spec fn wf(self) -> bool {
        match self {
            SerialType::N12AndEven(n) => n.0 >= 12 && n.0 % 2 == 0,
            SerialType::N13AndOdd(n) => n.0 >= 13 && n.0 % 2 == 1,
            _ => true,
        }
    }

    /// The number of bytes that a value of this type takes.
    pub open spec fn spec_len(self) -> int {
        match self {
            SerialType::Null => 0,
            SerialType::I8 => 1,
            SerialType::I16 => 2,
            SerialType::I24 => 3,
            SerialType::I32 => 4,
            SerialType::I48 => 6,
            SerialType::I64 => 8,
            SerialType::F64 => 8,
            SerialType::Zero => 0,
            SerialType::One => 0,
            SerialType::N12AndEven(n) => (n.0 - 12) / 2,
            SerialType::N13AndOdd(n) => (n.0 - 13) / 2,
        }
    }

    /// The number of bytes that a value of this type takes.
    pub fn len(&self) -> (n: usize)
        requires
            self.wf(),
            self.spec_len() <= usize::MAX,
        ensures
            n == self.spec_len(),
    {
        match self {
            SerialType::Null => 0,
            SerialType::I8 => 1,
            SerialType::I16 => 2,
            SerialType::I24 => 3,
            SerialType::I32 => 4,
            SerialType::I48 => 6,
            SerialType::I64 => 8,
            SerialType::F64 => 8,
            SerialType::Zero => 0,
            SerialType::One => 0,
            SerialType::N12AndEven(n) => ((n.0 as u64 - 12) / 2) as usize,
            SerialType::N13AndOdd(n) => ((n.0 as u64 - 13) / 2) as usize,
        }
    }

    /// The number of bytes that a value of this type takes, where that is
    /// `avail` at most.
    pub fn len_within(&self, avail: usize) -> (r: Option<usize>)
        requires
            self.wf(),
        ensures
            r is Some <==> self.spec_len() <= avail,
            r matches Some(n) ==> n == self.spec_len(),
    {
        let wide: u64 = match self {
            SerialType::Null => 0,
            SerialType::I8 => 1,
            SerialType::I16 => 2,
            SerialType::I24 => 3,
            SerialType::I32 => 4,
            SerialType::I48 => 6,
            SerialType::I64 => 8,
            SerialType::F64 => 8,
            SerialType::Zero => 0,
            SerialType::One => 0,
            SerialType::N12AndEven(n) => (n.0 as u64 - 12) / 2,
            SerialType::N13AndOdd(n) => (n.0 as u64 - 13) / 2,
        };
        if wide <= avail as u64 {
            Some(wide as usize)
        } else {
            None
        }
    }
}

impl TryFrom<Varint> for SerialType {
    type Error = DbError;

    fn try_from(value: Varint) -> (r: Result<SerialType, DbError>) {
        let code: i64 = value.0;
        if code == 0 {
            Ok(SerialType::Null)
        } else if code == 1 {
            Ok(SerialType::I8)
        } else if code == 2 {
            Ok(SerialType::I16)
        } else if code == 3 {
            Ok(SerialType::I24)
        } else if code == 4 {
            Ok(SerialType::I32)
        } else if code == 5 {
            Ok(SerialType::I48)
        } else if code == 6 {
            Ok(SerialType::I64)
        } else if code == 7 {
            Ok(SerialType::F64)
        } else if code == 8 {
            Ok(SerialType::Zero)
        } else if code == 9 {
            Ok(SerialType::One)
        } else if code < 12 {
            Err(DbError::Format)
        } else if code as u64 % 2 == 0 {
            Ok(SerialType::N12AndEven(value))
        } else {
            Ok(SerialType::N13AndOdd(value))
        }
    }
}

impl TryFromSpecImpl<Varint> for SerialType {
    open spec fn obeys_try_from_spec() -> bool {
        true
    }

    open spec fn try_from_spec(value: Varint) -> Result<SerialType, DbError> {
        match serial_type_of(value.0) {
            Some(t) => Ok(t),
            None => Err(DbError::Format),
        }
    }
}

/// Every serial type that a descriptor stands for is well formed.
pub(crate) proof fn lemma_serial_type_of_wf(code: i64)
    ensures
        serial_type_of(code) matches Some(t) ==> t.wf() && t.spec_len() >= 0,
{
}

} // verus!
