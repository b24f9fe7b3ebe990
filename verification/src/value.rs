//! The scalar value used as a tuple field: a closed, tagged union of
//! primitive representations.
//!
//! Floating-point payloads are carried as their raw IEEE-754 bit patterns
//! (`F32`, `F64` hold `u32`, `u64`), compared by the value they encode and
//! hashed bitwise.  Comparisons that the encoded values leave undefined
//! (a NaN on either side) are normalized to "equal", so the type still
//! yields a usable total order for ordered containers; string variants
//! order lexicographically by their UTF-8 bytes, which coincides with
//! code-point order.

use vstd::prelude::*;

use core::cmp::Ordering;

use vstd::string::StrSliceExecFns;

verus! {

/// A scalar tuple field.  `F32` and `F64` carry raw bit patterns.
#[derive(PartialEq, Eq, Hash, Debug)]
pub enum Value {
    I8(i8),
    I16(i16),
    I32(i32),
    I64(i64),
    I128(i128),
    ISize(isize),
    U8(u8),
    U16(u16),
    U32(u32),
    U64(u64),
    U128(u128),
    USize(usize),
    F32(u32),
    F64(u64),
    Char(char),
    Bool(bool),
    Str(&'static str),
    String(String),
}

/// The runtime type of a scalar value.
#[derive(Clone, Copy, PartialEq, Eq, Structural, Hash, Debug)]
pub enum ValueType {
    I8,
    I16,
    I32,
    I64,
    I128,
    ISize,
    U8,
    U16,
    U32,
    U64,
    U128,
    USize,
    F32,
    F64,
    Char,
    Bool,
    Str,
    String,
}

/// A failed projection of a scalar value to a primitive whose variant it
/// does not hold.
#[derive(Clone, Copy, PartialEq, Eq, Structural, Debug)]
pub struct ValueConversionError;


impl Clone for Value {
    /// An equal copy; the owned-string payload is duplicated.
    fn clone(&self) -> (r: Value)
        ensures
            r == self,
    {
        match self {
            Value::I8(v) => Value::I8(*v),
            Value::I16(v) => Value::I16(*v),
            Value::I32(v) => Value::I32(*v),
            Value::I64(v) => Value::I64(*v),
            Value::I128(v) => Value::I128(*v),
            Value::ISize(v) => Value::ISize(*v),
            Value::U8(v) => Value::U8(*v),
            Value::U16(v) => Value::U16(*v),
            Value::U32(v) => Value::U32(*v),
            Value::U64(v) => Value::U64(*v),
            Value::U128(v) => Value::U128(*v),
            Value::USize(v) => Value::USize(*v),
            Value::F32(v) => Value::F32(*v),
            Value::F64(v) => Value::F64(*v),
            Value::Char(v) => Value::Char(*v),
            Value::Bool(v) => Value::Bool(*v),
            Value::Str(v) => Value::Str(v),
            Value::String(v) => Value::String(v.clone()),
        }
    }
}

/// The runtime type a value belongs to.
pub open spec fn spec_type_of(v: &Value) -> ValueType {
    match v {
        Value::I8(_) => ValueType::I8,
        Value::I16(_) => ValueType::I16,
        Value::I32(_) => ValueType::I32,
        Value::I64(_) => ValueType::I64,
        Value::I128(_) => ValueType::I128,
        Value::ISize(_) => ValueType::ISize,
        Value::U8(_) => ValueType::U8,
        Value::U16(_) => ValueType::U16,
        Value::U32(_) => ValueType::U32,
        Value::U64(_) => ValueType::U64,
        Value::U128(_) => ValueType::U128,
        Value::USize(_) => ValueType::USize,
        Value::F32(_) => ValueType::F32,
        Value::F64(_) => ValueType::F64,
        Value::Char(_) => ValueType::Char,
        Value::Bool(_) => ValueType::Bool,
        Value::Str(_) => ValueType::Str,
        Value::String(_) => ValueType::String,
    }
}

/// The position of a variant in the declaration order, the first key of
/// the total order.
pub open spec fn spec_rank(v: &Value) -> int {
    match v {
        Value::I8(_) => 0,
        Value::I16(_) => 1,
        Value::I32(_) => 2,
        Value::I64(_) => 3,
        Value::I128(_) => 4,
        Value::ISize(_) => 5,
        Value::U8(_) => 6,
        Value::U16(_) => 7,
        Value::U32(_) => 8,
        Value::U64(_) => 9,
        Value::U128(_) => 10,
        Value::USize(_) => 11,
        Value::F32(_) => 12,
        Value::F64(_) => 13,
        Value::Char(_) => 14,
        Value::Bool(_) => 15,
        Value::Str(_) => 16,
        Value::String(_) => 17,
    }
}

/// Whether a 32-bit pattern encodes a NaN.
pub open spec fn f32_bits_nan(b: u32) -> bool {
    (b & 0x7f80_0000) == 0x7f80_0000 && (b & 0x007f_ffff) != 0
}

/// Whether a 64-bit pattern encodes a NaN.
pub open spec fn f64_bits_nan(b: u64) -> bool {
    (b & 0x7ff0_0000_0000_0000) == 0x7ff0_0000_0000_0000 && (b & 0x000f_ffff_ffff_ffff) != 0
}

/// A sort key under which non-NaN 32-bit patterns order as the numbers
/// they encode: the magnitude, negated when the sign bit is set (both
/// zeros map to key zero).
pub open spec fn f32_bits_key(b: u32) -> int {
    if b >= 0x8000_0000 {
        -((b & 0x7fff_ffff) as int)
    } else {
        b as int
    }
}

/// See `f32_bits_key`, for 64-bit patterns.
pub open spec fn f64_bits_key(b: u64) -> int {
    if b >= 0x8000_0000_0000_0000 {
        -((b & 0x7fff_ffff_ffff_ffff) as int)
    } else {
        b as int
    }
}

/// The ordering of two integers.
pub open spec fn spec_int_cmp(a: int, b: int) -> Ordering {
    if a < b {
        Ordering::Less
    } else if a > b {
        Ordering::Greater
    } else {
        Ordering::Equal
    }
}

/// Lexicographic order of two strings by code point; for UTF-8 data this
/// coincides with byte order.
pub open spec fn lex_chars(a: Seq<char>, b: Seq<char>) -> Ordering
    decreases a.len(),
{
    if a.len() == 0 && b.len() == 0 {
        Ordering::Equal
    } else if a.len() == 0 {
        Ordering::Less
    } else if b.len() == 0 {
        Ordering::Greater
    } else if (a[0] as int) < (b[0] as int) {
        Ordering::Less
    } else if (a[0] as int) > (b[0] as int) {
        Ordering::Greater
    } else {
        lex_chars(a.skip(1), b.skip(1))
    }
}

/// The partial order of two values: variant order first, then the
/// payload's natural order; `None` exactly when a float payload on either
/// side is NaN in a same-variant float comparison.
pub open spec fn spec_partial_cmp(a: &Value, b: &Value) -> Option<Ordering> {
    if spec_rank(a) != spec_rank(b) {
        Some(spec_int_cmp(spec_rank(a), spec_rank(b)))
    } else {
        match (a, b) {
            (Value::I8(x), Value::I8(y)) => Some(spec_int_cmp(*x as int, *y as int)),
            (Value::I16(x), Value::I16(y)) => Some(spec_int_cmp(*x as int, *y as int)),
            (Value::I32(x), Value::I32(y)) => Some(spec_int_cmp(*x as int, *y as int)),
            (Value::I64(x), Value::I64(y)) => Some(spec_int_cmp(*x as int, *y as int)),
            (Value::I128(x), Value::I128(y)) => Some(spec_int_cmp(*x as int, *y as int)),
            (Value::ISize(x), Value::ISize(y)) => Some(spec_int_cmp(*x as int, *y as int)),
            (Value::U8(x), Value::U8(y)) => Some(spec_int_cmp(*x as int, *y as int)),
            (Value::U16(x), Value::U16(y)) => Some(spec_int_cmp(*x as int, *y as int)),
            (Value::U32(x), Value::U32(y)) => Some(spec_int_cmp(*x as int, *y as int)),
            (Value::U64(x), Value::U64(y)) => Some(spec_int_cmp(*x as int, *y as int)),
            (Value::U128(x), Value::U128(y)) => Some(spec_int_cmp(*x as int, *y as int)),
            (Value::USize(x), Value::USize(y)) => Some(spec_int_cmp(*x as int, *y as int)),
            (Value::F32(x), Value::F32(y)) => if f32_bits_nan(*x) || f32_bits_nan(*y) {
                None
            } else {
                Some(spec_int_cmp(f32_bits_key(*x), f32_bits_key(*y)))
            },
            (Value::F64(x), Value::F64(y)) => if f64_bits_nan(*x) || f64_bits_nan(*y) {
                None
            } else {
                Some(spec_int_cmp(f64_bits_key(*x), f64_bits_key(*y)))
            },
            (Value::Char(x), Value::Char(y)) => Some(spec_int_cmp(*x as int, *y as int)),
            (Value::Bool(x), Value::Bool(y)) => Some(
                spec_int_cmp(if *x { 1int } else { 0int }, if *y { 1int } else { 0int }),
            ),
            (Value::Str(x), Value::Str(y)) => Some(lex_chars(x@, y@)),
            (Value::String(x), Value::String(y)) => Some(lex_chars(x@, y@)),
            _ => Some(Ordering::Equal),
        }
    }
}

/// The total order: the partial order with incomparable pairs normalized
/// to "equal".
pub open spec fn spec_cmp(a: &Value, b: &Value) -> Ordering {
    match spec_partial_cmp(a, b) {
        Some(o) => o,
        None => Ordering::Equal,
    }
}

/// Lexicographic comparison of two strings, code point by code point.
fn str_compare(a: &str, b: &str) -> (r: Ordering)
    ensures
        r == lex_chars(a@, b@),
{
    let alen = a.unicode_len();
    let blen = b.unicode_len();
    let mut i: usize = 0;
    proof {
        assert(a@.skip(0) =~= a@);
        assert(b@.skip(0) =~= b@);
    }
    while i < alen && i < blen
        invariant
            alen == a@.len(),
            blen == b@.len(),
            i <= alen,
            i <= blen,
            lex_chars(a@, b@) == lex_chars(a@.skip(i as int), b@.skip(i as int)),
        decreases alen - i,
    {
        let x = a.get_char(i);
        let y = b.get_char(i);
        proof {
            assert(a@.skip(i as int)[0] == a@[i as int]);
            assert(b@.skip(i as int)[0] == b@[i as int]);
            assert(a@.skip(i as int).skip(1) =~= a@.skip(i + 1));
            assert(b@.skip(i as int).skip(1) =~= b@.skip(i + 1));
        }
        if (x as u32) < (y as u32) {
            return Ordering::Less;
        }
        if (x as u32) > (y as u32) {
            return Ordering::Greater;
        }
        i = i + 1;
    }
    if i < blen {
        proof {
            assert(a@.skip(i as int).len() == 0);
            assert(b@.skip(i as int).len() > 0);
        }
        Ordering::Less
    } else if i < alen {
        proof {
            assert(b@.skip(i as int).len() == 0);
            assert(a@.skip(i as int).len() > 0);
        }
        Ordering::Greater
    } else {
        proof {
            assert(a@.skip(i as int).len() == 0);
            assert(b@.skip(i as int).len() == 0);
        }
        Ordering::Equal
    }
}

impl Value {
    /// The runtime type of this value.
    pub fn value_type(&self) -> (r: ValueType)
        ensures
            r == spec_type_of(self),
    {
        match self {
            Value::I8(_) => ValueType::I8,
            Value::I16(_) => ValueType::I16,
            Value::I32(_) => ValueType::I32,
            Value::I64(_) => ValueType::I64,
            Value::I128(_) => ValueType::I128,
            Value::ISize(_) => ValueType::ISize,
            Value::U8(_) => ValueType::U8,
            Value::U16(_) => ValueType::U16,
            Value::U32(_) => ValueType::U32,
            Value::U64(_) => ValueType::U64,
            Value::U128(_) => ValueType::U128,
            Value::USize(_) => ValueType::USize,
            Value::F32(_) => ValueType::F32,
            Value::F64(_) => ValueType::F64,
            Value::Char(_) => ValueType::Char,
            Value::Bool(_) => ValueType::Bool,
            Value::Str(_) => ValueType::Str,
            Value::String(_) => ValueType::String,
        }
    }

    /// The pointer-sized integer this value holds.  Calling this on any
    /// other variant is a contract violation at the call site, ruled out
    /// here rather than reported.
    pub fn as_usize(&self) -> (r: usize)
        requires
            self is USize,
        ensures
            self matches Value::USize(u) && r == u,
    {
        match self {
            Value::USize(u) => *u,
            _ => unreached(),
        }
    }

    /// The string this value holds, borrowed or owned.  Calling this on a
    /// non-string variant is a contract violation at the call site, ruled
    /// out here rather than reported.
    pub fn as_str(&self) -> (r: &str)
        requires
            self is Str || self is String,
        ensures
            self matches Value::Str(s) ==> r@ == s@,
            self matches Value::String(s) ==> r@ == s@,
    {
        match self {
            Value::Str(s) => s,
            Value::String(s) => s.as_str(),
            _ => unreached(),
        }
    }

    /// The partial order of two values; absent exactly when a NaN makes a
    /// same-variant float comparison undefined.
    pub fn partial_cmp_value(&self, other: &Value) -> (r: Option<Ordering>)
        ensures
            r == spec_partial_cmp(self, other),
    {
        let ra = self.rank();
        let rb = other.rank();
        if ra != rb {
            return Some(if ra < rb {
                Ordering::Less
            } else {
                Ordering::Greater
            });
        }
        match (self, other) {
            (Value::I8(x), Value::I8(y)) => Some(int_cmp_i128(*x as i128, *y as i128)),
            (Value::I16(x), Value::I16(y)) => Some(int_cmp_i128(*x as i128, *y as i128)),
            (Value::I32(x), Value::I32(y)) => Some(int_cmp_i128(*x as i128, *y as i128)),
            (Value::I64(x), Value::I64(y)) => Some(int_cmp_i128(*x as i128, *y as i128)),
            (Value::I128(x), Value::I128(y)) => Some(int_cmp_i128(*x, *y)),
            (Value::ISize(x), Value::ISize(y)) => Some(int_cmp_i128(*x as i128, *y as i128)),
            (Value::U8(x), Value::U8(y)) => Some(int_cmp_u128(*x as u128, *y as u128)),
            (Value::U16(x), Value::U16(y)) => Some(int_cmp_u128(*x as u128, *y as u128)),
            (Value::U32(x), Value::U32(y)) => Some(int_cmp_u128(*x as u128, *y as u128)),
            (Value::U64(x), Value::U64(y)) => Some(int_cmp_u128(*x as u128, *y as u128)),
            (Value::U128(x), Value::U128(y)) => Some(int_cmp_u128(*x, *y)),
            (Value::USize(x), Value::USize(y)) => Some(int_cmp_u128(*x as u128, *y as u128)),
            (Value::F32(x), Value::F32(y)) => {
                let xn = (*x & 0x7f80_0000) == 0x7f80_0000 && (*x & 0x007f_ffff) != 0;
                let yn = (*y & 0x7f80_0000) == 0x7f80_0000 && (*y & 0x007f_ffff) != 0;
                if xn || yn {
                    None
                } else {
                    let kx = f32_key_exec(*x);
                    let ky = f32_key_exec(*y);
                    Some(int_cmp_i128(kx as i128, ky as i128))
                }
            },
            (Value::F64(x), Value::F64(y)) => {
                let xn = (*x & 0x7ff0_0000_0000_0000) == 0x7ff0_0000_0000_0000 && (*x
                    & 0x000f_ffff_ffff_ffff) != 0;
                let yn = (*y & 0x7ff0_0000_0000_0000) == 0x7ff0_0000_0000_0000 && (*y
                    & 0x000f_ffff_ffff_ffff) != 0;
                if xn || yn {
                    None
                } else {
                    let kx = f64_key_exec(*x);
                    let ky = f64_key_exec(*y);
                    Some(int_cmp_i128(kx as i128, ky as i128))
                }
            },
            (Value::Char(x), Value::Char(y)) => Some(
                int_cmp_u128(*x as u32 as u128, *y as u32 as u128),
            ),
            (Value::Bool(x), Value::Bool(y)) => Some(
                int_cmp_u128(
                    if *x {
                        1u128
                    } else {
                        0u128
                    },
                    if *y {
                        1u128
                    } else {
                        0u128
                    },
                ),
            ),
            (Value::Str(x), Value::Str(y)) => Some(str_compare(x, y)),
            (Value::String(x), Value::String(y)) => Some(str_compare(x.as_str(), y.as_str())),
            _ => Some(Ordering::Equal),
        }
    }

    /// The total order: the partial order, with pairs it leaves undefined
    /// normalized to "equal".
    pub fn cmp_value(&self, other: &Value) -> (r: Ordering)
        ensures
            r == spec_cmp(self, other),
    {
        match self.partial_cmp_value(other) {
            Some(o) => o,
            None => Ordering::Equal,
        }
    }

    fn rank(&self) -> (r: u32)
        ensures
            r as int == spec_rank(self),
    {
        match self {
            Value::I8(_) => 0,
            Value::I16(_) => 1,
            Value::I32(_) => 2,
            Value::I64(_) => 3,
            Value::I128(_) => 4,
            Value::ISize(_) => 5,
            Value::U8(_) => 6,
            Value::U16(_) => 7,
            Value::U32(_) => 8,
            Value::U64(_) => 9,
            Value::U128(_) => 10,
            Value::USize(_) => 11,
            Value::F32(_) => 12,
            Value::F64(_) => 13,
            Value::Char(_) => 14,
            Value::Bool(_) => 15,
            Value::Str(_) => 16,
            Value::String(_) => 17,
        }
    }
}

fn int_cmp_i128(a: i128, b: i128) -> (r: Ordering)
    ensures
        r == spec_int_cmp(a as int, b as int),
{
    if a < b {
        Ordering::Less
    } else if a > b {
        Ordering::Greater
    } else {
        Ordering::Equal
    }
}

fn int_cmp_u128(a: u128, b: u128) -> (r: Ordering)
    ensures
        r == spec_int_cmp(a as int, b as int),
{
    if a < b {
        Ordering::Less
    } else if a > b {
        Ordering::Greater
    } else {
        Ordering::Equal
    }
}

fn f32_key_exec(b: u32) -> (r: i64)
    ensures
        r as int == f32_bits_key(b),
{
    if b >= 0x8000_0000 {
        -((b & 0x7fff_ffff) as i64)
    } else {
        b as i64
    }
}

fn f64_key_exec(b: u64) -> (r: i128)
    ensures
        r as int == f64_bits_key(b),
{
    if b >= 0x8000_0000_0000_0000 {
        -((b & 0x7fff_ffff_ffff_ffff) as i128)
    } else {
        b as i128
    }
}

impl Value {
    /// Projects to `i8`; fails unless this value holds the `I8` variant.
    pub fn try_into_i8(self) -> (r: Result<i8, ValueConversionError>)
        ensures
            self matches Value::I8(v) ==> r == Ok::<i8, ValueConversionError>(v),
            !(self is I8) ==> r == Err::<i8, ValueConversionError>(ValueConversionError),
    {
        match self {
            Value::I8(v) => Ok(v),
            _ => Err(ValueConversionError),
        }
    }

    /// Projects to `i16`; fails unless this value holds the `I16` variant.
    pub fn try_into_i16(self) -> (r: Result<i16, ValueConversionError>)
        ensures
            self matches Value::I16(v) ==> r == Ok::<i16, ValueConversionError>(v),
            !(self is I16) ==> r == Err::<i16, ValueConversionError>(ValueConversionError),
    {
        match self {
            Value::I16(v) => Ok(v),
            _ => Err(ValueConversionError),
        }
    }

    /// Projects to `i32`; fails unless this value holds the `I32` variant.
    pub fn try_into_i32(self) -> (r: Result<i32, ValueConversionError>)
        ensures
            self matches Value::I32(v) ==> r == Ok::<i32, ValueConversionError>(v),
            !(self is I32) ==> r == Err::<i32, ValueConversionError>(ValueConversionError),
    {
        match self {
            Value::I32(v) => Ok(v),
            _ => Err(ValueConversionError),
        }
    }

    /// Projects to `i64`; fails unless this value holds the `I64` variant.
    pub fn try_into_i64(self) -> (r: Result<i64, ValueConversionError>)
        ensures
            self matches Value::I64(v) ==> r == Ok::<i64, ValueConversionError>(v),
            !(self is I64) ==> r == Err::<i64, ValueConversionError>(ValueConversionError),
    {
        match self {
            Value::I64(v) => Ok(v),
            _ => Err(ValueConversionError),
        }
    }

    /// Projects to `i128`; fails unless this value holds the `I128` variant.
    pub fn try_into_i128(self) -> (r: Result<i128, ValueConversionError>)
        ensures
            self matches Value::I128(v) ==> r == Ok::<i128, ValueConversionError>(v),
            !(self is I128) ==> r == Err::<i128, ValueConversionError>(ValueConversionError),
    {
        match self {
            Value::I128(v) => Ok(v),
            _ => Err(ValueConversionError),
        }
    }

    /// Projects to `isize`; fails unless this value holds the `ISize` variant.
    pub fn try_into_isize(self) -> (r: Result<isize, ValueConversionError>)
        ensures
            self matches Value::ISize(v) ==> r == Ok::<isize, ValueConversionError>(v),
            !(self is ISize) ==> r == Err::<isize, ValueConversionError>(ValueConversionError),
    {
        match self {
            Value::ISize(v) => Ok(v),
            _ => Err(ValueConversionError),
        }
    }

    /// Projects to `u8`; fails unless this value holds the `U8` variant.
    pub fn try_into_u8(self) -> (r: Result<u8, ValueConversionError>)
        ensures
            self matches Value::U8(v) ==> r == Ok::<u8, ValueConversionError>(v),
            !(self is U8) ==> r == Err::<u8, ValueConversionError>(ValueConversionError),
    {
        match self {
            Value::U8(v) => Ok(v),
            _ => Err(ValueConversionError),
        }
    }

    /// Projects to `u16`; fails unless this value holds the `U16` variant.
    pub fn try_into_u16(self) -> (r: Result<u16, ValueConversionError>)
        ensures
            self matches Value::U16(v) ==> r == Ok::<u16, ValueConversionError>(v),
            !(self is U16) ==> r == Err::<u16, ValueConversionError>(ValueConversionError),
    {
        match self {
            Value::U16(v) => Ok(v),
            _ => Err(ValueConversionError),
        }
    }

    /// Projects to `u32`; fails unless this value holds the `U32` variant.
    pub fn try_into_u32(self) -> (r: Result<u32, ValueConversionError>)
        ensures
            self matches Value::U32(v) ==> r == Ok::<u32, ValueConversionError>(v),
            !(self is U32) ==> r == Err::<u32, ValueConversionError>(ValueConversionError),
    {
        match self {
            Value::U32(v) => Ok(v),
            _ => Err(ValueConversionError),
        }
    }

    /// Projects to `u64`; fails unless this value holds the `U64` variant.
    pub fn try_into_u64(self) -> (r: Result<u64, ValueConversionError>)
        ensures
            self matches Value::U64(v) ==> r == Ok::<u64, ValueConversionError>(v),
            !(self is U64) ==> r == Err::<u64, ValueConversionError>(ValueConversionError),
    {
        match self {
            Value::U64(v) => Ok(v),
            _ => Err(ValueConversionError),
        }
    }

    /// Projects to `u128`; fails unless this value holds the `U128` variant.
    pub fn try_into_u128(self) -> (r: Result<u128, ValueConversionError>)
        ensures
            self matches Value::U128(v) ==> r == Ok::<u128, ValueConversionError>(v),
            !(self is U128) ==> r == Err::<u128, ValueConversionError>(ValueConversionError),
    {
        match self {
            Value::U128(v) => Ok(v),
            _ => Err(ValueConversionError),
        }
    }

    /// Projects to `usize`; fails unless this value holds the `USize` variant.
    pub fn try_into_usize(self) -> (r: Result<usize, ValueConversionError>)
        ensures
            self matches Value::USize(v) ==> r == Ok::<usize, ValueConversionError>(v),
            !(self is USize) ==> r == Err::<usize, ValueConversionError>(ValueConversionError),
    {
        match self {
            Value::USize(v) => Ok(v),
            _ => Err(ValueConversionError),
        }
    }

    /// Projects to `u32`; fails unless this value holds the `F32` variant.
    pub fn try_into_f32_bits(self) -> (r: Result<u32, ValueConversionError>)
        ensures
            self matches Value::F32(v) ==> r == Ok::<u32, ValueConversionError>(v),
            !(self is F32) ==> r == Err::<u32, ValueConversionError>(ValueConversionError),
    {
        match self {
            Value::F32(v) => Ok(v),
            _ => Err(ValueConversionError),
        }
    }

    /// Projects to `u64`; fails unless this value holds the `F64` variant.
    pub fn try_into_f64_bits(self) -> (r: Result<u64, ValueConversionError>)
        ensures
            self matches Value::F64(v) ==> r == Ok::<u64, ValueConversionError>(v),
            !(self is F64) ==> r == Err::<u64, ValueConversionError>(ValueConversionError),
    {
        match self {
            Value::F64(v) => Ok(v),
            _ => Err(ValueConversionError),
        }
    }

    /// Projects to `bool`; fails unless this value holds the `Bool` variant.
    pub fn try_into_bool(self) -> (r: Result<bool, ValueConversionError>)
        ensures
            self matches Value::Bool(v) ==> r == Ok::<bool, ValueConversionError>(v),
            !(self is Bool) ==> r == Err::<bool, ValueConversionError>(ValueConversionError),
    {
        match self {
            Value::Bool(v) => Ok(v),
            _ => Err(ValueConversionError),
        }
    }

    /// Projects to `char`; fails unless this value holds the `Char` variant.
    pub fn try_into_char(self) -> (r: Result<char, ValueConversionError>)
        ensures
            self matches Value::Char(v) ==> r == Ok::<char, ValueConversionError>(v),
            !(self is Char) ==> r == Err::<char, ValueConversionError>(ValueConversionError),
    {
        match self {
            Value::Char(v) => Ok(v),
            _ => Err(ValueConversionError),
        }
    }

    /// Projects to `String`; fails unless this value holds the `String` variant.
    pub fn try_into_string(self) -> (r: Result<String, ValueConversionError>)
        ensures
            self matches Value::String(v) ==> r == Ok::<String, ValueConversionError>(v),
            !(self is String) ==> r == Err::<String, ValueConversionError>(ValueConversionError),
    {
        match self {
            Value::String(v) => Ok(v),
            _ => Err(ValueConversionError),
        }
    }
}

impl From<i8> for Value {
    fn from(v: i8) -> (r: Value)
        ensures
            r == Value::I8(v),
    {
        Value::I8(v)
    }
}

impl vstd::std_specs::convert::FromSpecImpl<i8> for Value {
    open spec fn obeys_from_spec() -> bool {
        true
    }

    open spec fn from_spec(v: i8) -> Value {
        Value::I8(v)
    }
}

impl From<i16> for Value {
    fn from(v: i16) -> (r: Value)
        ensures
            r == Value::I16(v),
    {
        Value::I16(v)
    }
}

impl vstd::std_specs::convert::FromSpecImpl<i16> for Value {
    open spec fn obeys_from_spec() -> bool {
        true
    }

    open spec fn from_spec(v: i16) -> Value {
        Value::I16(v)
    }
}

impl From<i32> for Value {
    fn from(v: i32) -> (r: Value)
        ensures
            r == Value::I32(v),
    {
        Value::I32(v)
    }
}

impl vstd::std_specs::convert::FromSpecImpl<i32> for Value {
    open spec fn obeys_from_spec() -> bool {
        true
    }

    open spec fn from_spec(v: i32) -> Value {
        Value::I32(v)
    }
}

impl From<i64> for Value {
    fn from(v: i64) -> (r: Value)
        ensures
            r == Value::I64(v),
    {
        Value::I64(v)
    }
}

impl vstd::std_specs::convert::FromSpecImpl<i64> for Value {
    open spec fn obeys_from_spec() -> bool {
        true
    }

    open spec fn from_spec(v: i64) -> Value {
        Value::I64(v)
    }
}

impl From<i128> for Value {
    fn from(v: i128) -> (r: Value)
        ensures
            r == Value::I128(v),
    {
        Value::I128(v)
    }
}

impl vstd::std_specs::convert::FromSpecImpl<i128> for Value {
    open spec fn obeys_from_spec() -> bool {
        true
    }

    open spec fn from_spec(v: i128) -> Value {
        Value::I128(v)
    }
}

impl From<isize> for Value {
    fn from(v: isize) -> (r: Value)
        ensures
            r == Value::ISize(v),
    {
        Value::ISize(v)
    }
}

impl vstd::std_specs::convert::FromSpecImpl<isize> for Value {
    open spec fn obeys_from_spec() -> bool {
        true
    }

    open spec fn from_spec(v: isize) -> Value {
        Value::ISize(v)
    }
}

impl From<u8> for Value {
    fn from(v: u8) -> (r: Value)
        ensures
            r == Value::U8(v),
    {
        Value::U8(v)
    }
}

impl vstd::std_specs::convert::FromSpecImpl<u8> for Value {
    open spec fn obeys_from_spec() -> bool {
        true
    }

    open spec fn from_spec(v: u8) -> Value {
        Value::U8(v)
    }
}

impl From<u16> for Value {
    fn from(v: u16) -> (r: Value)
        ensures
            r == Value::U16(v),
    {
        Value::U16(v)
    }
}

impl vstd::std_specs::convert::FromSpecImpl<u16> for Value {
    open spec fn obeys_from_spec() -> bool {
        true
    }

    open spec fn from_spec(v: u16) -> Value {
        Value::U16(v)
    }
}

impl From<u32> for Value {
    fn from(v: u32) -> (r: Value)
        ensures
            r == Value::U32(v),
    {
        Value::U32(v)
    }
}

impl vstd::std_specs::convert::FromSpecImpl<u32> for Value {
    open spec fn obeys_from_spec() -> bool {
        true
    }

    open spec fn from_spec(v: u32) -> Value {
        Value::U32(v)
    }
}

impl From<u64> for Value {
    fn from(v: u64) -> (r: Value)
        ensures
            r == Value::U64(v),
    {
        Value::U64(v)
    }
}

impl vstd::std_specs::convert::FromSpecImpl<u64> for Value {
    open spec fn obeys_from_spec() -> bool {
        true
    }

    open spec fn from_spec(v: u64) -> Value {
        Value::U64(v)
    }
}

impl From<u128> for Value {
    fn from(v: u128) -> (r: Value)
        ensures
            r == Value::U128(v),
    {
        Value::U128(v)
    }
}

impl vstd::std_specs::convert::FromSpecImpl<u128> for Value {
    open spec fn obeys_from_spec() -> bool {
        true
    }

    open spec fn from_spec(v: u128) -> Value {
        Value::U128(v)
    }
}

impl From<usize> for Value {
    fn from(v: usize) -> (r: Value)
        ensures
            r == Value::USize(v),
    {
        Value::USize(v)
    }
}

impl vstd::std_specs::convert::FromSpecImpl<usize> for Value {
    open spec fn obeys_from_spec() -> bool {
        true
    }

    open spec fn from_spec(v: usize) -> Value {
        Value::USize(v)
    }
}

impl From<char> for Value {
    fn from(v: char) -> (r: Value)
        ensures
            r == Value::Char(v),
    {
        Value::Char(v)
    }
}

impl vstd::std_specs::convert::FromSpecImpl<char> for Value {
    open spec fn obeys_from_spec() -> bool {
        true
    }

    open spec fn from_spec(v: char) -> Value {
        Value::Char(v)
    }
}

impl From<bool> for Value {
    fn from(v: bool) -> (r: Value)
        ensures
            r == Value::Bool(v),
    {
        Value::Bool(v)
    }
}

impl vstd::std_specs::convert::FromSpecImpl<bool> for Value {
    open spec fn obeys_from_spec() -> bool {
        true
    }

    open spec fn from_spec(v: bool) -> Value {
        Value::Bool(v)
    }
}

impl From<&'static str> for Value {
    fn from(v: &'static str) -> (r: Value)
        ensures
            r == Value::Str(v),
    {
        Value::Str(v)
    }
}

impl vstd::std_specs::convert::FromSpecImpl<&'static str> for Value {
    open spec fn obeys_from_spec() -> bool {
        true
    }

    open spec fn from_spec(v: &'static str) -> Value {
        Value::Str(v)
    }
}

impl From<String> for Value {
    fn from(v: String) -> (r: Value)
        ensures
            r == Value::String(v),
    {
        Value::String(v)
    }
}

impl vstd::std_specs::convert::FromSpecImpl<String> for Value {
    open spec fn obeys_from_spec() -> bool {
        true
    }

    open spec fn from_spec(v: String) -> Value {
        Value::String(v)
    }
}

} // verus!
