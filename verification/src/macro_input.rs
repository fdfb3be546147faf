//! The reset value of a register as it is written in the register macro: a type and an
//! expression, read into the bytes of a reset value.

use vstd::arithmetic::power2::pow2;
use vstd::prelude::*;

use crate::deserialization::{kept_data, ResetValue, ResetValueData};
use crate::error::Error;

verus! {

/// The type that a reset value is given in the register macro.
#[derive(Debug, Clone, PartialEq, Eq)]
pub enum ResetType {
    /// An array type `[elem; len]` whose length is an integer literal.
    Array { elem: String, len: u128 },
    /// A slice type `[elem]`.
    Slice { elem: String },
    /// A type path without a qualified self type, such as `u16`.
    Path { path: String },
    /// Any other type.
    Other,
}

/// The expression that a reset value is written as in the register macro.
#[derive(Debug, Clone, PartialEq, Eq)]
pub enum ResetLiteral {
    /// An array expression: each element an integer literal, by its value, or `None`
    /// for any other expression.
    Array(Vec<Option<u128>>),
    /// An integer literal, by its value.
    Int(u128),
    /// Any other expression.
    Other,
}

/// The number of bytes of an unsigned integer type, by its name.
pub open spec fn unsigned_bytes(path: Seq<char>) -> Option<nat> {
    if path == "u8"@ {
        Some(1)
    } else if path == "u16"@ {
        Some(2)
    } else if path == "u32"@ {
        Some(4)
    } else if path == "u64"@ {
        Some(8)
    } else if path == "u128"@ {
        Some(16)
    } else {
        None
    }
}

/// The `n` lowest bytes of the value, the most significant first.
pub open spec fn be_bytes(v: u128, n: nat) -> Seq<u8> {
    Seq::new(n, |i: int| ((v >> ((8 * (n - 1 - i)) as u32)) & 0xffu128) as u8)
}

/// The elements of an array expression as bytes: the first element that is no integer
/// literal, or whose value doesn't fit in a byte, gives the error.
pub open spec fn literal_bytes(elems: Seq<Option<u128>>) -> Result<Seq<u8>, Error>
    decreases elems.len(),
{
    if elems.len() == 0 {
        Ok(Seq::empty())
    } else {
        match elems[0] {
            None => Err(Error::ResetValueNotU8Literal),
            Some(v) => if v > 255 {
                Err(Error::LiteralTooLarge)
            } else {
                match literal_bytes(elems.drop_first()) {
                    Ok(rest) => Ok(seq![v as u8] + rest),
                    Err(e) => Err(e),
                }
            },
        }
    }
}

/// The bytes before what reading the rest of the elements gives.
pub open spec fn prefixed(p: Seq<u8>, r: Result<Seq<u8>, Error>) -> Result<Seq<u8>, Error> {
    match r {
        Ok(b) => Ok(p + b),
        Err(e) => Err(e),
    }
}

/// A fixed-length reset value of the elements of an array expression.
pub open spec fn fixed_reset(elems: Seq<Option<u128>>) -> Result<ResetValueData, Error> {
    match literal_bytes(elems) {
        Ok(b) => Ok(ResetValueData { data: b, fixed: true }),
        Err(e) => Err(e),
    }
}

/// What a reset value written with the type and the expression is read as.
/// - An array type `[u8; len]` with an array expression of `len` byte literals gives
///   those bytes, of a fixed length.
/// - A slice type `[u8]` with an array expression of byte literals gives those bytes,
///   of a fixed length too.
/// - An unsigned integer type with an integer literal gives the bytes of the value in
///   the width of the type, the most significant first, without the leading zero bytes,
///   of a length that may be extended.
/// - Any other type or pairing is refused, and so is a literal that doesn't fit its type.
pub open spec fn reset_value_read(t: ResetType, v: ResetLiteral) -> Result<ResetValueData, Error> {
    match (t, v) {
        (ResetType::Array { elem, len }, ResetLiteral::Array(elems)) => if elem@ != "u8"@ {
            Err(Error::ResetValueNotU8Array)
        } else if len > usize::MAX {
            Err(Error::LiteralTooLarge)
        } else if len != elems@.len() {
            Err(Error::ResetValueArraySize { elements: elems@.len() as usize })
        } else {
            fixed_reset(elems@)
        },
        (ResetType::Slice { elem }, ResetLiteral::Array(elems)) => if elem@ != "u8"@ {
            Err(Error::ResetValueNotU8Array)
        } else {
            fixed_reset(elems@)
        },
        (ResetType::Path { path }, ResetLiteral::Int(value)) => match unsigned_bytes(path@) {
            None => Err(Error::ResetValueNotUnsigned),
            Some(n) => if value >= pow2(8 * n) {
                Err(Error::LiteralTooLarge)
            } else {
                Ok(ResetValueData { data: kept_data(be_bytes(value, n), false), fixed: false })
            },
        },
        _ => Err(Error::ResetValueUnsupportedType),
    }
}

/// Reads the elements of an array expression as bytes.
fn read_literal_bytes(elems: &Vec<Option<u128>>) -> (res: Result<Vec<u8>, Error>)
    ensures
        match literal_bytes(elems@) {
            Ok(b) => res matches Ok(v) && v@ == b,
            Err(e) => res == Err::<Vec<u8>, Error>(e),
        },
{
    let mut out: Vec<u8> = Vec::new();
    let mut i: usize = 0;
    proof {
        assert(elems@.skip(0) =~= elems@);
        assert(prefixed(Seq::empty(), literal_bytes(elems@.skip(0))) =~= literal_bytes(elems@)) by {
            match literal_bytes(elems@) {
                Ok(b) => {
                    assert(Seq::<u8>::empty() + b =~= b);
                },
                Err(_) => {},
            }
        }
    }
    while i < elems.len()
        invariant
            i <= elems@.len(),
            literal_bytes(elems@) == prefixed(out@, literal_bytes(elems@.skip(i as int))),
        decreases elems@.len() - i,
    {
        proof {
            let rest = elems@.skip(i as int);
            assert(rest[0] == elems@[i as int]);
            assert(rest.drop_first() =~= elems@.skip(i + 1));
        }
        match elems[i] {
            None => {
                return Err(Error::ResetValueNotU8Literal);
            },
            Some(v) => {
                if v > 255 {
                    return Err(Error::LiteralTooLarge);
                }
                let ghost before = out@;
                out.push(v as u8);
                proof {
                    match literal_bytes(elems@.skip(i + 1)) {
                        Ok(b) => {
                            assert(before + (seq![v as u8] + b) =~= out@ + b);
                        },
                        Err(_) => {},
                    }
                }
            },
        }
        i = i + 1;
    }
    proof {
        assert(elems@.skip(i as int) =~= Seq::<Option<u128>>::empty());
        assert(out@ + Seq::<u8>::empty() =~= out@);
    }
    Ok(out)
}

/// The `n` lowest bytes of the value, the most significant first.
fn value_be_bytes(v: u128, n: usize) -> (res: Vec<u8>)
    requires
        1 <= n <= 16,
    ensures
        res@ == be_bytes(v, n as nat),
{
    let mut out: Vec<u8> = Vec::new();
    let mut i: usize = 0;
    while i < n
        invariant
            i <= n <= 16,
            out@ =~= be_bytes(v, n as nat).take(i as int),
        decreases n - i,
    {
        let shift: u32 = (8 * (n - 1 - i)) as u32;
        out.push(((v >> shift) & 0xffu128) as u8);
        i = i + 1;
    }
    out
}

/// The number of bytes of the unsigned integer type with the name.
fn unsigned_bytes_of(path: &String) -> (res: Option<usize>)
    ensures
        match unsigned_bytes(path@) {
            Some(n) => res == Some(n as usize),
            None => res is None,
        },
{
    proof {
        reveal_strlit("u8");
        reveal_strlit("u16");
        reveal_strlit("u32");
        reveal_strlit("u64");
        reveal_strlit("u128");
    }
    if *path == String::from_str("u8") {
        Some(1)
    } else if *path == String::from_str("u16") {
        Some(2)
    } else if *path == String::from_str("u32") {
        Some(4)
    } else if *path == String::from_str("u64") {
        Some(8)
    } else if *path == String::from_str("u128") {
        Some(16)
    } else {
        None
    }
}

/// Whether the type is named `u8`.
fn is_u8(elem: &String) -> (res: bool)
    ensures
        res == (elem@ == "u8"@),
{
    *elem == String::from_str("u8")
}

/// Reads a reset value written with the type and the expression in the register macro:
/// see [`reset_value_read`].
pub fn parse_reset_value(t: &ResetType, v: &ResetLiteral) -> (res: Result<Option<ResetValue>, Error>)
    ensures
        match reset_value_read(*t, *v) {
            Ok(d) => res matches Ok(Some(r)) && r@ == d,
            Err(e) => res == Err::<Option<ResetValue>, Error>(e),
        },
{
    match (t, v) {
        (ResetType::Array { elem, len }, ResetLiteral::Array(elems)) => {
            if !is_u8(elem) {
                return Err(Error::ResetValueNotU8Array);
            }
            if *len > usize::MAX as u128 {
                return Err(Error::LiteralTooLarge);
            }
            if *len != elems.len() as u128 {
                return Err(Error::ResetValueArraySize { elements: elems.len() });
            }
            match read_literal_bytes(elems) {
                Ok(b) => Ok(Some(ResetValue::new(b, true))),
                Err(e) => Err(e),
            }
        },
        (ResetType::Slice { elem }, ResetLiteral::Array(elems)) => {
            if !is_u8(elem) {
                return Err(Error::ResetValueNotU8Array);
            }
            match read_literal_bytes(elems) {
                Ok(b) => Ok(Some(ResetValue::new(b, true))),
                Err(e) => Err(e),
            }
        },
        (ResetType::Path { path }, ResetLiteral::Int(value)) => {
            match unsigned_bytes_of(path) {
                None => Err(Error::ResetValueNotUnsigned),
                Some(n) => {
                    proof {
                        vstd::arithmetic::power2::lemma2_to64();
                        vstd::arithmetic::power2::lemma2_to64_rest();
                        vstd::arithmetic::power2::lemma_pow2_adds(64, 64);
                    }
                    let fits = if n == 16 {
                        assert(pow2(128) == 0x1_0000_0000_0000_0000_0000_0000_0000_0000int);
                        true
                    } else if n == 8 {
                        *value < 0x1_0000_0000_0000_0000u128
                    } else if n == 4 {
                        *value < 0x1_0000_0000u128
                    } else if n == 2 {
                        *value < 0x1_0000u128
                    } else {
                        *value < 0x100u128
                    };
                    if !fits {
                        return Err(Error::LiteralTooLarge);
                    }
                    let bytes = value_be_bytes(*value, n);
                    Ok(Some(ResetValue::new(bytes, false)))
                },
            }
        },
        _ => Err(Error::ResetValueUnsupportedType),
    }
}

} // verus!
