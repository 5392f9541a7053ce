//! The compile-time value model: the closed set of value kinds the translator
//! can hold on its symbolic operand stack.

use vstd::prelude::*;
use vstd::arithmetic::power2::pow2;

verus! {

/// A value as the translator knows it at compile time.
///
/// Float values are carried as their IEEE 754 bit patterns, so that the
/// numeric-coercion predicate below is a pure function of plain integers.
/// `OpRes(i)` is a back-reference: the runtime value that the op emitted at
/// position `i` will produce.
#[derive(Debug, PartialEq)]
pub enum Value {
    Undefined,
    Null,
    Bool(bool),
    I32(i32),
    /// A 32-bit float, as its IEEE 754 bit pattern.
    F32(u32),
    /// A 64-bit float, as its IEEE 754 bit pattern.
    F64(u64),
    Str(String),
    /// The runtime result of the op already emitted at position `i`.
    OpRes(usize),
}

/// The mathematical view of a `Value`: strings become character sequences and
/// op indices become unbounded integers.
pub enum ValueV {
    Undefined,
    Null,
    Bool(bool),
    I32(i32),
    F32(u32),
    F64(u64),
    Str(Seq<char>),
    OpRes(int),
}

impl View for Value {
    type V = ValueV;

    open spec fn view(&self) -> ValueV {
        match self {
            Value::Undefined => ValueV::Undefined,
            Value::Null => ValueV::Null,
            Value::Bool(b) => ValueV::Bool(*b),
            Value::I32(x) => ValueV::I32(*x),
            Value::F32(b) => ValueV::F32(*b),
            Value::F64(b) => ValueV::F64(*b),
            Value::Str(s) => ValueV::Str(s@),
            Value::OpRes(i) => ValueV::OpRes(*i as int),
        }
    }
}

/// Whether a positive magnitude `n` survives the round trip through the
/// saturating truncation of a 32-bit float to `i32`, and to which integer.
/// The one irregular point is `n == 2^31` on a non-negative float: the cast
/// saturates to `i32::MAX`, and `i32::MAX` converts back to the float `2^31`
/// (the nearest representable value), so the round trip closes there too.
pub open spec fn f32_trunc_check(neg: bool, n: int) -> Option<int> {
    if neg {
        if n <= 0x8000_0000 {
            Some(-n)
        } else {
            None
        }
    } else {
        if n <= 0x7fff_ffff {
            Some(n)
        } else if n == 0x8000_0000 {
            Some(0x7fff_ffff)
        } else {
            None
        }
    }
}

/// The same round-trip check for a 64-bit float. Here `2^31` is exactly
/// representable, so the saturated `i32::MAX` never converts back to the
/// original value and there is no irregular point.
pub open spec fn f64_trunc_check(neg: bool, n: int) -> Option<int> {
    if neg {
        if n <= 0x8000_0000 {
            Some(-n)
        } else {
            None
        }
    } else {
        if n <= 0x7fff_ffff {
            Some(n)
        } else {
            None
        }
    }
}

/// The exact-integer reading of an IEEE 754 single-precision bit pattern:
/// `Some(i)` exactly when the encoded float equals its own saturating
/// truncation to `i32` converted back to a float, and `i` is that truncation.
/// Infinities and NaN never round-trip; both zeros give 0; a magnitude
/// strictly between 0 and 1 (including every subnormal) truncates to 0 and is
/// lost; otherwise the value must be integral and pass the range check.
pub open spec fn f32_exact_i32(bits: u32) -> Option<int> {
    let neg = bits >= 0x8000_0000u32;
    let e = (bits as int / 0x0080_0000) % 0x100;
    let m = bits as int % 0x0080_0000;
    if e == 0xff {
        None
    } else if e == 0 {
        if m == 0 {
            Some(0)
        } else {
            None
        }
    } else if e < 127 {
        None
    } else if e > 158 {
        None
    } else {
        let sig = 0x0080_0000 + m;
        if e >= 150 {
            f32_trunc_check(neg, sig * pow2((e - 150) as nat))
        } else if m % (pow2((150 - e) as nat) as int) == 0 {
            f32_trunc_check(neg, sig / (pow2((150 - e) as nat) as int))
        } else {
            None
        }
    }
}

/// The exact-integer reading of an IEEE 754 double-precision bit pattern,
/// under the same round-trip rule as `f32_exact_i32`.
pub open spec fn f64_exact_i32(bits: u64) -> Option<int> {
    let neg = bits >= 0x8000_0000_0000_0000u64;
    let e = (bits as int / 0x0010_0000_0000_0000) % 0x800;
    let m = bits as int % 0x0010_0000_0000_0000;
    if e == 0x7ff {
        None
    } else if e == 0 {
        if m == 0 {
            Some(0)
        } else {
            None
        }
    } else if e < 1023 {
        None
    } else if e > 1054 {
        None
    } else {
        let sig = 0x0010_0000_0000_0000 + m;
        if m % (pow2((1075 - e) as nat) as int) == 0 {
            f64_trunc_check(neg, sig / (pow2((1075 - e) as nat) as int))
        } else {
            None
        }
    }
}

/// The numeric coercion a value offers when an action needs an integer (an
/// argument count): an integer yields itself, a float yields an integer only
/// if the round trip through `i32` reproduces it, and every other kind
/// refuses.
pub open spec fn value_as_i32(v: ValueV) -> Option<int> {
    match v {
        ValueV::I32(x) => Some(x as int),
        ValueV::F32(b) => f32_exact_i32(b),
        ValueV::F64(b) => f64_exact_i32(b),
        _ => None,
    }
}

/// Whether the executable option `r` denotes the mathematical option `o`.
pub open spec fn opt_i32_is(r: Option<i32>, o: Option<int>) -> bool {
    match r {
        Some(n) => o == Some(n as int),
        None => o is None,
    }
}

/// 2^k as a machine integer.
fn pow2_u64(k: u64) -> (r: u64)
    requires
        k < 64,
    ensures
        r as nat == pow2(k as nat),
        r >= 1,
{
    proof {
        vstd::bits::lemma_u64_pow2_no_overflow(k as nat);
        vstd::bits::lemma_u64_shl_is_mul(1u64, k);
    }
    1u64 << k
}

fn f32_trunc_check_exec(neg: bool, n: u64) -> (r: Option<i32>)
    ensures
        opt_i32_is(r, f32_trunc_check(neg, n as int)),
{
    if neg {
        if n < 0x8000_0000 {
            Some(-(n as i32))
        } else if n == 0x8000_0000 {
            Some(i32::MIN)
        } else {
            None
        }
    } else {
        if n <= 0x7fff_ffff {
            Some(n as i32)
        } else if n == 0x8000_0000 {
            Some(0x7fff_ffff)
        } else {
            None
        }
    }
}

fn f64_trunc_check_exec(neg: bool, n: u64) -> (r: Option<i32>)
    ensures
        opt_i32_is(r, f64_trunc_check(neg, n as int)),
{
    if neg {
        if n < 0x8000_0000 {
            Some(-(n as i32))
        } else if n == 0x8000_0000 {
            Some(i32::MIN)
        } else {
            None
        }
    } else {
        if n <= 0x7fff_ffff {
            Some(n as i32)
        } else {
            None
        }
    }
}

/// Decides `f32_exact_i32` on a single-precision bit pattern.
fn f32_bits_exact_i32(bits: u32) -> (r: Option<i32>)
    ensures
        opt_i32_is(r, f32_exact_i32(bits)),
{
    let neg: bool = bits >= 0x8000_0000;
    let e: u32 = (bits / 0x0080_0000) % 0x100;
    let m: u32 = bits % 0x0080_0000;
    if e == 0xff {
        None
    } else if e == 0 {
        if m == 0 {
            Some(0)
        } else {
            None
        }
    } else if e < 127 {
        None
    } else if e > 158 {
        None
    } else {
        let sig: u64 = 0x0080_0000u64 + m as u64;
        if e >= 150 {
            let p: u64 = pow2_u64((e - 150) as u64);
            proof {
                vstd::arithmetic::power2::lemma2_to64();
                if e - 150 < 8 {
                    vstd::arithmetic::power2::lemma_pow2_strictly_increases(
                        (e - 150) as nat,
                        8,
                    );
                }
                assert(p <= 0x100);
                vstd::arithmetic::mul::lemma_mul_upper_bound(
                    sig as int,
                    0x00ff_ffff,
                    p as int,
                    0x100,
                );
            }
            f32_trunc_check_exec(neg, sig * p)
        } else {
            let p: u64 = pow2_u64((150 - e) as u64);
            if (m as u64) % p == 0 {
                f32_trunc_check_exec(neg, sig / p)
            } else {
                None
            }
        }
    }
}

/// Decides `f64_exact_i32` on a double-precision bit pattern.
fn f64_bits_exact_i32(bits: u64) -> (r: Option<i32>)
    ensures
        opt_i32_is(r, f64_exact_i32(bits)),
{
    let neg: bool = bits >= 0x8000_0000_0000_0000;
    let e: u64 = (bits / 0x0010_0000_0000_0000) % 0x800;
    let m: u64 = bits % 0x0010_0000_0000_0000;
    if e == 0x7ff {
        None
    } else if e == 0 {
        if m == 0 {
            Some(0)
        } else {
            None
        }
    } else if e < 1023 {
        None
    } else if e > 1054 {
        None
    } else {
        let sig: u64 = 0x0010_0000_0000_0000u64 + m;
        let p: u64 = pow2_u64(1075 - e);
        if m % p == 0 {
            f64_trunc_check_exec(neg, sig / p)
        } else {
            None
        }
    }
}

impl Value {
    /// The numeric coercion used where an action needs an integer operand: an
    /// integer yields itself; a float yields an integer exactly when the
    /// saturating truncation to `i32` converts back to the original float.
    pub fn as_i32(&self) -> (r: Option<i32>)
        ensures
            opt_i32_is(r, value_as_i32(self@)),
    {
        match self {
            Value::I32(x) => Some(*x),
            Value::F32(b) => f32_bits_exact_i32(*b),
            Value::F64(b) => f64_bits_exact_i32(*b),
            _ => None,
        }
    }

    /// The inner string, for the `Str` kind alone.
    pub fn as_str(&self) -> (r: Option<&str>)
        ensures
            match self@ {
                ValueV::Str(s) => r matches Some(x) && x@ == s,
                _ => r is None,
            },
    {
        match self {
            Value::Str(s) => Some(s.as_str()),
            _ => None,
        }
    }
}

} // verus!
