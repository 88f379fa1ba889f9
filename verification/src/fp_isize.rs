//! Fixed-point signed decimal numbers.
//!
//! An `FpIsize<PRECISION>` stores a currency value exactly, as a signed
//! machine integer scaled by `10^PRECISION`; `PRECISION` is the number of
//! digits kept after the decimal point.  The mathematical value of the
//! scaled integer is exposed through the view `@`, and every operation is
//! specified against that view.

use vstd::pervasive::unreached;
use vstd::prelude::*;
use vstd::string::StringSliceAdditionalSpecFns;

use crate::digits::{
    all_digits, digits_val, lemma_digits_val_bound, lemma_pow10_increases, lemma_pow10_pos,
    lemma_spec_digits_ascii, parse_digits, pow10, pow10_u64, push_digits, spec_digits, DIGITS_CAP,
};

verus! {

/// Why an amount could not be built from its decimal parts.
#[derive(Clone, Copy, PartialEq, Eq, Structural, Debug)]
pub enum AmountError {
    /// The fractional part has more digits than the precision keeps.
    PrecisionExceeded,
}

/// The scaled value denoted by an integral and a fractional digit run
/// under precision `p`: the integral part shifted up by `p` places, plus
/// the fraction shifted up by the places it leaves unused.
pub open spec fn parts_value(ib: Seq<u8>, fb: Seq<u8>, p: nat) -> int {
    digits_val(ib) * pow10(p) + digits_val(fb) * pow10((p - fb.len()) as nat)
}

/// `n` ASCII zero digits.
pub open spec fn zeroes(n: nat) -> Seq<u8> {
    Seq::new(n, |i: int| 48u8)
}

/// The rendered decimal form of the scaled value `v` at precision `p`:
/// the sign if `v` is negative, the integral digits, a dot, and the
/// fractional digits zero-padded on the left to `p` places.
pub open spec fn spec_render(v: int, p: nat) -> Seq<u8> {
    let mag = (if v < 0 {
        -v
    } else {
        v
    }) as nat;
    let ip = mag / pow10(p);
    let fp = mag % pow10(p);
    let fd = spec_digits(fp);
    let pad = if fd.len() < p {
        (p - fd.len()) as nat
    } else {
        0
    };
    (if v < 0 {
        seq![45u8]
    } else {
        Seq::<u8>::empty()
    }) + spec_digits(ip) + seq![46u8] + zeroes(pad) + fd
}

/// Ten to the eighteenth power, the largest power of ten the renderer
/// and parser work with, written out.
proof fn lemma_pow10_18()
    ensures
        pow10(18) == 1_000_000_000_000_000_000,
{
    reveal_with_fuel(pow10, 20);
}

/// Relies on `String::from_utf8`: a vector of ASCII bytes decodes to the
/// string whose characters are exactly those bytes.
#[verifier::external_body]
fn ascii_string(bytes: Vec<u8>) -> (r: String)
    requires
        forall|i: int| 0 <= i < bytes@.len() ==> bytes@[i] < 128,
    ensures
        r@ == bytes@.map_values(|b: u8| b as char),
{
    String::from_utf8(bytes).unwrap_or_default()
}

/// Fixed-point decimal number with `PRECISION` fractional digits.
///
/// The inner scaled integer is limited to the machine's signed integer
/// range; arithmetic contracts require the result to stay inside it.
#[derive(Clone, Copy, PartialEq, Eq, Debug)]
pub struct FpIsize<const PRECISION: u32> {
    inner: isize,
}

impl<const PRECISION: u32> View for FpIsize<PRECISION> {
    type V = int;

    closed spec fn view(&self) -> int {
        self.inner as int
    }
}

/// The represented value of any fixed-point number lies in the machine
/// integer range, because it is stored as one machine integer.
pub broadcast proof fn lemma_fp_view_in_range<const PRECISION: u32>(a: FpIsize<PRECISION>)
    ensures
        isize::MIN as int <= #[trigger] a@ <= isize::MAX as int,
{
}

impl<const PRECISION: u32> FpIsize<PRECISION> {
    /// Builds the number whose scaled integer representation is `inner`.
    ///
    /// The caller is responsible for scaling: `inner` is the value times
    /// `10^PRECISION`.
    pub fn new(inner: isize) -> (r: Self)
        ensures
            r@ == inner as int,
    {
        FpIsize { inner }
    }

    /// The number zero.
    pub fn zero() -> (r: Self)
        ensures
            r@ == 0,
    {
        FpIsize { inner: 0 }
    }

    /// Sum of two numbers; the result must stay in the machine range.
    pub fn add(self, rhs: Self) -> (r: Self)
        requires
            isize::MIN <= self@ + rhs@ <= isize::MAX,
        ensures
            r@ == self@ + rhs@,
    {
        FpIsize { inner: self.inner + rhs.inner }
    }

    /// Difference of two numbers; the result must stay in the machine range.
    pub fn sub(self, rhs: Self) -> (r: Self)
        requires
            isize::MIN <= self@ - rhs@ <= isize::MAX,
        ensures
            r@ == self@ - rhs@,
    {
        FpIsize { inner: self.inner - rhs.inner }
    }

    /// Negation; the result must stay in the machine range.
    pub fn neg(self) -> (r: Self)
        requires
            self@ != isize::MIN,
        ensures
            r@ == -self@,
    {
        FpIsize { inner: -self.inner }
    }

    /// Whether this number is strictly below zero.
    pub fn is_negative(&self) -> (b: bool)
        ensures
            b == (self@ < 0),
    {
        self.inner < 0
    }

    /// Strict order on the represented values.
    pub fn lt(&self, rhs: &Self) -> (b: bool)
        ensures
            b == (self@ < rhs@),
    {
        self.inner < rhs.inner
    }

    /// The scaled integer representation: the value times `10^PRECISION`.
    pub fn scaled(&self) -> (r: isize)
        ensures
            r as int == self@,
    {
        self.inner
    }

    /// Builds the number written `integral.fractional`; at precision two,
    /// `("10", "15")` denotes the scaled integer 1015.  Fails with
    /// `PrecisionExceeded` when the fraction carries more digits than the
    /// precision keeps.  Both parts must be plain digit runs whose value
    /// stays in range; the sign, if any, is the caller's affair.
    pub fn from_parts(integral: &str, fractional: &str) -> (r: Result<Self, AmountError>)
        requires
            PRECISION <= 18,
            all_digits(integral.spec_bytes()),
            all_digits(fractional.spec_bytes()),
            integral.spec_bytes().len() >= 1,
            fractional.spec_bytes().len() >= 1,
            fractional.spec_bytes().len() <= PRECISION ==> {
                let v = parts_value(
                    integral.spec_bytes(),
                    fractional.spec_bytes(),
                    PRECISION as nat,
                );
                v <= DIGITS_CAP && v <= isize::MAX
            },
        ensures
            match r {
                Ok(a) => {
                    &&& fractional.spec_bytes().len() <= PRECISION
                    &&& a@ == parts_value(
                        integral.spec_bytes(),
                        fractional.spec_bytes(),
                        PRECISION as nat,
                    )
                },
                Err(e) => {
                    &&& fractional.spec_bytes().len() > PRECISION
                    &&& e == AmountError::PrecisionExceeded
                },
            },
    {
        let ib = integral.as_bytes();
        let fb = fractional.as_bytes();
        if fb.len() > PRECISION as usize {
            return Err(AmountError::PrecisionExceeded);
        }
        let ghost di = digits_val(ib@);
        let ghost df = digits_val(fb@);
        let ghost p1s = pow10(PRECISION as nat);
        let ghost p2s = pow10((PRECISION - fb@.len()) as nat);
        proof {
            assert(ib@.subrange(0, ib@.len() as int) =~= ib@);
            assert(fb@.subrange(0, fb@.len() as int) =~= fb@);
            lemma_digits_val_bound(ib@);
            lemma_digits_val_bound(fb@);
            lemma_pow10_pos(PRECISION as nat);
            lemma_pow10_pos((PRECISION - fb@.len()) as nat);
            assert(di <= di * p1s + df * p2s) by (nonlinear_arith)
                requires
                    di >= 0,
                    df >= 0,
                    p1s >= 1,
                    p2s >= 1,
            ;
            assert(df <= di * p1s + df * p2s) by (nonlinear_arith)
                requires
                    di >= 0,
                    df >= 0,
                    p1s >= 1,
                    p2s >= 1,
            ;
            lemma_pow10_increases(PRECISION as nat, 18);
            lemma_pow10_increases((PRECISION - fb@.len()) as nat, 18);
            lemma_pow10_18();
        }
        let iv = match parse_digits(ib, 0, ib.len()) {
            Some(v) => v,
            None => unreached(),
        };
        let fv = match parse_digits(fb, 0, fb.len()) {
            Some(v) => v,
            None => unreached(),
        };
        let p1 = pow10_u64(PRECISION);
        let p2 = pow10_u64(PRECISION - fb.len() as u32);
        proof {
            assert((iv as u128) * (p1 as u128) == di * p1s && (fv as u128) * (p2 as u128) == df
                * p2s) by (nonlinear_arith)
                requires
                    iv == di,
                    p1 == p1s,
                    fv == df,
                    p2 == p2s,
                    0 <= di * p1s + df * p2s <= DIGITS_CAP,
                    di >= 0,
                    df >= 0,
                    p1s >= 1,
                    p2s >= 1,
            ;
        }
        let scaled128 = (iv as u128) * (p1 as u128) + (fv as u128) * (p2 as u128);
        Ok(FpIsize { inner: scaled128 as isize })
    }

    /// Renders the number as `integral.fractional`: the sign first if it
    /// is negative, then the integral part, a dot, and the fractional
    /// part zero-padded to the precision.
    pub fn to_decimal_string(&self) -> (r: String)
        requires
            PRECISION <= 18,
        ensures
            r@ == spec_render(self@, PRECISION as nat).map_values(|b: u8| b as char),
    {
        proof {
            lemma_pow10_increases(PRECISION as nat, 18);
            lemma_pow10_18();
            lemma_pow10_pos(PRECISION as nat);
        }
        let factor = pow10_u64(PRECISION) as u128;
        let v = self.inner as i128;
        let neg = v < 0;
        let mag: u128 = if neg {
            (-v) as u128
        } else {
            v as u128
        };
        let ip = mag / factor;
        let fp = mag % factor;
        let mut bytes: Vec<u8> = Vec::new();
        if neg {
            bytes.push(45);
        }
        push_digits(ip, &mut bytes);
        bytes.push(46);
        let mut fd: Vec<u8> = Vec::new();
        push_digits(fp, &mut fd);
        let flen = fd.len();
        let mut pad: usize = if flen < PRECISION as usize {
            PRECISION as usize - flen
        } else {
            0
        };
        let ghost pad0 = pad as nat;
        let ghost head = bytes@;
        while pad > 0
            invariant
                pad <= pad0,
                bytes@ == head + zeroes((pad0 - pad) as nat),
            decreases pad,
        {
            bytes.push(48);
            pad = pad - 1;
            proof {
                assert(bytes@ =~= head + zeroes((pad0 - pad) as nat));
            }
        }
        bytes.append(&mut fd);
        proof {
            assert(bytes@ =~= spec_render(self@, PRECISION as nat));
            lemma_spec_digits_ascii(ip as nat);
            lemma_spec_digits_ascii(fp as nat);
            assert forall|i: int| 0 <= i < bytes@.len() implies bytes@[i] < 128 by {
                assert(all_digits(spec_digits(ip as nat)));
                assert(all_digits(spec_digits(fp as nat)));
            }
        }
        ascii_string(bytes)
    }
}

} // verus!
