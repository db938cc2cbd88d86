use core::cmp::Ordering;
use rust_decimal::Decimal;
use vstd::prelude::*;

verus! {

/// The largest magnitude of a mantissa: 96 bits.
pub const MAX_MANTISSA: i128 = 0xFFFF_FFFF_FFFF_FFFF_FFFF_FFFF;

/// The largest number of digits after the decimal point.
pub const MAX_SCALE: u32 = 28;

/// Ten to the power `n`.
pub open spec fn pow10(n: nat) -> int
    decreases n,
{
    if n == 0 {
        1
    } else {
        10 * pow10((n - 1) as nat)
    }
}

/// Powers of ten grow with the exponent and stay positive.
pub proof fn lemma_pow10_monotonic(i: nat, j: nat)
    requires
        i <= j,
    ensures
        0 < pow10(i) <= pow10(j),
    decreases j,
{
    if j > i {
        lemma_pow10_monotonic(i, (j - 1) as nat);
    } else if i > 0 {
        lemma_pow10_monotonic((i - 1) as nat, (i - 1) as nat);
    }
}

/// The largest power of ten that a scale can ask for.
pub proof fn lemma_pow10_max_scale()
    ensures
        pow10(MAX_SCALE as nat) == 10_000_000_000_000_000_000_000_000_000int,
{
    reveal_with_fuel(pow10, 29);
}

/// Ten to the power `n`, for an exponent that a scale can take.
pub fn pow10_u128(n: u32) -> (r: u128)
    requires
        n <= MAX_SCALE,
    ensures
        r == pow10(n as nat),
{
    let mut r: u128 = 1;
    let mut i: u32 = 0;
    while i < n
        invariant
            i <= n <= MAX_SCALE,
            r == pow10(i as nat),
        decreases n - i,
    {
        proof {
            lemma_pow10_monotonic(i as nat, (MAX_SCALE - 1) as nat);
            lemma_pow10_max_scale();
            assert(pow10((MAX_SCALE - 1) as nat) * 10 == pow10(MAX_SCALE as nat));
        }
        r = r * 10;
        i = i + 1;
    }
    r
}

/// An exact decimal number: `mantissa` times ten to the power `-scale`.
///
/// Two decimals with different scales may stand for the same number
/// (`1.0` and `1.00`); comparisons go by the number.
#[derive(Debug, Clone, Copy, PartialEq, Eq, Structural)]
pub struct Dec {
    pub mantissa: i128,
    pub scale: u32,
}

impl Dec {
    /// The mantissa fits 96 bits and the scale is at most 28.
    pub open spec fn wf(self) -> bool {
        &&& self.scale <= MAX_SCALE
        &&& -MAX_MANTISSA <= self.mantissa <= MAX_MANTISSA
    }

    /// The number in units of ten to the power -28, an integer for every
    /// well-formed decimal: the order and equality of numbers are those of units.
    pub open spec fn units(self) -> int {
        self.mantissa * pow10((MAX_SCALE - self.scale) as nat)
    }

    /// The decimal `mantissa` times ten to the power `-scale`, if the
    /// mantissa fits 96 bits and the scale is at most 28.
    pub fn new(mantissa: i128, scale: u32) -> (r: Option<Dec>)
        ensures
            r is Some <==> (Dec { mantissa, scale }).wf(),
            r is Some ==> r == Some(Dec { mantissa, scale }),
    {
        if scale <= MAX_SCALE && -MAX_MANTISSA <= mantissa && mantissa <= MAX_MANTISSA {
            Some(Dec { mantissa, scale })
        } else {
            None
        }
    }

    /// Whether the number is zero.
    pub fn is_zero(&self) -> (r: bool)
        ensures
            r == (self.mantissa == 0),
    {
        self.mantissa == 0
    }
}

/// Relies on rust_decimal's `Ord for Decimal`, which orders decimals by the
/// numbers they stand for, whatever their scales.
#[verifier::external_body]
pub(crate) fn compare(a: &Dec, b: &Dec) -> (r: Ordering)
    requires
        a.wf(),
        b.wf(),
    ensures
        (r == Ordering::Less) == (a.units() < b.units()),
        (r == Ordering::Equal) == (a.units() == b.units()),
        (r == Ordering::Greater) == (a.units() > b.units()),
{
    let x = Decimal::from_i128_with_scale(a.mantissa, a.scale);
    let y = Decimal::from_i128_with_scale(b.mantissa, b.scale);
    x.cmp(&y)
}

/// The text that rust_decimal prints for `mantissa` at `scale`.
pub uninterp spec fn decimal_text(mantissa: int, scale: int) -> Seq<char>;

/// Relies on rust_decimal's `Display for Decimal`: the digits of the number,
/// with as many after the point as the scale says.
#[verifier::external_body]
pub(crate) fn to_text(d: &Dec) -> (r: String)
    requires
        d.wf(),
    ensures
        r@ == decimal_text(d.mantissa as int, d.scale as int),
{
    Decimal::from_i128_with_scale(d.mantissa, d.scale).to_string()
}

} // verus!
