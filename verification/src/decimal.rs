//! Exact decimal numbers: a signed 96-bit mantissa and a power-of-ten scale.

use std::cmp::Ordering;
use vstd::prelude::*;
use vstd::std_specs::cmp::PartialEqSpecImpl;
use vstd::std_specs::cmp::PartialOrdSpecImpl;

verus! {

/// Largest scale a decimal can carry.
pub const MAX_SCALE: u32 = 28;

/// Largest magnitude of a mantissa: `2^96 - 1`.
pub const MAX_MANTISSA: i128 = 0xFFFF_FFFF_FFFF_FFFF_FFFF_FFFF;

/// `10^n`.
pub open spec fn pow10(n: nat) -> nat
    decreases n,
{
    if n == 0 {
        1
    } else {
        10 * pow10((n - 1) as nat)
    }
}

/// The number `mantissa / 10^scale`, and its sign. The sign says something
/// of its own only for zero, which can be written with a minus sign.
pub struct DecimalView {
    pub mantissa: int,
    pub scale: nat,
    pub negative: bool,
}

impl DecimalView {
    /// This number's mantissa once both numbers are brought to the scale
    /// `self.scale + other.scale`.
    pub open spec fn aligned(self, other: DecimalView) -> int {
        self.mantissa * pow10(other.scale)
    }

    /// Numeric equality: `1.0` equals `1.00`.
    pub open spec fn same(self, other: DecimalView) -> bool {
        self.aligned(other) == other.aligned(self)
    }

    /// Numeric strict order.
    pub open spec fn below(self, other: DecimalView) -> bool {
        self.aligned(other) < other.aligned(self)
    }

    /// How `self` stands to `other` in the numeric order.
    pub open spec fn order(self, other: DecimalView) -> Ordering {
        if self.below(other) {
            Ordering::Less
        } else if self.same(other) {
            Ordering::Equal
        } else {
            Ordering::Greater
        }
    }
}

/// A power of ten is positive.
pub proof fn lemma_pow10_is_positive(n: nat)
    ensures
        pow10(n) > 0,
    decreases n,
{
    if n > 0 {
        lemma_pow10_is_positive((n - 1) as nat);
    }
}

/// Of two numbers just one holds: the first is below the second, they are
/// the same, or the second is below the first.
pub proof fn lemma_order_is_total(a: DecimalView, b: DecimalView)
    ensures
        a.below(b) || a.same(b) || b.below(a),
        !(a.below(b) && a.same(b)),
        !(a.below(b) && b.below(a)),
        !(a.same(b) && b.below(a)),
        a.same(a),
        a.same(b) == b.same(a),
{
}

/// Numbers of one scale stand to each other as their mantissas do.
pub proof fn lemma_same_scale(a: DecimalView, b: DecimalView)
    requires
        a.scale == b.scale,
    ensures
        a.same(b) <==> a.mantissa == b.mantissa,
        a.below(b) <==> a.mantissa < b.mantissa,
{
    lemma_pow10_is_positive(a.scale);
    let (ma, mb, p) = (a.mantissa, b.mantissa, pow10(a.scale) as int);
    assert((ma * p == mb * p <==> ma == mb) && (ma * p < mb * p <==> ma < mb))
        by (nonlinear_arith)
        requires
            p > 0,
    ;
}

/// A zero behind the last digit does not change the number.
pub proof fn lemma_trailing_zero(a: DecimalView)
    ensures
        a.same(
            DecimalView { mantissa: 10 * a.mantissa, scale: a.scale + 1, negative: a.negative },
        ),
{
    let b = DecimalView { mantissa: 10 * a.mantissa, scale: a.scale + 1, negative: a.negative };
    assert(pow10(b.scale) == 10 * pow10(a.scale));
    assert(a.mantissa * (10 * pow10(a.scale)) == (10 * a.mantissa) * pow10(a.scale))
        by (nonlinear_arith);
}

/// Numbers that are the same as a third are the same.
pub proof fn lemma_same_is_transitive(a: DecimalView, b: DecimalView, c: DecimalView)
    requires
        a.same(b),
        b.same(c),
    ensures
        a.same(c),
{
    lemma_pow10_is_positive(a.scale);
    lemma_pow10_is_positive(b.scale);
    lemma_pow10_is_positive(c.scale);
    let (ma, mb, mc) = (a.mantissa, b.mantissa, c.mantissa);
    let (pa, pb, pc) = (pow10(a.scale) as int, pow10(b.scale) as int, pow10(c.scale) as int);
    assert(ma * pc == mc * pa) by (nonlinear_arith)
        requires
            ma * pb == mb * pa,
            mb * pc == mc * pb,
            pa > 0,
            pb > 0,
            pc > 0,
    {
        assert((ma * pc) * pb == (ma * pb) * pc);
        assert((mb * pa) * pc == (mb * pc) * pa);
        assert((mc * pb) * pa == (mc * pa) * pb);
        assert((ma * pc) * pb == (mc * pa) * pb);
    }
}

/// A number below one that is below a third is below the third.
pub proof fn lemma_below_is_transitive(a: DecimalView, b: DecimalView, c: DecimalView)
    requires
        a.below(b),
        b.below(c),
    ensures
        a.below(c),
{
    lemma_pow10_is_positive(a.scale);
    lemma_pow10_is_positive(b.scale);
    lemma_pow10_is_positive(c.scale);
    let (ma, mb, mc) = (a.mantissa, b.mantissa, c.mantissa);
    let (pa, pb, pc) = (pow10(a.scale) as int, pow10(b.scale) as int, pow10(c.scale) as int);
    assert(ma * pc < mc * pa) by (nonlinear_arith)
        requires
            ma * pb < mb * pa,
            mb * pc < mc * pb,
            pa > 0,
            pb > 0,
            pc > 0,
    {
        assert((ma * pb) * pc < (mb * pa) * pc);
        assert((mb * pc) * pa < (mc * pb) * pa);
        assert((ma * pc) * pb == (ma * pb) * pc);
        assert((mb * pa) * pc == (mb * pc) * pa);
        assert((mc * pb) * pa == (mc * pa) * pb);
        assert((ma * pc) * pb < (mc * pa) * pb);
    }
}

/// An exact decimal number.
#[derive(Clone, Copy)]
pub struct Decimal {
    mantissa: i128,
    scale: u32,
    negative: bool,
}

impl View for Decimal {
    type V = DecimalView;

    closed spec fn view(&self) -> DecimalView {
        DecimalView {
            mantissa: self.mantissa as int,
            scale: self.scale as nat,
            negative: self.negative,
        }
    }
}

impl Decimal {
    #[verifier::type_invariant]
    spec fn in_range(self) -> bool {
        &&& self.scale <= MAX_SCALE
        &&& -MAX_MANTISSA <= self.mantissa <= MAX_MANTISSA
        &&& self.mantissa < 0 ==> self.negative
        &&& self.mantissa > 0 ==> !self.negative
    }

    /// The decimal `num / 10^scale`.
    pub fn new(num: i64, scale: u32) -> (d: Decimal)
        requires
            scale <= MAX_SCALE,
        ensures
            d@.mantissa == num,
            d@.scale == scale,
            d@.negative == (num < 0),
    {
        Decimal { mantissa: num as i128, scale, negative: num < 0 }
    }

    /// The decimal `num / 10^scale`, where both parts are in range.
    pub fn try_from_i128_with_scale(num: i128, scale: u32) -> (r: Option<Decimal>)
        ensures
            r is Some <==> scale <= MAX_SCALE && -MAX_MANTISSA <= num <= MAX_MANTISSA,
            r matches Some(d) ==> d@.mantissa == num && d@.scale == scale && d@.negative == (num
                < 0),
    {
        Decimal::try_from_parts(num, scale, num < 0)
    }

    /// The decimal `num / 10^scale` with the given sign, where both parts
    /// are in range and the sign is that of `num`. Zero takes either sign.
    pub fn try_from_parts(num: i128, scale: u32, negative: bool) -> (r: Option<Decimal>)
        ensures
            r is Some <==> scale <= MAX_SCALE && -MAX_MANTISSA <= num <= MAX_MANTISSA && (num < 0
                ==> negative) && (num > 0 ==> !negative),
            r matches Some(d) ==> d@.mantissa == num && d@.scale == scale && d@.negative
                == negative,
    {
        if scale <= MAX_SCALE && -MAX_MANTISSA <= num && num <= MAX_MANTISSA && (num >= 0
            || negative) && (num <= 0 || !negative) {
            Some(Decimal { mantissa: num, scale, negative })
        } else {
            None
        }
    }

    /// The mantissa: the number multiplied by `10^scale`.
    pub fn mantissa(&self) -> (m: i128)
        ensures
            m == self@.mantissa,
            -MAX_MANTISSA <= m <= MAX_MANTISSA,
    {
        proof {
            use_type_invariant(self);
        }
        self.mantissa
    }

    /// Whether the number carries a minus sign: a number below zero does, a
    /// number above zero does not, zero may.
    pub fn is_sign_negative(&self) -> (negative: bool)
        ensures
            negative == self@.negative,
            self@.mantissa < 0 ==> negative,
            self@.mantissa > 0 ==> !negative,
    {
        proof {
            use_type_invariant(self);
        }
        self.negative
    }

    /// The scale: the number of digits behind the decimal point.
    pub fn scale(&self) -> (s: u32)
        ensures
            s == self@.scale,
            s <= MAX_SCALE,
    {
        proof {
            use_type_invariant(self);
        }
        self.scale
    }
}

/// What `rust_decimal::Decimal` prints for the number `mantissa / 10^scale`
/// with this sign.
pub uninterp spec fn decimal_text(mantissa: int, scale: nat, negative: bool) -> Seq<char>;

/// Calls `Ord::cmp` of `rust_decimal::Decimal` on the two numbers. The
/// contract claims that the outside crate orders decimals by their numeric
/// value, whatever their scales and whatever the sign of a zero. Both
/// numbers are rebuilt with `Decimal::from_i128_with_scale`, which accepts
/// every mantissa and scale that [`Decimal`]'s invariant admits, and given
/// their sign with `Decimal::set_sign_negative`.
#[verifier::external_body]
fn order(a: &Decimal, b: &Decimal) -> (r: Ordering)
    ensures
        r == a@.order(b@),
{
    let mut x = rust_decimal::Decimal::from_i128_with_scale(a.mantissa, a.scale);
    x.set_sign_negative(a.negative);
    let mut y = rust_decimal::Decimal::from_i128_with_scale(b.mantissa, b.scale);
    y.set_sign_negative(b.negative);
    x.cmp(&y)
}

/// Calls `to_string` of `rust_decimal::Decimal`, that is its `Display` with
/// no width and no precision, on the number. The contract only names the
/// text: it is a function of the mantissa, the scale and the sign alone. The
/// number is rebuilt as in [`order`].
#[verifier::external_body]
pub(crate) fn format_decimal(d: &Decimal) -> (text: String)
    ensures
        text@ == decimal_text(d@.mantissa, d@.scale, d@.negative),
{
    let mut number = rust_decimal::Decimal::from_i128_with_scale(d.mantissa, d.scale);
    number.set_sign_negative(d.negative);
    number.to_string()
}

impl PartialEq for Decimal {
    fn eq(&self, other: &Decimal) -> (r: bool) {
        match order(self, other) {
            Ordering::Equal => true,
            _ => false,
        }
    }
}

impl Eq for Decimal {}

impl PartialEqSpecImpl for Decimal {
    open spec fn obeys_eq_spec() -> bool {
        true
    }

    open spec fn eq_spec(&self, other: &Decimal) -> bool {
        self@.same(other@)
    }
}

impl PartialOrd for Decimal {
    fn partial_cmp(&self, other: &Decimal) -> (r: Option<Ordering>) {
        Some(order(self, other))
    }
}

impl PartialOrdSpecImpl for Decimal {
    open spec fn obeys_partial_cmp_spec() -> bool {
        true
    }

    open spec fn partial_cmp_spec(&self, other: &Decimal) -> Option<Ordering> {
        Some(self@.order(other@))
    }
}

/// `std::fmt::Formatter`: handed on to the outside crate, never looked into.
#[verifier::external_type_specification]
#[verifier::external_body]
pub struct ExFormatter<'a>(std::fmt::Formatter<'a>);

/// `std::fmt::Error`: handed back from the outside crate, never looked
/// into.
#[verifier::external_type_specification]
#[verifier::external_body]
pub struct ExFmtError(std::fmt::Error);

impl std::fmt::Debug for Decimal {
    /// Writes what `to_string` of `rust_decimal::Decimal` gives for the
    /// number, so that a decimal shows as the outside crate shows it. The
    /// text is made with no width and no precision, whatever the caller's
    /// formatter asks for, and written with `Formatter::write_str`. Nothing
    /// is claimed of what is written.
    #[verifier::external_body]
    fn fmt(&self, f: &mut std::fmt::Formatter<'_>) -> std::fmt::Result {
        let mut number = rust_decimal::Decimal::from_i128_with_scale(self.mantissa, self.scale);
        number.set_sign_negative(self.negative);
        f.write_str(&number.to_string())
    }
}

} // verus!
