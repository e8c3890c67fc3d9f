use vstd::prelude::*;
use bigdecimal::num_bigint::{BigInt, Sign};
use bigdecimal::BigDecimal;
use core::cmp::Ordering;
use crate::digits::{compare_scaled, lemma_leading_zeros, lemma_lower, lemma_pow10_positive};

verus! {

/// Number written by a sequence of base-ten digits, most significant first.
pub open spec fn digits_value(digits: Seq<u8>) -> nat
    decreases digits.len(),
{
    if digits.len() == 0 {
        0
    } else {
        digits_value(digits.drop_last()) * 10 + digits.last() as nat
    }
}

/// Ten to the power `e`.
pub open spec fn pow10(e: nat) -> nat
    decreases e,
{
    if e == 0 {
        1
    } else {
        10 * pow10((e - 1) as nat)
    }
}

/// Order of two integers.
pub open spec fn int_order(a: int, b: int) -> Ordering {
    if a < b {
        Ordering::Less
    } else if a == b {
        Ordering::Equal
    } else {
        Ordering::Greater
    }
}

/// Lexicographic order of two texts, character by character by code point.
pub open spec fn text_order(a: Seq<char>, b: Seq<char>) -> Ordering
    decreases a.len(),
{
    if a.len() == 0 {
        if b.len() == 0 {
            Ordering::Equal
        } else {
            Ordering::Less
        }
    } else if b.len() == 0 {
        Ordering::Greater
    } else if a[0] != b[0] {
        int_order(a[0] as int, b[0] as int)
    } else {
        text_order(a.drop_first(), b.drop_first())
    }
}

/// Relies on `String`'s `Ord`, which orders by the bytes of the UTF-8
/// encoding, that is by code points, lexicographically.
#[verifier::external_body]
pub(crate) fn compare_text(a: &String, b: &String) -> (r: Ordering)
    ensures
        r == text_order(a@, b@),
{
    a.cmp(b)
}

/// Canonical text of the decimal `(-1)^negative * digits * 10^-scale`, as the
/// decimal library renders it. The library's thresholds for switching to
/// exponent notation are fixed when it is built, so within one build the
/// text depends on these arguments alone.
pub uninterp spec fn decimal_text(negative: bool, digits: Seq<u8>, scale: int) -> Seq<char>;

/// A decimal number as plain values: a sign, the digits of the unscaled
/// magnitude, and the number of those digits that stand after the point.
pub struct DecimalView {
    pub negative: bool,
    pub digits: Seq<u8>,
    pub scale: int,
}

impl DecimalView {
    pub open spec fn wf(self) -> bool {
        forall|i: int| 0 <= i < self.digits.len() ==> #[trigger] self.digits[i] < 10
    }

    /// The unscaled integer, with its sign.
    pub open spec fn unscaled(self) -> int {
        if self.negative {
            -(digits_value(self.digits) as int)
        } else {
            digits_value(self.digits) as int
        }
    }

    /// Whether `self` and `other` denote the same number, whatever their
    /// scales: `u1 / 10^s1 == u2 / 10^s2`.
    pub open spec fn same_number(self, other: DecimalView) -> bool {
        let low = if self.scale <= other.scale { self.scale } else { other.scale };
        self.unscaled() * pow10((other.scale - low) as nat) == other.unscaled() * pow10(
            (self.scale - low) as nat,
        )
    }

    /// Equality of decimals: the same number.
    pub open spec fn equals(self, other: DecimalView) -> bool {
        self.same_number(other)
    }

    /// Order of decimals by their values: `u1 / 10^s1` against `u2 / 10^s2`,
    /// both brought to the smaller scale.
    pub open spec fn order(self, other: DecimalView) -> Ordering {
        let low = if self.scale <= other.scale { self.scale } else { other.scale };
        int_order(
            self.unscaled() * pow10((other.scale - low) as nat),
            other.unscaled() * pow10((self.scale - low) as nat),
        )
    }

    pub open spec fn text(self) -> Seq<char> {
        decimal_text(self.negative, self.digits, self.scale)
    }
}

/// Exact decimal number of arbitrary precision.
///
/// The trailing zeros of the unscaled digits are kept, so `2.50` and `2.5`
/// are told apart in their text while they compare equal.
#[derive(Debug)]
pub struct Decimal {
    negative: bool,
    digits: Vec<u8>,
    scale: i64,
}

impl View for Decimal {
    type V = DecimalView;

    closed spec fn view(&self) -> DecimalView {
        DecimalView { negative: self.negative, digits: self.digits@, scale: self.scale as int }
    }
}

/// Base-ten digits of `n`, most significant first, without leading zeros
/// (zero is the single digit `0`).
pub open spec fn canonical_digits(n: nat) -> Seq<u8>
    decreases n,
{
    if n < 10 {
        seq![n as u8]
    } else {
        canonical_digits(n / 10).push((n % 10) as u8)
    }
}

/// The canonical digits of `n` are digits, and they write `n`.
pub proof fn lemma_canonical_digits(n: nat)
    ensures
        digits_value(canonical_digits(n)) == n,
        forall|i: int|
            0 <= i < canonical_digits(n).len() ==> #[trigger] canonical_digits(n)[i] < 10,
    decreases n,
{
    if n >= 10 {
        lemma_canonical_digits(n / 10);
        let s = canonical_digits(n / 10);
        assert(canonical_digits(n).drop_last() =~= s);
        assert(canonical_digits(n).last() as nat == n % 10);
        assert(digits_value(canonical_digits(n)) == (n / 10) * 10 + n % 10);
    } else {
        assert(seq![n as u8].drop_last() =~= Seq::<u8>::empty());
        assert(digits_value(canonical_digits(n)) == digits_value(Seq::<u8>::empty()) * 10 + n);
    }
}

/// Digits of `m`, as `canonical_digits` writes them.
fn digits_of(m: u128) -> (r: Vec<u8>)
    ensures
        r@ == canonical_digits(m as nat),
    decreases m,
{
    if m < 10 {
        let mut v: Vec<u8> = Vec::new();
        v.push(m as u8);
        assert(v@ =~= seq![m as u8]);
        v
    } else {
        let mut v = digits_of(m / 10);
        v.push((m % 10) as u8);
        v
    }
}

/// Relies on `BigInt::from_radix_be` and `BigDecimal::new` to build the
/// number, and on `BigDecimal`'s `Display` for its canonical text.
#[verifier::external_body]
fn render_decimal(d: &Decimal) -> (r: String)
    requires
        d@.wf(),
    ensures
        r@ == decimal_text(d@.negative, d@.digits, d@.scale),
{
    let sign = if d.negative { Sign::Minus } else { Sign::Plus };
    let int_val = BigInt::from_radix_be(sign, &d.digits, 10).unwrap();
    BigDecimal::new(int_val, d.scale).to_string()
}

/// Two decimals are equal exactly where their order says `Equal`.
pub proof fn lemma_equals_iff_order_equal(a: DecimalView, b: DecimalView)
    ensures
        a.equals(b) <==> a.order(b) == Ordering::Equal,
{
}

/// Index of the first non-zero digit, or the length where there is none.
fn first_significant(d: &Vec<u8>) -> (r: usize)
    ensures
        r <= d.len(),
        forall|j: int| 0 <= j < r ==> #[trigger] d[j] == 0,
        r < d.len() ==> d[r as int] != 0,
{
    let mut i: usize = 0;
    while i < d.len() && d[i] == 0
        invariant
            i <= d.len(),
            forall|j: int| 0 <= j < i ==> #[trigger] d[j] == 0,
        decreases d.len() - i,
    {
        i = i + 1;
    }
    i
}

/// Exact order of two decimals by value.
fn compare_decimals(a: &Decimal, b: &Decimal) -> (r: Ordering)
    requires
        a@.wf(),
        b@.wf(),
    ensures
        r == a@.order(b@),
{
    let ia = first_significant(&a.digits);
    let ib = first_significant(&b.digits);
    let pa: u64 = if a.scale <= b.scale { (b.scale as i128 - a.scale as i128) as u64 } else { 0 };
    let pb: u64 = if a.scale <= b.scale { 0 } else { (a.scale as i128 - b.scale as i128) as u64 };
    let m = compare_scaled(&a.digits, ia, pa, &b.digits, ib, pb);
    let neg_a = a.negative && ia < a.digits.len();
    let neg_b = b.negative && ib < b.digits.len();
    let ghost sa = a.digits@.subrange(ia as int, a.digits.len() as int);
    let ghost sb = b.digits@.subrange(ib as int, b.digits.len() as int);
    let ghost x = digits_value(sa) * pow10(pa as nat);
    let ghost y = digits_value(sb) * pow10(pb as nat);
    proof {
        lemma_leading_zeros(a.digits@, ia as int);
        lemma_leading_zeros(b.digits@, ib as int);
        lemma_pow10_positive(pa as nat);
        lemma_pow10_positive(pb as nat);
        let low = if a@.scale <= b@.scale { a@.scale } else { b@.scale };
        assert((b@.scale - low) as nat == pa as nat);
        assert((a@.scale - low) as nat == pb as nat);
        signed_scaled(a@.negative, sa, pa as nat, a.digits@, ia as int);
        signed_scaled(b@.negative, sb, pb as nat, b.digits@, ib as int);
    }
    if neg_a && !neg_b {
        Ordering::Less
    } else if !neg_a && neg_b {
        Ordering::Greater
    } else if neg_a {
        match m {
            Ordering::Less => Ordering::Greater,
            Ordering::Equal => Ordering::Equal,
            Ordering::Greater => Ordering::Less,
        }
    } else {
        m
    }
}

/// The signed unscaled value of digits `d` times `10^p`: minus the scaled
/// magnitude where the sign is negative and some digit is not zero, else the
/// scaled magnitude, which is positive exactly where some digit is not zero.
proof fn signed_scaled(negative: bool, s: Seq<u8>, p: nat, d: Seq<u8>, i: int)
    requires
        0 <= i <= d.len(),
        s == d.subrange(i, d.len() as int),
        digits_value(d) == digits_value(s),
        i < d.len() ==> d[i] != 0,
        pow10(p) > 0,
    ensures
        ({
            let u = if negative { -(digits_value(d) as int) } else { digits_value(d) as int };
            let x = digits_value(s) * pow10(p);
            &&& (negative && i < d.len()) ==> u * pow10(p) == -x
            &&& !(negative && i < d.len()) ==> u * pow10(p) == x
            &&& (i < d.len()) <==> x > 0
        }),
{
    let v = digits_value(s);
    if i < d.len() {
        assert(s[0] == d[i]);
        lemma_lower(s);
        lemma_pow10_positive((s.len() - 1) as nat);
        assert(v * pow10(p) > 0) by (nonlinear_arith)
            requires
                v > 0,
                pow10(p) > 0,
        ;
    } else {
        assert(s.len() == 0);
        assert(v == 0);
        assert(v * pow10(p) == 0) by (nonlinear_arith)
            requires
                v == 0,
        ;
    }
    assert((-(v as int)) * pow10(p) == -(v * pow10(p))) by (nonlinear_arith);
}

impl Decimal {
    #[verifier::type_invariant]
    spec fn inv(self) -> bool {
        self@.wf()
    }


    /// Builds `(-1)^negative * digits * 10^-scale`; `None` where a digit is
    /// not below ten.
    pub fn from_parts(negative: bool, digits: Vec<u8>, scale: i64) -> (r: Option<Decimal>)
        ensures
            r is Some <==> (forall|i: int| 0 <= i < digits@.len() ==> #[trigger] digits@[i] < 10),
            r matches Some(d) ==> d@ == (DecimalView {
                negative,
                digits: digits@,
                scale: scale as int,
            }),
    {
        let mut i: usize = 0;
        while i < digits.len()
            invariant
                0 <= i <= digits@.len(),
                forall|j: int| 0 <= j < i ==> #[trigger] digits@[j] < 10,
            decreases digits@.len() - i,
        {
            if digits[i] >= 10 {
                return None;
            }
            i = i + 1;
        }
        Some(Decimal { negative, digits, scale })
    }

    /// The integer `n`, at scale 0.
    pub fn from_integer(n: i128) -> (r: Decimal)
        ensures
            r@.unscaled() == n as int,
            r@.negative == (n < 0),
            r@.scale == 0,
            r@.digits == canonical_digits((if n < 0 { -(n as int) } else { n as int }) as nat),
    {
        let magnitude: u128 = if n >= 0 {
            n as u128
        } else if n == i128::MIN {
            (i128::MAX as u128) + 1
        } else {
            (-n) as u128
        };
        let digits = digits_of(magnitude);
        proof {
            lemma_canonical_digits(magnitude as nat);
        }
        Decimal { negative: n < 0, digits, scale: 0 }
    }

    pub fn is_negative(&self) -> (r: bool)
        ensures
            r == self@.negative,
    {
        self.negative
    }

    /// Digits of the unscaled magnitude, most significant first.
    pub fn digits(&self) -> (r: &Vec<u8>)
        ensures
            r@ == self@.digits,
    {
        &self.digits
    }

    pub fn scale(&self) -> (r: i64)
        ensures
            r as int == self@.scale,
    {
        self.scale
    }

    /// Canonical text of the number; trailing zeros of the digits are kept.
    pub fn to_text(&self) -> (r: String)
        ensures
            r@ == self@.text(),
    {
        proof {
            use_type_invariant(self);
        }
        render_decimal(self)
    }
}

impl Clone for Decimal {
    fn clone(&self) -> (r: Decimal)
        ensures
            r@ == self@,
    {
        proof {
            use_type_invariant(self);
        }
        Decimal { negative: self.negative, digits: self.digits.clone(), scale: self.scale }
    }
}

impl PartialEq for Decimal {
    fn eq(&self, other: &Decimal) -> (r: bool) {
        proof {
            use_type_invariant(self);
            use_type_invariant(other);
        }
        proof {
            lemma_equals_iff_order_equal(self@, other@);
        }
        match compare_decimals(self, other) {
            Ordering::Equal => true,
            _ => false,
        }
    }
}

impl vstd::std_specs::cmp::PartialEqSpecImpl for Decimal {
    open spec fn obeys_eq_spec() -> bool {
        true
    }

    open spec fn eq_spec(&self, other: &Decimal) -> bool {
        self@.equals(other@)
    }
}

/// Value shown by an element, as plain values.
pub enum ValueView {
    Nothing,
    Text(Seq<char>),
    Decimal(DecimalView),
}

impl ValueView {
    /// Canonical text rendering: empty for `Nothing`, the text itself, or
    /// the decimal's canonical text.
    pub open spec fn text(self) -> Seq<char> {
        match self {
            ValueView::Nothing => Seq::empty(),
            ValueView::Text(s) => s,
            ValueView::Decimal(d) => d.text(),
        }
    }

    /// Order of values: by kind (nothing, text, decimal), then by payload.
    pub open spec fn order(self, other: ValueView) -> Ordering {
        match (self, other) {
            (ValueView::Nothing, ValueView::Nothing) => Ordering::Equal,
            (ValueView::Nothing, _) => Ordering::Less,
            (ValueView::Text(_), ValueView::Nothing) => Ordering::Greater,
            (ValueView::Text(a), ValueView::Text(b)) => text_order(a, b),
            (ValueView::Text(_), ValueView::Decimal(_)) => Ordering::Less,
            (ValueView::Decimal(a), ValueView::Decimal(b)) => a.order(b),
            (ValueView::Decimal(_), _) => Ordering::Greater,
        }
    }

    /// Equality of values: same kind, then equal text or equal decimals.
    pub open spec fn equals(self, other: ValueView) -> bool {
        match (self, other) {
            (ValueView::Nothing, ValueView::Nothing) => true,
            (ValueView::Text(a), ValueView::Text(b)) => a == b,
            (ValueView::Decimal(a), ValueView::Decimal(b)) => a.equals(b),
            _ => false,
        }
    }
}

/// Scalar payload: absence, text, or an exact decimal number.
#[derive(Debug)]
pub enum Value {
    Nothing,
    String(String),
    Decimal(Decimal),
}

impl View for Value {
    type V = ValueView;

    open spec fn view(&self) -> ValueView {
        match self {
            Value::Nothing => ValueView::Nothing,
            Value::String(s) => ValueView::Text(s@),
            Value::Decimal(d) => ValueView::Decimal(d@),
        }
    }
}

impl Value {
    /// A text value holding a copy of `text`.
    pub fn from_text(text: &str) -> (r: Value)
        ensures
            r@ == ValueView::Text(text@),
    {
        Value::String(text.to_string())
    }

    pub fn from_decimal(d: Decimal) -> (r: Value)
        ensures
            r@ == ValueView::Decimal(d@),
    {
        Value::Decimal(d)
    }

    fn from_integer(n: i128) -> (r: Value)
        ensures
            r@ is Decimal,
            r@->Decimal_0.unscaled() == n as int,
            r@->Decimal_0.scale == 0,
            r@->Decimal_0.negative == (n < 0),
            r@->Decimal_0.digits == canonical_digits(
                (if n < 0 { -(n as int) } else { n as int }) as nat,
            ),
    {
        Value::Decimal(Decimal::from_integer(n))
    }

    /// The integer `n` as a decimal at scale 0.
    pub fn from_u8(n: u8) -> (r: Value)
        ensures
            r@ is Decimal,
            r@->Decimal_0.unscaled() == n as int,
            r@->Decimal_0.scale == 0,
            r@->Decimal_0.negative == (n < 0),
            r@->Decimal_0.digits == canonical_digits(
                (if n < 0 { -(n as int) } else { n as int }) as nat,
            ),
    {
        Value::from_integer(n as i128)
    }

    /// The integer `n` as a decimal at scale 0.
    pub fn from_i8(n: i8) -> (r: Value)
        ensures
            r@ is Decimal,
            r@->Decimal_0.unscaled() == n as int,
            r@->Decimal_0.scale == 0,
            r@->Decimal_0.negative == (n < 0),
            r@->Decimal_0.digits == canonical_digits(
                (if n < 0 { -(n as int) } else { n as int }) as nat,
            ),
    {
        Value::from_integer(n as i128)
    }

    /// The integer `n` as a decimal at scale 0.
    pub fn from_u16(n: u16) -> (r: Value)
        ensures
            r@ is Decimal,
            r@->Decimal_0.unscaled() == n as int,
            r@->Decimal_0.scale == 0,
            r@->Decimal_0.negative == (n < 0),
            r@->Decimal_0.digits == canonical_digits(
                (if n < 0 { -(n as int) } else { n as int }) as nat,
            ),
    {
        Value::from_integer(n as i128)
    }

    /// The integer `n` as a decimal at scale 0.
    pub fn from_i16(n: i16) -> (r: Value)
        ensures
            r@ is Decimal,
            r@->Decimal_0.unscaled() == n as int,
            r@->Decimal_0.scale == 0,
            r@->Decimal_0.negative == (n < 0),
            r@->Decimal_0.digits == canonical_digits(
                (if n < 0 { -(n as int) } else { n as int }) as nat,
            ),
    {
        Value::from_integer(n as i128)
    }

    /// The integer `n` as a decimal at scale 0.
    pub fn from_u32(n: u32) -> (r: Value)
        ensures
            r@ is Decimal,
            r@->Decimal_0.unscaled() == n as int,
            r@->Decimal_0.scale == 0,
            r@->Decimal_0.negative == (n < 0),
            r@->Decimal_0.digits == canonical_digits(
                (if n < 0 { -(n as int) } else { n as int }) as nat,
            ),
    {
        Value::from_integer(n as i128)
    }

    /// The integer `n` as a decimal at scale 0.
    pub fn from_i32(n: i32) -> (r: Value)
        ensures
            r@ is Decimal,
            r@->Decimal_0.unscaled() == n as int,
            r@->Decimal_0.scale == 0,
            r@->Decimal_0.negative == (n < 0),
            r@->Decimal_0.digits == canonical_digits(
                (if n < 0 { -(n as int) } else { n as int }) as nat,
            ),
    {
        Value::from_integer(n as i128)
    }

    /// The integer `n` as a decimal at scale 0.
    pub fn from_u64(n: u64) -> (r: Value)
        ensures
            r@ is Decimal,
            r@->Decimal_0.unscaled() == n as int,
            r@->Decimal_0.scale == 0,
            r@->Decimal_0.negative == (n < 0),
            r@->Decimal_0.digits == canonical_digits(
                (if n < 0 { -(n as int) } else { n as int }) as nat,
            ),
    {
        Value::from_integer(n as i128)
    }

    /// The integer `n` as a decimal at scale 0.
    pub fn from_i64(n: i64) -> (r: Value)
        ensures
            r@ is Decimal,
            r@->Decimal_0.unscaled() == n as int,
            r@->Decimal_0.scale == 0,
            r@->Decimal_0.negative == (n < 0),
            r@->Decimal_0.digits == canonical_digits(
                (if n < 0 { -(n as int) } else { n as int }) as nat,
            ),
    {
        Value::from_integer(n as i128)
    }

    /// Canonical text rendering: empty for `Nothing`, the text itself, or
    /// the decimal's canonical text.
    pub fn to_text(&self) -> (r: String)
        ensures
            r@ == self@.text(),
    {
        match self {
            Value::Nothing => String::new(),
            Value::String(s) => s.clone(),
            Value::Decimal(d) => d.to_text(),
        }
    }
}

impl Default for Value {
    fn default() -> (r: Value)
        ensures
            r@ == ValueView::Nothing,
    {
        Value::Nothing
    }
}

impl Clone for Value {
    fn clone(&self) -> (r: Value)
        ensures
            r@ == self@,
    {
        match self {
            Value::Nothing => Value::Nothing,
            Value::String(s) => Value::String(s.clone()),
            Value::Decimal(d) => Value::Decimal(d.clone()),
        }
    }
}

impl PartialEq for Value {
    fn eq(&self, other: &Value) -> (r: bool) {
        match (self, other) {
            (Value::Nothing, Value::Nothing) => true,
            (Value::String(a), Value::String(b)) => a.eq(b),
            (Value::Decimal(a), Value::Decimal(b)) => a.eq(b),
            _ => false,
        }
    }
}

impl vstd::std_specs::cmp::PartialEqSpecImpl for Value {
    open spec fn obeys_eq_spec() -> bool {
        true
    }

    open spec fn eq_spec(&self, other: &Value) -> bool {
        self@.equals(other@)
    }
}

} // verus!

verus! {

impl Eq for Decimal {
}

impl Eq for Value {
}

impl From<Decimal> for Value {
    fn from(d: Decimal) -> (r: Value) {
        Value::Decimal(d)
    }
}

impl vstd::std_specs::convert::FromSpecImpl<Decimal> for Value {
    open spec fn obeys_from_spec() -> bool {
        true
    }

    open spec fn from_spec(d: Decimal) -> Value {
        Value::Decimal(d)
    }
}

/// Text rendering: nothing renders as empty text, a text value as itself,
/// a decimal as its canonical text.
pub proof fn lemma_value_text(text: Seq<char>, d: DecimalView)
    ensures
        ValueView::Nothing.text() == Seq::<char>::empty(),
        ValueView::Text(text).text() == text,
        ValueView::Decimal(d).text() == d.text(),
{
}

/// A trailing zero digit with one more place after the point gives an equal
/// decimal (so `5` equals `5.0`), while its text may differ.
pub proof fn lemma_trailing_zero_equal(d: DecimalView)
    requires
        d.wf(),
    ensures
        d.equals(DecimalView { negative: d.negative, digits: d.digits.push(0), scale: d.scale + 1 }),
{
    let e = DecimalView { negative: d.negative, digits: d.digits.push(0), scale: d.scale + 1 };
    assert(e.digits.drop_last() =~= d.digits);
    assert(digits_value(e.digits) == digits_value(d.digits) * 10);
    assert(pow10(0) == 1);
    assert(pow10(1) == 10);
    assert(e.unscaled() == d.unscaled() * 10);
    assert(d.unscaled() * pow10(1) == e.unscaled() * pow10(0));
    assert(d.same_number(e));
}

impl PartialOrd for Decimal {
    fn partial_cmp(&self, other: &Decimal) -> (r: Option<Ordering>) {
        proof {
            use_type_invariant(self);
            use_type_invariant(other);
        }
        Some(compare_decimals(self, other))
    }
}

impl vstd::std_specs::cmp::PartialOrdSpecImpl for Decimal {
    open spec fn obeys_partial_cmp_spec() -> bool {
        true
    }

    open spec fn partial_cmp_spec(&self, other: &Decimal) -> Option<Ordering> {
        Some(self@.order(other@))
    }
}

impl PartialOrd for Value {
    fn partial_cmp(&self, other: &Value) -> (r: Option<Ordering>) {
        let order = match (self, other) {
            (Value::Nothing, Value::Nothing) => Ordering::Equal,
            (Value::Nothing, _) => Ordering::Less,
            (Value::String(_), Value::Nothing) => Ordering::Greater,
            (Value::String(a), Value::String(b)) => compare_text(a, b),
            (Value::String(_), Value::Decimal(_)) => Ordering::Less,
            (Value::Decimal(a), Value::Decimal(b)) => {
                proof {
                    use_type_invariant(a);
                    use_type_invariant(b);
                }
                compare_decimals(a, b)
            },
            (Value::Decimal(_), _) => Ordering::Greater,
        };
        Some(order)
    }
}

impl vstd::std_specs::cmp::PartialOrdSpecImpl for Value {
    open spec fn obeys_partial_cmp_spec() -> bool {
        true
    }

    open spec fn partial_cmp_spec(&self, other: &Value) -> Option<Ordering> {
        Some(self@.order(other@))
    }
}

} // verus!
