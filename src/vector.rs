use vstd::prelude::*;

use crate::error::MatrixError;

verus! {

/// Decimal digits of a natural number, most significant first.
pub open spec fn decimal(n: nat) -> Seq<char>
    decreases n,
{
    if n < 10 {
        seq![digit_char(n)]
    } else {
        decimal(n / 10) + seq![digit_char(n % 10)]
    }
}

/// The character of a single decimal digit.
pub open spec fn digit_char(d: nat) -> char {
    if d == 0 { '0' }
    else if d == 1 { '1' }
    else if d == 2 { '2' }
    else if d == 3 { '3' }
    else if d == 4 { '4' }
    else if d == 5 { '5' }
    else if d == 6 { '6' }
    else if d == 7 { '7' }
    else if d == 8 { '8' }
    else { '9' }
}

/// Decimal text of an integer, with a leading minus sign when negative.
pub open spec fn signed_decimal(x: int) -> Seq<char> {
    if x < 0 {
        seq!['-'] + decimal((-x) as nat)
    } else {
        decimal(x as nat)
    }
}

fn digit_str(d: u128) -> (r: &'static str)
    requires
        d < 10,
    ensures
        r@ == seq![digit_char(d as nat)],
{
    if d == 0 {
        proof { reveal_strlit("0"); }
        "0"
    } else if d == 1 {
        proof { reveal_strlit("1"); }
        "1"
    } else if d == 2 {
        proof { reveal_strlit("2"); }
        "2"
    } else if d == 3 {
        proof { reveal_strlit("3"); }
        "3"
    } else if d == 4 {
        proof { reveal_strlit("4"); }
        "4"
    } else if d == 5 {
        proof { reveal_strlit("5"); }
        "5"
    } else if d == 6 {
        proof { reveal_strlit("6"); }
        "6"
    } else if d == 7 {
        proof { reveal_strlit("7"); }
        "7"
    } else if d == 8 {
        proof { reveal_strlit("8"); }
        "8"
    } else {
        proof { reveal_strlit("9"); }
        "9"
    }
}

/// Appends the decimal digits of `n` to `s`.
pub fn append_decimal(s: &mut String, n: u128)
    ensures
        final(s)@ == old(s)@ + decimal(n as nat),
    decreases n,
{
    if n >= 10 {
        append_decimal(s, n / 10);
    }
    s.append(digit_str(n % 10));
    assert(final(s)@ =~= old(s)@ + decimal(n as nat));
}

/// Appends the decimal text of `x` (with a minus sign when negative) to `s`.
pub fn append_signed_decimal(s: &mut String, x: i128)
    requires
        x > i128::MIN,
    ensures
        final(s)@ == old(s)@ + signed_decimal(x as int),
{
    if x < 0 {
        proof { reveal_strlit("-"); }
        s.append("-");
        append_decimal(s, (-x) as u128);
        assert(final(s)@ =~= old(s)@ + signed_decimal(x as int));
    } else {
        append_decimal(s, x as u128);
    }
}

/// The arithmetic that matrix elements need: an additive identity, addition,
/// multiplication, and a textual form.
pub trait Numeric: Copy + Sized {
    /// The additive identity.
    spec fn zero_spec() -> Self;

    /// The sum of two elements, as the element type defines it.
    spec fn plus_spec(self, other: Self) -> Self;

    /// The product of two elements, as the element type defines it.
    spec fn times_spec(self, other: Self) -> Self;

    /// The text that renders the element.
    spec fn text_spec(self) -> Seq<char>;

    fn zero() -> (r: Self)
        ensures
            r == Self::zero_spec(),
    ;

    fn plus(self, other: Self) -> (r: Self)
        ensures
            r == self.plus_spec(other),
    ;

    fn times(self, other: Self) -> (r: Self)
        ensures
            r == self.times_spec(other),
    ;

    /// Appends the element's text to `s`.
    fn render_into(&self, s: &mut String)
        ensures
            final(s)@ == old(s)@ + self.text_spec(),
    ;
}


impl Numeric for i32 {
    open spec fn zero_spec() -> i32 {
        0
    }

    open spec fn plus_spec(self, other: i32) -> i32 {
        self.wrapping_add(other)
    }

    open spec fn times_spec(self, other: i32) -> i32 {
        self.wrapping_mul(other)
    }

    open spec fn text_spec(self) -> Seq<char> {
        signed_decimal(self as int)
    }

    fn zero() -> (r: i32) {
        0
    }

    fn plus(self, other: i32) -> (r: i32) {
        self.wrapping_add(other)
    }

    fn times(self, other: i32) -> (r: i32) {
        self.wrapping_mul(other)
    }

    fn render_into(&self, s: &mut String) {
        append_signed_decimal(s, *self as i128);
    }
}

impl Numeric for i64 {
    open spec fn zero_spec() -> i64 {
        0
    }

    open spec fn plus_spec(self, other: i64) -> i64 {
        self.wrapping_add(other)
    }

    open spec fn times_spec(self, other: i64) -> i64 {
        self.wrapping_mul(other)
    }

    open spec fn text_spec(self) -> Seq<char> {
        signed_decimal(self as int)
    }

    fn zero() -> (r: i64) {
        0
    }

    fn plus(self, other: i64) -> (r: i64) {
        self.wrapping_add(other)
    }

    fn times(self, other: i64) -> (r: i64) {
        self.wrapping_mul(other)
    }

    fn render_into(&self, s: &mut String) {
        append_signed_decimal(s, *self as i128);
    }
}

impl Numeric for u32 {
    open spec fn zero_spec() -> u32 {
        0
    }

    open spec fn plus_spec(self, other: u32) -> u32 {
        self.wrapping_add(other)
    }

    open spec fn times_spec(self, other: u32) -> u32 {
        self.wrapping_mul(other)
    }

    open spec fn text_spec(self) -> Seq<char> {
        decimal(self as nat)
    }

    fn zero() -> (r: u32) {
        0
    }

    fn plus(self, other: u32) -> (r: u32) {
        self.wrapping_add(other)
    }

    fn times(self, other: u32) -> (r: u32) {
        self.wrapping_mul(other)
    }

    fn render_into(&self, s: &mut String) {
        append_decimal(s, *self as u128);
    }
}

impl Numeric for u64 {
    open spec fn zero_spec() -> u64 {
        0
    }

    open spec fn plus_spec(self, other: u64) -> u64 {
        self.wrapping_add(other)
    }

    open spec fn times_spec(self, other: u64) -> u64 {
        self.wrapping_mul(other)
    }

    open spec fn text_spec(self) -> Seq<char> {
        decimal(self as nat)
    }

    fn zero() -> (r: u64) {
        0
    }

    fn plus(self, other: u64) -> (r: u64) {
        self.wrapping_add(other)
    }

    fn times(self, other: u64) -> (r: u64) {
        self.wrapping_mul(other)
    }

    fn render_into(&self, s: &mut String) {
        append_decimal(s, *self as u128);
    }
}

/// The left-to-right multiply-accumulate of the first `n` element pairs of
/// `a` and `b`, seeded with the additive identity.
pub open spec fn dot_prefix<T: Numeric>(a: Seq<T>, b: Seq<T>, n: int) -> T
    decreases n,
{
    if n <= 0 {
        T::zero_spec()
    } else {
        dot_prefix(a, b, n - 1).plus_spec(a[n - 1].times_spec(b[n - 1]))
    }
}

/// The dot product of two sequences of equal length.
pub open spec fn dot<T: Numeric>(a: Seq<T>, b: Seq<T>) -> T {
    dot_prefix(a, b, a.len() as int)
}

/// An ordered sequence of elements: one row or one column of a matrix.
pub struct Vector<T> {
    data: Vec<T>,
}

impl<T> View for Vector<T> {
    type V = Seq<T>;

    closed spec fn view(&self) -> Seq<T> {
        self.data@
    }
}

impl<T> Vector<T> {
    pub fn new(data: Vec<T>) -> (r: Self)
        ensures
            r@ == data@,
    {
        Vector { data }
    }

    pub fn len(&self) -> (r: usize)
        ensures
            r == self@.len(),
    {
        self.data.len()
    }

    pub fn as_vec(&self) -> (r: &Vec<T>)
        ensures
            r@ == self@,
    {
        &self.data
    }
}

/// Multiplies `a` and `b` element-wise and sums the products in index order.
pub fn dot_product<T: Numeric>(a: Vector<T>, b: Vector<T>) -> (r: Result<T, MatrixError>)
    ensures
        r is Ok <==> a@.len() == b@.len(),
        r is Ok ==> r == Ok::<T, MatrixError>(dot(a@, b@)),
        r is Err ==> r == Err::<T, MatrixError>(MatrixError::LengthMismatch),
{
    if a.data.len() != b.data.len() {
        return Err(MatrixError::LengthMismatch);
    }
    let mut acc = T::zero();
    let mut i: usize = 0;
    while i < a.data.len()
        invariant
            a@.len() == b@.len(),
            i <= a@.len(),
            acc == dot_prefix(a@, b@, i as int),
        decreases a@.len() - i,
    {
        acc = acc.plus(a.data[i].times(b.data[i]));
        i = i + 1;
    }
    Ok(acc)
}

} // verus!
