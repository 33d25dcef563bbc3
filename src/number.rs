use vstd::prelude::*;

verus! {

/// A number of the language, in the manner of a double. Where `den` is not
/// zero it is the fraction `num / den`. Where `den` is zero it is positive
/// infinity (`num > 0`), negative infinity (`num < 0`) or not-a-number
/// (`num == 0`). Arithmetic gives the exact result reduced by the gcd where
/// that fits in two `i64`s, else the fraction found by halving both parts
/// until they fit, and an infinity where no fraction of `i64`s comes near;
/// division by zero and infinities follow IEEE 754.
#[derive(Clone, Copy, PartialEq, Eq, Structural, Debug)]
pub struct Num {
    pub num: i64,
    pub den: i64,
}

pub open spec fn gcd(a: nat, b: nat) -> nat
    decreases b,
{
    if b == 0 {
        a
    } else {
        gcd(b, a % b)
    }
}

pub open spec fn abs(x: int) -> nat {
    if x < 0 {
        (-x) as nat
    } else {
        x as nat
    }
}

pub open spec fn sgn(x: int) -> int {
    if x > 0 {
        1
    } else if x < 0 {
        -1
    } else {
        0
    }
}

/// Both parts halved until each fits in an `i64`.
pub open spec fn shrink(m: nat, d: nat) -> (nat, nat)
    decreases m + d,
{
    if m <= i64::MAX && d <= i64::MAX {
        (m, d)
    } else {
        shrink(m / 2, d / 2)
    }
}

/// The number `n / d` (with `d != 0`): reduced by the gcd of the parts'
/// magnitudes, then shrunk to fit (see `shrink`); infinite where the
/// denominator shrinks to zero.
pub open spec fn make(n: int, d: int) -> Num {
    let m = abs(n);
    let g = gcd(m, abs(d));
    let (m2, d2) = if g != 0 && m % g == 0 && abs(d) % g == 0 {
        (m / g, abs(d) / g)
    } else {
        (m, abs(d))
    };
    let (m3, d3) = shrink(m2, d2);
    let s = sgn(n) * sgn(d);
    if d3 == 0 {
        Num::inf(s)
    } else if s < 0 {
        Num { num: (-m3) as i64, den: d3 as i64 }
    } else {
        Num { num: m3 as i64, den: d3 as i64 }
    }
}

/// Where `n / d` fits in `i64`s from the start, it is kept exactly.
pub proof fn lemma_make_exact(n: int, d: int)
    requires
        0 < d <= i64::MAX,
        -i64::MAX <= n <= i64::MAX,
    ensures
        make(n, d).is_finite(),
        make(n, d).den > 0,
        make(n, d).num * d == n * make(n, d).den,
{
    let m = abs(n);
    let g = gcd(m, abs(d));
    if g != 0 && m % g == 0 && d % (g as int) == 0 {
        let m2 = (m / g) as int;
        let d2 = d / (g as int);
        let gi = g as int;
        let mi = m as int;
        assert(mi == m2 * gi) by (nonlinear_arith)
            requires
                gi > 0,
                mi >= 0,
                mi % gi == 0,
                m2 == mi / gi,
        ;
        assert(d == d2 * gi) by (nonlinear_arith)
            requires
                gi > 0,
                d % gi == 0,
                d2 == d / gi,
        ;
        assert(m2 * d == mi * d2) by (nonlinear_arith)
            requires
                mi == m2 * gi,
                d == d2 * gi,
        ;
        assert(-m2 * d == -mi * d2) by (nonlinear_arith)
            requires
                m2 * d == mi * d2,
        ;
        assert(0 < d2 <= d && 0 <= m2 <= mi) by (nonlinear_arith)
            requires
                d == d2 * gi,
                mi == m2 * gi,
                d > 0,
                gi > 0,
                m2 >= 0,
        ;
        assert(shrink(m2 as nat, d2 as nat) == (m2 as nat, d2 as nat));
    } else {
        assert(shrink(m, d as nat) == (m, d as nat));
    }
}

/// A whole number that fits is kept as it is.
pub proof fn lemma_make_int(n: int)
    requires
        -i64::MAX <= n <= i64::MAX,
    ensures
        make(n, 1) == (Num { num: n as i64, den: 1 }),
{
    let m = abs(n);
    assert(gcd(0, 0) == 0);
    assert(gcd(1, 0) == 1);
    assert(m % 1 == 0);
    assert(gcd(m, 1) == gcd(1, 0));
    assert(shrink(m, 1) == (m, 1nat));
}

/// A whole number is written as its sign and digits.
pub proof fn lemma_int_text(n: i64)
    ensures
        num_text(Num { num: n, den: 1 }) == (if n < 0 { seq!['-'] } else { Seq::<char>::empty() })
            + nat_text(abs(n as int)),
{
    let m = abs(n as int);
    assert(m / 1 == m);
    assert(m % 1 == 0);
}

/// Whole numbers add exactly where the sum fits.
pub proof fn lemma_add_int(a: i64, b: i64)
    requires
        -i64::MAX <= a,
        -i64::MAX <= b,
        -i64::MAX <= a + b <= i64::MAX,
    ensures
        (Num { num: a, den: 1 }).spec_add(Num { num: b, den: 1 }) == (Num {
            num: (a + b) as i64,
            den: 1,
        }),
{
    lemma_make_int(a as int);
    lemma_make_int(b as int);
    lemma_make_int(a + b);
}

/// Whole numbers multiply exactly where the product fits.
pub proof fn lemma_mul_int(a: i64, b: i64)
    requires
        -i64::MAX <= a,
        -i64::MAX <= b,
        -i64::MAX <= a * b <= i64::MAX,
    ensures
        (Num { num: a, den: 1 }).spec_mul(Num { num: b, den: 1 }) == (Num {
            num: (a * b) as i64,
            den: 1,
        }),
{
    lemma_make_int(a as int);
    lemma_make_int(b as int);
    lemma_make_int(a * b);
}

impl Num {
    /// Positive infinity for `s > 0`, negative for `s < 0`, not-a-number
    /// for zero.
    pub open spec fn inf(s: int) -> Num {
        if s > 0 {
            Num { num: 1, den: 0 }
        } else if s < 0 {
            Num { num: -1i64, den: 0 }
        } else {
            Num { num: 0, den: 0 }
        }
    }

    pub open spec fn is_nan(self) -> bool {
        self.den == 0 && self.num == 0
    }

    pub open spec fn is_finite(self) -> bool {
        self.den != 0
    }

    /// Numerator with the sign of the value.
    pub open spec fn top(self) -> int {
        if self.den < 0 {
            -(self.num as int)
        } else {
            self.num as int
        }
    }

    /// Positive denominator of a finite number.
    pub open spec fn bot(self) -> int {
        abs(self.den as int) as int
    }

    pub open spec fn sign(self) -> int {
        sgn(self.top())
    }

    /// The form arithmetic produces: a positive denominator and a numerator
    /// that can be negated, or one of the three values `inf` gives.
    pub open spec fn canonical(self) -> bool {
        if self.den == 0 {
            -1 <= self.num <= 1
        } else {
            self.den > 0 && self.num > i64::MIN
        }
    }

    /// The same value in canonical form.
    pub open spec fn canon(self) -> Num {
        if self.is_finite() {
            make(self.top(), self.bot())
        } else {
            Num::inf(self.sign())
        }
    }

    pub open spec fn spec_neg(self) -> Num {
        let a = self.canon();
        if a.is_finite() {
            Num { num: (-a.num) as i64, den: a.den }
        } else {
            Num::inf(-a.sign())
        }
    }

    pub open spec fn spec_add(self, o: Num) -> Num {
        let a = self.canon();
        let b = o.canon();
        if a.is_nan() || b.is_nan() {
            Num::inf(0)
        } else if !a.is_finite() && !b.is_finite() {
            if a.sign() == b.sign() {
                a
            } else {
                Num::inf(0)
            }
        } else if !a.is_finite() {
            a
        } else if !b.is_finite() {
            b
        } else {
            make(a.top() * b.bot() + b.top() * a.bot(), a.bot() * b.bot())
        }
    }

    pub open spec fn spec_sub(self, o: Num) -> Num {
        self.spec_add(o.spec_neg())
    }

    pub open spec fn spec_mul(self, o: Num) -> Num {
        let a = self.canon();
        let b = o.canon();
        if a.is_nan() || b.is_nan() {
            Num::inf(0)
        } else if !a.is_finite() || !b.is_finite() {
            Num::inf(a.sign() * b.sign())
        } else {
            make(a.top() * b.top(), a.bot() * b.bot())
        }
    }

    pub open spec fn spec_div(self, o: Num) -> Num {
        let a = self.canon();
        let b = o.canon();
        if a.is_nan() || b.is_nan() || (!a.is_finite() && !b.is_finite()) {
            Num::inf(0)
        } else if !a.is_finite() {
            Num::inf(a.sign() * (if b.sign() < 0 { -1int } else { 1int }))
        } else if !b.is_finite() {
            Num { num: 0, den: 1 }
        } else if b.top() == 0 {
            Num::inf(a.sign())
        } else {
            make(a.top() * b.bot() * b.sign(), a.bot() * abs(b.top()))
        }
    }

    /// Order of the values; not-a-number is unordered.
    pub open spec fn less(self, o: Num) -> bool {
        let a = self.canon();
        let b = o.canon();
        if a.is_nan() || b.is_nan() {
            false
        } else if !a.is_finite() {
            a.sign() < 0 && !(!b.is_finite() && b.sign() < 0)
        } else if !b.is_finite() {
            b.sign() > 0
        } else {
            a.top() * b.bot() < b.top() * a.bot()
        }
    }

    /// Equality of the values; not-a-number equals nothing.
    pub open spec fn same(self, o: Num) -> bool {
        let a = self.canon();
        let b = o.canon();
        if a.is_nan() || b.is_nan() {
            false
        } else if !a.is_finite() || !b.is_finite() {
            a == b
        } else {
            a.top() * b.bot() == b.top() * a.bot()
        }
    }

    pub fn inf_exec(s: i64) -> (r: Num)
        ensures
            r == Num::inf(s as int),
    {
        if s > 0 {
            Num { num: 1, den: 0 }
        } else if s < 0 {
            Num { num: -1, den: 0 }
        } else {
            Num { num: 0, den: 0 }
        }
    }

    fn sign_exec(&self) -> (r: i64)
        ensures
            r == self.sign(),
            -1 <= r <= 1,
    {
        if self.num == 0 {
            0
        } else if (self.num > 0) == (self.den >= 0) {
            1
        } else {
            -1
        }
    }

    fn sign_product(x: i64, y: i64) -> (r: i64)
        requires
            -1 <= x <= 1,
            -1 <= y <= 1,
        ensures
            r == x * y,
    {
        if x == 0 || y == 0 {
            0
        } else if x == y {
            assert(x * y == 1) by (nonlinear_arith)
                requires
                    x == y,
                    x == 1 || x == -1,
            ;
            1
        } else {
            assert(x * y == -1) by (nonlinear_arith)
                requires
                    x != y,
                    x == 1 || x == -1,
                    y == 1 || y == -1,
            ;
            -1
        }
    }

    /// The same value in canonical form.
    pub fn canonical_form(&self) -> (r: Num)
        ensures
            r == self.canon(),
            r.canonical(),
    {
        if self.den == 0 {
            Num::inf_exec(self.sign_exec())
        } else {
            let t: i128 = if self.den < 0 { -(self.num as i128) } else { self.num as i128 };
            let b: i128 = if self.den < 0 { -(self.den as i128) } else { self.den as i128 };
            make_exec(t, b)
        }
    }

    /// The number `n`; `i64::MIN`, which cannot be negated, is taken as
    /// negative infinity.
    pub fn from_int(n: i64) -> (r: Num)
        ensures
            r == make(n as int, 1),
    {
        make_exec(n as i128, 1)
    }

    pub fn neg(&self) -> (r: Num)
        ensures
            r == self.spec_neg(),
            r.canonical(),
    {
        let a = self.canonical_form();
        if a.den != 0 {
            Num { num: -a.num, den: a.den }
        } else {
            Num::inf_exec(-a.num)
        }
    }

    pub fn add(&self, o: &Num) -> (r: Num)
        ensures
            r == self.spec_add(*o),
    {
        let a = self.canonical_form();
        let b = o.canonical_form();
        if (a.den == 0 && a.num == 0) || (b.den == 0 && b.num == 0) {
            Num::inf_exec(0)
        } else if a.den == 0 && b.den == 0 {
            if a.num == b.num {
                a
            } else {
                Num::inf_exec(0)
            }
        } else if a.den == 0 {
            a
        } else if b.den == 0 {
            b
        } else {
            proof {
                lemma_prod_den(a.num as int, b.den as int);
                lemma_prod_den(b.num as int, a.den as int);
                lemma_prod_den(a.den as int, b.den as int);
            }
            let n = (a.num as i128) * (b.den as i128) + (b.num as i128) * (a.den as i128);
            let d = (a.den as i128) * (b.den as i128);
            make_exec(n, d)
        }
    }

    pub fn sub(&self, o: &Num) -> (r: Num)
        ensures
            r == self.spec_sub(*o),
    {
        self.add(&o.neg())
    }

    pub fn mul(&self, o: &Num) -> (r: Num)
        ensures
            r == self.spec_mul(*o),
    {
        let a = self.canonical_form();
        let b = o.canonical_form();
        if (a.den == 0 && a.num == 0) || (b.den == 0 && b.num == 0) {
            Num::inf_exec(0)
        } else if a.den == 0 || b.den == 0 {
            Num::inf_exec(Num::sign_product(a.sign_exec(), b.sign_exec()))
        } else {
            proof {
                lemma_prod_den(a.num as int, b.num as int);
                lemma_prod_den(a.den as int, b.den as int);
            }
            let n = (a.num as i128) * (b.num as i128);
            let d = (a.den as i128) * (b.den as i128);
            make_exec(n, d)
        }
    }

    pub fn div(&self, o: &Num) -> (r: Num)
        ensures
            r == self.spec_div(*o),
    {
        let a = self.canonical_form();
        let b = o.canonical_form();
        if (a.den == 0 && a.num == 0) || (b.den == 0 && b.num == 0) || (a.den == 0 && b.den == 0) {
            Num::inf_exec(0)
        } else if a.den == 0 {
            Num::inf_exec(Num::sign_product(a.sign_exec(), if b.num < 0 { -1 } else { 1 }))
        } else if b.den == 0 {
            Num { num: 0, den: 1 }
        } else if b.num == 0 {
            Num::inf_exec(a.sign_exec())
        } else {
            proof {
                lemma_prod_den(a.num as int, b.den as int);
                lemma_prod_den(a.den as int, abs(b.num as int) as int);
            }
            let p = (a.num as i128) * (b.den as i128);
            let n = if b.num < 0 { -p } else { p };
            proof {
                let t = a.top() * b.bot();
                if b.num < 0 {
                    assert(b.sign() == -1);
                    assert(t * b.sign() == -t) by (nonlinear_arith)
                        requires
                            b.sign() == -1,
                    ;
                } else {
                    assert(b.sign() == 1);
                    assert(t * b.sign() == t) by (nonlinear_arith)
                        requires
                            b.sign() == 1,
                    ;
                }
            }
            let bm: i128 = if b.num < 0 { -(b.num as i128) } else { b.num as i128 };
            let d = (a.den as i128) * bm;
            make_exec(n, d)
        }
    }

    pub fn less_than(&self, o: &Num) -> (r: bool)
        ensures
            r == self.less(*o),
    {
        let a = self.canonical_form();
        let b = o.canonical_form();
        if (a.den == 0 && a.num == 0) || (b.den == 0 && b.num == 0) {
            false
        } else if a.den == 0 {
            a.num < 0 && !(b.den == 0 && b.num < 0)
        } else if b.den == 0 {
            b.num > 0
        } else {
            proof {
                lemma_prod_den(a.num as int, b.den as int);
                lemma_prod_den(b.num as int, a.den as int);
            }
            (a.num as i128) * (b.den as i128) < (b.num as i128) * (a.den as i128)
        }
    }

    pub fn same_as(&self, o: &Num) -> (r: bool)
        ensures
            r == self.same(*o),
    {
        let a = self.canonical_form();
        let b = o.canonical_form();
        if (a.den == 0 && a.num == 0) || (b.den == 0 && b.num == 0) {
            false
        } else if a.den == 0 || b.den == 0 {
            a.num == b.num && a.den == b.den
        } else {
            proof {
                lemma_prod_den(a.num as int, b.den as int);
                lemma_prod_den(b.num as int, a.den as int);
            }
            (a.num as i128) * (b.den as i128) == (b.num as i128) * (a.den as i128)
        }
    }
}

proof fn lemma_prod_den(a: int, b: int)
    requires
        -i64::MAX <= a <= i64::MAX,
        -i64::MAX <= b <= i64::MAX,
    ensures
        -0x4000_0000_0000_0000_0000_0000_0000_0000 < a * b < 0x4000_0000_0000_0000_0000_0000_0000_0000,
        a > 0 && b > 0 ==> a * b > 0,
{
    assert(a * b < 0x4000_0000_0000_0000_0000_0000_0000_0000) by (nonlinear_arith)
        requires
            -i64::MAX <= a <= i64::MAX,
            -i64::MAX <= b <= i64::MAX,
    ;
    assert(-0x4000_0000_0000_0000_0000_0000_0000_0000 < a * b) by (nonlinear_arith)
        requires
            -i64::MAX <= a <= i64::MAX,
            -i64::MAX <= b <= i64::MAX,
    ;
    if a > 0 && b > 0 {
        assert(a * b > 0) by (nonlinear_arith)
            requires
                a > 0,
                b > 0,
        ;
    }
}

fn gcd_exec(a: u128, b: u128) -> (r: u128)
    ensures
        r == gcd(a as nat, b as nat),
{
    let mut x = a;
    let mut y = b;
    while y != 0
        invariant
            gcd(x as nat, y as nat) == gcd(a as nat, b as nat),
        decreases y,
    {
        let t = x % y;
        x = y;
        y = t;
    }
    x
}

/// Builds `n / d` as `make` describes.
pub fn make_exec(n: i128, d: i128) -> (r: Num)
    requires
        d > 0,
        n > i128::MIN,
    ensures
        r == make(n as int, d as int),
        r.canonical(),
{
    let m: u128 = if n < 0 { (-n) as u128 } else { n as u128 };
    let du: u128 = d as u128;
    let g = gcd_exec(m, du);
    let mut m2: u128;
    let mut d2: u128;
    if g != 0 && m % g == 0 && du % g == 0 {
        m2 = m / g;
        d2 = du / g;
    } else {
        m2 = m;
        d2 = du;
    }
    let ghost start = (m2 as nat, d2 as nat);
    while m2 > i64::MAX as u128 || d2 > i64::MAX as u128
        invariant
            shrink(m2 as nat, d2 as nat) == shrink(start.0, start.1),
        decreases m2 + d2,
    {
        m2 = m2 / 2;
        d2 = d2 / 2;
    }
    let s: i64 = if n > 0 { 1 } else if n < 0 { -1 } else { 0 };
    assert(sgn(d as int) == 1);
    assert(s == sgn(n as int) * sgn(d as int));
    assert(abs(d as int) == du);
    assert(abs(n as int) == m);
    if d2 == 0 {
        Num::inf_exec(s)
    } else if s < 0 {
        Num { num: -(m2 as i64), den: d2 as i64 }
    } else {
        Num { num: m2 as i64, den: d2 as i64 }
    }
}

pub open spec fn digit_char(d: nat) -> char {
    if d == 0 {
        '0'
    } else if d == 1 {
        '1'
    } else if d == 2 {
        '2'
    } else if d == 3 {
        '3'
    } else if d == 4 {
        '4'
    } else if d == 5 {
        '5'
    } else if d == 6 {
        '6'
    } else if d == 7 {
        '7'
    } else if d == 8 {
        '8'
    } else {
        '9'
    }
}

/// Decimal digits of a natural number.
pub open spec fn nat_text(n: nat) -> Seq<char>
    decreases n,
{
    if n < 10 {
        seq![digit_char(n)]
    } else {
        nat_text(n / 10).push(digit_char(n % 10))
    }
}

/// At most `k` digits of the fraction `r / d` (with `r < d`), stopping early
/// where the expansion ends.
pub open spec fn frac_text(r: nat, d: nat, k: nat) -> Seq<char>
    decreases k,
{
    if r == 0 || k == 0 || d == 0 {
        Seq::empty()
    } else {
        seq![digit_char((r * 10) / d)] + frac_text((r * 10) % d, d, (k - 1) as nat)
    }
}

/// Most fraction digits shown when a number is written out.
pub const FRACTION_DIGITS: u64 = 16;

/// How a number is written: `NaN`, `inf` or `-inf` where it is not finite;
/// else sign, integer part, and where it is not whole a point and the
/// decimal expansion of the fraction, cut after `FRACTION_DIGITS` digits.
pub open spec fn num_text(x: Num) -> Seq<char> {
    if x.is_nan() {
        seq!['N', 'a', 'N']
    } else if !x.is_finite() {
        if x.sign() > 0 {
            seq!['i', 'n', 'f']
        } else {
            seq!['-', 'i', 'n', 'f']
        }
    } else {
        let m = abs(x.top());
        let d = x.bot() as nat;
        let sign = if x.top() < 0 { seq!['-'] } else { Seq::<char>::empty() };
        let whole = nat_text(m / d);
        if m % d == 0 {
            sign + whole
        } else {
            sign + whole + seq!['.'] + frac_text(m % d, d, FRACTION_DIGITS as nat)
        }
    }
}

fn digit_of(d: u128) -> (c: char)
    ensures
        c == digit_char(d as nat),
{
    if d == 0 {
        '0'
    } else if d == 1 {
        '1'
    } else if d == 2 {
        '2'
    } else if d == 3 {
        '3'
    } else if d == 4 {
        '4'
    } else if d == 5 {
        '5'
    } else if d == 6 {
        '6'
    } else if d == 7 {
        '7'
    } else if d == 8 {
        '8'
    } else {
        '9'
    }
}

/// Appends the decimal digits of `n`.
pub fn push_nat_text(n: u128, out: &mut Vec<char>)
    ensures
        final(out)@ == old(out)@ + nat_text(n as nat),
    decreases n,
{
    if n < 10 {
        out.push(digit_of(n));
    } else {
        push_nat_text(n / 10, out);
        out.push(digit_of(n % 10));
    }
}

fn push_frac_text(r: u128, d: u128, k: u64, out: &mut Vec<char>)
    requires
        r < d,
        d <= 0x8000_0000_0000_0000,
    ensures
        final(out)@ == old(out)@ + frac_text(r as nat, d as nat, k as nat),
    decreases k,
{
    if r == 0 || k == 0 || d == 0 {
        assert(old(out)@ + Seq::<char>::empty() =~= old(out)@);
    } else {
        out.push(digit_of((r * 10) / d));
        proof {
            assert(r * 10 < 0x1_0000_0000_0000_0000_0000) by (nonlinear_arith)
                requires r < d, d <= 0x8000_0000_0000_0000;
        }
        push_frac_text((r * 10) % d, d, k - 1, out);
        assert(final(out)@ =~= old(out)@ + frac_text(r as nat, d as nat, k as nat));
    }
}


impl Num {
    /// Appends how the number is written.
    pub fn push_text(&self, out: &mut Vec<char>)
        ensures
            final(out)@ == old(out)@ + num_text(*self),
    {
        if self.den == 0 {
            if self.num == 0 {
                out.push('N');
                out.push('a');
                out.push('N');
            } else {
                if self.num < 0 {
                    out.push('-');
                }
                out.push('i');
                out.push('n');
                out.push('f');
            }
            assert(final(out)@ =~= old(out)@ + num_text(*self));
            return;
        }
        let t: i128 = if self.den < 0 { -(self.num as i128) } else { self.num as i128 };
        let m: u128 = if t < 0 { (-t) as u128 } else { t as u128 };
        let d: u128 = if self.den < 0 { (-(self.den as i128)) as u128 } else { self.den as u128 };
        let ghost start = out@;
        if t < 0 {
            out.push('-');
        }
        push_nat_text(m / d, out);
        if m % d != 0 {
            out.push('.');
            push_frac_text(m % d, d, FRACTION_DIGITS, out);
        }
        proof {
            let sign = if t < 0 { seq!['-'] } else { Seq::<char>::empty() };
            assert(start + sign + nat_text((m / d) as nat) =~= start + (sign + nat_text((m / d) as nat)));
        }
        assert(final(out)@ =~= old(out)@ + num_text(*self));
    }
}

} // verus!
