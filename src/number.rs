//! Numbers of the language: exact decimal fixed-point values with checked
//! arithmetic, and their decimal text.
use vstd::prelude::*;

verus! {

/// Number of units in one: numbers are decimal fixed-point values with nine
/// fractional digits.
pub const SCALE: i128 = 1_000_000_000;

/// A runtime number of the language: `scaled / SCALE`, held exactly.
#[derive(Clone, Copy, Debug, PartialEq, Eq, Structural)]
pub struct Number {
    pub scaled: i128,
}

/// Absolute value over the integers.
pub open spec fn abs_int(x: int) -> int {
    if x < 0 {
        -x
    } else {
        x
    }
}

/// Division that truncates toward zero, as Rust's integer division does.
pub open spec fn trunc_div(x: int, d: int) -> int
    recommends
        d != 0,
{
    if (x < 0) == (d < 0) {
        abs_int(x) / abs_int(d)
    } else {
        -(abs_int(x) / abs_int(d))
    }
}

pub open spec fn in_range(x: int) -> bool {
    i128::MIN <= x <= i128::MAX
}

/// The character of one decimal digit.
pub open spec fn digit_char(d: int) -> char {
    seq!['0', '1', '2', '3', '4', '5', '6', '7', '8', '9'][d]
}

/// Decimal digits of `n`, most significant first, without leading zeros.
pub open spec fn digits_of(n: nat) -> Seq<char>
    decreases n,
{
    if n < 10 {
        seq![digit_char(n as int)]
    } else {
        digits_of(n / 10).push(digit_char((n % 10) as int))
    }
}

/// The sequence with every trailing `'0'` removed.
pub open spec fn trim_trailing_zeros(s: Seq<char>) -> Seq<char>
    decreases s.len(),
{
    if s.len() > 0 && s.last() == '0' {
        trim_trailing_zeros(s.drop_last())
    } else {
        s
    }
}

/// Text of a number whose scaled value is `x`: an optional minus sign, the
/// integer part, then, when the fraction is not zero, a point and the
/// fractional digits without trailing zeros.
pub open spec fn number_text(x: int) -> Seq<char> {
    let mag = abs_int(x);
    let ip = mag / (SCALE as int);
    let fp = mag % (SCALE as int);
    let sign = if x < 0 {
        seq!['-']
    } else {
        Seq::<char>::empty()
    };
    let frac = if fp == 0 {
        Seq::<char>::empty()
    } else {
        seq!['.'] + trim_trailing_zeros(digits_of((fp + SCALE) as nat).drop_first())
    };
    sign + digits_of(ip as nat) + frac
}

/// Value of a sequence of decimal digits (each below ten).
pub open spec fn decimal_value(ds: Seq<u8>) -> int
    decreases ds.len(),
{
    if ds.len() == 0 {
        0
    } else {
        decimal_value(ds.drop_last()) * 10 + ds.last() as int
    }
}

/// The first nine fractional digits, padded with zeros.
pub open spec fn padded_fraction(ds: Seq<u8>) -> Seq<u8> {
    Seq::new(9, |i: int| if i < ds.len() { ds[i] } else { 0u8 })
}

pub open spec fn all_digits(ds: Seq<u8>) -> bool {
    forall|i: int| 0 <= i < ds.len() ==> ds[i] < 10
}

/// Scaled value of the literal `int_digits.frac_digits`; digits after the
/// ninth fractional one are dropped.
pub open spec fn literal_scaled(int_digits: Seq<u8>, frac_digits: Seq<u8>) -> int {
    decimal_value(int_digits) * (SCALE as int) + decimal_value(padded_fraction(frac_digits))
}

proof fn lemma_decimal_value_nonneg(ds: Seq<u8>)
    ensures
        decimal_value(ds) >= 0,
    decreases ds.len(),
{
    if ds.len() > 0 {
        lemma_decimal_value_nonneg(ds.drop_last());
    }
}

proof fn lemma_decimal_prefix_le(ds: Seq<u8>, i: int)
    requires
        0 <= i <= ds.len(),
    ensures
        decimal_value(ds.take(i)) <= decimal_value(ds),
    decreases ds.len() - i,
{
    if i < ds.len() {
        lemma_decimal_prefix_le(ds, i + 1);
        assert(ds.take(i + 1).drop_last() =~= ds.take(i));
        lemma_decimal_value_nonneg(ds.take(i));
    } else {
        assert(ds.take(i) =~= ds);
    }
}

proof fn lemma_padded_fraction_bound(ds: Seq<u8>, i: int)
    requires
        0 <= i <= 9,
        all_digits(padded_fraction(ds)),
    ensures
        0 <= decimal_value(padded_fraction(ds).take(i)) < pow10(i),
    decreases i,
{
    let p = padded_fraction(ds);
    if i > 0 {
        lemma_padded_fraction_bound(ds, i - 1);
        assert(p.take(i).drop_last() =~= p.take(i - 1));
        let v = decimal_value(p.take(i - 1));
        assert(v * 10 + 9 < pow10(i - 1) * 10) by (nonlinear_arith)
            requires
                v < pow10(i - 1),
        ;
    }
}

pub open spec fn pow10(i: int) -> int
    decreases i,
{
    if i <= 0 {
        1
    } else {
        10 * pow10(i - 1)
    }
}

fn digit_to_char(d: u128) -> (c: char)
    requires
        d < 10,
    ensures
        c == digit_char(d as int),
{
    if d == 0 {
        '0'
    } else if d == 1 {
        '1'
    } else if d == 2 {
        '2'
    } else if d == 3 {
        '3'
    } else if d == 4 {
        '4'
    } else if d == 5 {
        '5'
    } else if d == 6 {
        '6'
    } else if d == 7 {
        '7'
    } else if d == 8 {
        '8'
    } else {
        '9'
    }
}

/// Appends the decimal digits of `n`.
pub fn push_digits(n: u128, out: &mut Vec<char>)
    ensures
        final(out)@ == old(out)@ + digits_of(n as nat),
    decreases n,
{
    if n >= 10 {
        push_digits(n / 10, out);
        out.push(digit_to_char(n % 10));
        assert(final(out)@ =~= old(out)@ + digits_of(n as nat));
    } else {
        out.push(digit_to_char(n));
        assert(final(out)@ =~= old(out)@ + digits_of(n as nat));
    }
}

fn magnitude(x: i128) -> (m: u128)
    ensures
        m as int == abs_int(x as int),
{
    if x < 0 {
        ((-(x + 1)) as u128) + 1
    } else {
        x as u128
    }
}

impl Number {
    pub open spec fn value(self) -> int {
        self.scaled as int
    }

    /// The number `n`, a whole number.
    pub fn from_integer(n: i64) -> (r: Number)
        ensures
            r.value() == n as int * SCALE,
    {
        Number { scaled: (n as i128) * SCALE }
    }

    /// The number `scaled / SCALE`.
    pub fn from_scaled(scaled: i128) -> (r: Number)
        ensures
            r.scaled == scaled,
    {
        Number { scaled }
    }

    /// The number a decimal literal denotes: whole digits, then the digits
    /// after the point. `None` when it is too large to hold.
    pub fn from_decimal(int_digits: &Vec<u8>, frac_digits: &Vec<u8>) -> (r: Option<Number>)
        requires
            all_digits(int_digits@),
            all_digits(frac_digits@),
        ensures
            r matches Some(n) ==> n.value() == literal_scaled(int_digits@, frac_digits@),
            r is None <==> !in_range(literal_scaled(int_digits@, frac_digits@)),
    {
        let ghost ids = int_digits@;
        let ghost pf = padded_fraction(frac_digits@);
        let mut frac: i128 = 0;
        let mut i: usize = 0;
        assert(all_digits(pf));
        while i < 9
            invariant
                0 <= i <= 9,
                pf == padded_fraction(frac_digits@),
                all_digits(pf),
                frac == decimal_value(pf.take(i as int)),
            decreases 9 - i,
        {
            proof {
                lemma_padded_fraction_bound(frac_digits@, i as int);
                assert(pow10(i as int) <= 100000000) by {
                    reveal_with_fuel(pow10, 10);
                }
                assert(pf.take(i + 1).drop_last() =~= pf.take(i as int));
            }
            let d: u8 = if i < frac_digits.len() {
                frac_digits[i]
            } else {
                0
            };
            frac = frac * 10 + d as i128;
            i = i + 1;
        }
        assert(pf.take(9) =~= pf);
        proof {
            lemma_padded_fraction_bound(frac_digits@, 9);
            assert(pow10(9) == SCALE) by {
                reveal_with_fuel(pow10, 10);
            }
        }
        let mut whole: i128 = 0;
        let mut j: usize = 0;
        while j < int_digits.len()
            invariant
                0 <= j <= int_digits.len(),
                ids == int_digits@,
                all_digits(ids),
                whole == decimal_value(ids.take(j as int)),
                0 <= frac < SCALE,
                frac == decimal_value(pf),
                pf == padded_fraction(frac_digits@),
            decreases int_digits.len() - j,
        {
            proof {
                assert(ids.take(j + 1).drop_last() =~= ids.take(j as int));
                lemma_decimal_prefix_le(ids, j + 1);
                lemma_decimal_value_nonneg(ids.take(j as int));
                lemma_decimal_value_nonneg(ids);
                lemma_decimal_value_nonneg(ids.take(j + 1));
            }
            let d = int_digits[j] as i128;
            match whole.checked_mul(10) {
                Some(w10) => match w10.checked_add(d) {
                    Some(w) => {
                        whole = w;
                    },
                    None => {
                        proof {
                            assert(decimal_value(ids) * SCALE + frac > i128::MAX) by (nonlinear_arith)
                                requires
                                    decimal_value(ids) >= decimal_value(ids.take(j + 1)),
                                    decimal_value(ids.take(j + 1)) > i128::MAX,
                                    frac >= 0,
                            ;
                        }
                        return None;
                    },
                },
                None => {
                    proof {
                        assert(decimal_value(ids) * SCALE + frac > i128::MAX) by (nonlinear_arith)
                            requires
                                decimal_value(ids) >= decimal_value(ids.take(j + 1)),
                                decimal_value(ids.take(j + 1)) >= whole * 10,
                                whole * 10 > i128::MAX,
                                frac >= 0,
                        ;
                    }
                    return None;
                },
            }
            j = j + 1;
        }
        assert(ids.take(int_digits.len() as int) =~= ids);
        proof {
            lemma_decimal_value_nonneg(ids);
        }
        match whole.checked_mul(SCALE) {
            Some(ws) => match ws.checked_add(frac) {
                Some(s) => Some(Number { scaled: s }),
                None => None,
            },
            None => {
                assert(whole * SCALE + frac > i128::MAX) by (nonlinear_arith)
                    requires
                        whole * SCALE > i128::MAX,
                        frac >= 0,
                ;
                None
            },
        }
    }

    /// Sum; `None` when it cannot be held.
    pub fn add(self, other: Number) -> (r: Option<Number>)
        ensures
            r matches Some(n) ==> n.value() == self.value() + other.value(),
            r is None <==> !in_range(self.value() + other.value()),
    {
        match self.scaled.checked_add(other.scaled) {
            Some(s) => Some(Number { scaled: s }),
            None => None,
        }
    }

    /// Difference; `None` when it cannot be held.
    pub fn sub(self, other: Number) -> (r: Option<Number>)
        ensures
            r matches Some(n) ==> n.value() == self.value() - other.value(),
            r is None <==> !in_range(self.value() - other.value()),
    {
        match self.scaled.checked_sub(other.scaled) {
            Some(s) => Some(Number { scaled: s }),
            None => None,
        }
    }

    /// Product, truncated to nine fractional digits; `None` when the exact
    /// scaled product cannot be held.
    pub fn mul(self, other: Number) -> (r: Option<Number>)
        ensures
            r matches Some(n) ==> n.value() == trunc_div(self.value() * other.value(), SCALE as int),
            r is None <==> !in_range(self.value() * other.value()),
    {
        match self.scaled.checked_mul(other.scaled) {
            Some(p) => {
                let q = p.checked_div(SCALE);
                match q {
                    Some(v) => Some(Number { scaled: v }),
                    None => {
                        assert(false);
                        None
                    },
                }
            },
            None => None,
        }
    }

    /// Quotient, truncated to nine fractional digits; `None` when the divisor
    /// is zero or the scaled dividend or the result cannot be held.
    pub fn div(self, other: Number) -> (r: Option<Number>)
        ensures
            r matches Some(n) ==> other.value() != 0 && n.value() == trunc_div(
                self.value() * SCALE,
                other.value(),
            ),
            r is None <==> (other.value() == 0 || !in_range(self.value() * SCALE) || !in_range(
                trunc_div(self.value() * SCALE, other.value()),
            )),
    {
        if other.scaled == 0 {
            return None;
        }
        match self.scaled.checked_mul(SCALE) {
            Some(p) => match p.checked_div(other.scaled) {
                Some(v) => Some(Number { scaled: v }),
                None => None,
            },
            None => None,
        }
    }

    /// Negation; `None` when it cannot be held.
    pub fn neg(self) -> (r: Option<Number>)
        ensures
            r matches Some(n) ==> n.value() == -self.value(),
            r is None <==> !in_range(-self.value()),
    {
        if self.scaled == i128::MIN {
            None
        } else {
            Some(Number { scaled: -self.scaled })
        }
    }

    pub fn is_zero(self) -> (b: bool)
        ensures
            b == (self.value() == 0),
    {
        self.scaled == 0
    }

    pub fn less_than(self, other: Number) -> (b: bool)
        ensures
            b == (self.value() < other.value()),
    {
        self.scaled < other.scaled
    }

    pub fn equals(self, other: Number) -> (b: bool)
        ensures
            b == (self.value() == other.value()),
    {
        self.scaled == other.scaled
    }

    /// Decimal text of the number, as `print` shows it.
    pub fn to_text(self) -> (r: Vec<char>)
        ensures
            r@ == number_text(self.value()),
    {
        let mag = magnitude(self.scaled);
        let ip = mag / (SCALE as u128);
        let fp = mag % (SCALE as u128);
        let mut out: Vec<char> = Vec::new();
        if self.scaled < 0 {
            out.push('-');
        }
        push_digits(ip, &mut out);
        if fp != 0 {
            out.push('.');
            let mut padded: Vec<char> = Vec::new();
            push_digits(fp + (SCALE as u128), &mut padded);
            let mut fd: Vec<char> = Vec::new();
            let mut k: usize = 1;
            while k < padded.len()
                invariant
                    1 <= k <= padded.len() || padded.len() == 0,
                    padded@ == digits_of((fp + SCALE) as nat),
                    fd@ == padded@.subrange(1, k as int),
                decreases padded.len() - k,
            {
                fd.push(padded[k]);
                k = k + 1;
                assert(fd@ =~= padded@.subrange(1, k as int));
            }
            assert(fd@ =~= digits_of((fp + SCALE) as nat).drop_first());
            let ghost full = fd@;
            while fd.len() > 0 && fd[fd.len() - 1] == '0'
                invariant
                    trim_trailing_zeros(fd@) == trim_trailing_zeros(full),
                decreases fd.len(),
            {
                let ghost prev = fd@;
                fd.pop();
                assert(fd@ =~= prev.drop_last());
            }
            let ghost before = out@;
            let mut m: usize = 0;
            while m < fd.len()
                invariant
                    0 <= m <= fd.len(),
                    out@ == before + fd@.take(m as int),
                decreases fd.len() - m,
            {
                out.push(fd[m]);
                m = m + 1;
                assert(out@ =~= before + fd@.take(m as int));
            }
            assert(fd@.take(fd.len() as int) =~= fd@);
        }
        out
    }
}

} // verus!
