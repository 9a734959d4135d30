//! Reading a slide's ordering key as a number.
//!
//! Under strict numeric keys the text before the first `_` of a slide's name
//! has to be a decimal integer: an optional sign, then digits and nothing
//! else. The integer may be of any size: an `Index` keeps all its digits.

use vstd::prelude::*;
use crate::text::chars_of;

verus! {

/// `c` is one of `0` to `9`.
pub open spec fn is_digit(c: char) -> bool {
    '0' <= c <= '9'
}

/// The value of the digit `c`.
pub open spec fn digit_value(c: char) -> int {
    c as int - '0' as int
}

/// Every character of `s` is a digit.
pub open spec fn all_digits(s: Seq<char>) -> bool {
    forall|i: int| 0 <= i < s.len() ==> is_digit(#[trigger] s[i])
}

/// The number that the digits `s` write in base ten; 0 for no digits.
pub open spec fn digits_value(s: Seq<char>) -> int
    decreases s.len(),
{
    if s.len() == 0 {
        0
    } else {
        digits_value(s.drop_last()) * 10 + digit_value(s.last())
    }
}

/// `s` starts with a sign.
pub open spec fn has_sign(s: Seq<char>) -> bool {
    s.len() > 0 && (s[0] == '-' || s[0] == '+')
}

/// The digits of `s`: what follows its sign, or all of it.
pub open spec fn digits_of(s: Seq<char>) -> Seq<char> {
    if has_sign(s) {
        s.drop_first()
    } else {
        s
    }
}

/// The number that `s` writes, sign included.
pub open spec fn signed_value(s: Seq<char>) -> int {
    if s.len() > 0 && s[0] == '-' {
        -digits_value(digits_of(s))
    } else {
        digits_value(digits_of(s))
    }
}

/// The index that `s` writes: `s` has at least one digit and nothing but
/// digits after an optional sign. Its value is not bounded.
pub open spec fn spec_parse_index(s: Seq<char>) -> Option<int> {
    let digits = digits_of(s);
    if digits.len() > 0 && all_digits(digits) {
        Some(signed_value(s))
    } else {
        None
    }
}

/// The number whose decimal digits, the most significant first, have the
/// values `d`; 0 for no digits.
pub open spec fn magnitude(d: Seq<u8>) -> int
    decreases d.len(),
{
    if d.len() == 0 {
        0
    } else {
        magnitude(d.drop_last()) * 10 + d.last() as int
    }
}

/// `d` holds the values of decimal digits and does not start with 0, so
/// that every number is written in one way only, and 0 with no digit.
pub open spec fn is_canonical(d: Seq<u8>) -> bool {
    &&& forall|i: int| 0 <= i < d.len() ==> #[trigger] d[i] <= 9
    &&& d.len() > 0 ==> d[0] != 0
}

/// The digit that writes `d`, for `d` from 0 to 9.
pub open spec fn digit_char(d: int) -> char {
    if d == 0 {
        '0'
    } else if d == 1 {
        '1'
    } else if d == 2 {
        '2'
    } else if d == 3 {
        '3'
    } else if d == 4 {
        '4'
    } else if d == 5 {
        '5'
    } else if d == 6 {
        '6'
    } else if d == 7 {
        '7'
    } else if d == 8 {
        '8'
    } else {
        '9'
    }
}

/// How the number `n`, which is not negative, is written in base ten,
/// without leading zeros.
pub open spec fn decimal_of_nat(n: int) -> Seq<char>
    decreases n,
{
    if n < 10 {
        seq![digit_char(n)]
    } else {
        decimal_of_nat(n / 10).push(digit_char(n % 10))
    }
}

/// How the integer `n` is written in base ten: with a minus sign where it is
/// negative, and without leading zeros.
pub open spec fn decimal(n: int) -> Seq<char> {
    if n < 0 {
        seq!['-'] + decimal_of_nat(-n)
    } else {
        decimal_of_nat(n)
    }
}

/// An integer of any size: the ordering key of a slide under strict numeric
/// keys. Its view is its value.
#[derive(Debug, PartialEq, Eq)]
pub struct Index {
    negative: bool,
    digits: Vec<u8>,
}

impl View for Index {
    type V = int;

    closed spec fn view(&self) -> int {
        if self.negative {
            -magnitude(self.digits@)
        } else {
            magnitude(self.digits@)
        }
    }
}

impl Clone for Index {
    fn clone(&self) -> (copy: Self)
        ensures
            copy@ == self@,
    {
        proof {
            use_type_invariant(self);
        }
        let digits = self.digits.clone();
        assert(digits@ =~= self.digits@);
        Index { negative: self.negative, digits }
    }
}

/// One more digit multiplies by ten and adds the digit.
proof fn lemma_magnitude_step(d: Seq<u8>, k: int)
    requires
        0 <= k < d.len(),
    ensures
        magnitude(d.take(k + 1)) == magnitude(d.take(k)) * 10 + d[k] as int,
{
    assert(d.take(k + 1).drop_last() =~= d.take(k));
}

/// No run of digits writes a negative number.
proof fn lemma_magnitude_is_not_negative(d: Seq<u8>)
    ensures
        0 <= magnitude(d),
    decreases d.len(),
{
    if d.len() > 0 {
        lemma_magnitude_is_not_negative(d.drop_last());
    }
}

/// Digits that do not start with 0 write a number that is not 0.
proof fn lemma_canonical_is_positive(d: Seq<u8>, j: int)
    requires
        is_canonical(d),
        1 <= j <= d.len(),
    ensures
        1 <= magnitude(d.take(j)),
    decreases j,
{
    lemma_magnitude_step(d, j - 1);
    if j > 1 {
        lemma_canonical_is_positive(d, j - 1);
    } else {
        assert(d.take(0) =~= Seq::<u8>::empty());
    }
}

/// Of two numbers written without leading zeros, the one with more digits
/// is the greater.
proof fn lemma_longer_is_greater(x: Seq<u8>, y: Seq<u8>, k: int)
    requires
        is_canonical(x),
        is_canonical(y),
        x.len() < y.len(),
        0 <= k <= x.len(),
    ensures
        magnitude(x.take(k)) < magnitude(y.take(y.len() - x.len() + k)),
    decreases k,
{
    let ahead = y.len() - x.len();
    if k == 0 {
        assert(x.take(0) =~= Seq::<u8>::empty());
        lemma_canonical_is_positive(y, ahead);
    } else {
        lemma_longer_is_greater(x, y, k - 1);
        lemma_magnitude_step(x, k - 1);
        lemma_magnitude_step(y, ahead + k - 1);
    }
}

/// Of two numbers with as many digits, the smaller is the one with the
/// smaller digit where they first differ.
proof fn lemma_first_difference_decides(x: Seq<u8>, y: Seq<u8>, i: int, k: int)
    requires
        is_canonical(x),
        is_canonical(y),
        x.len() == y.len(),
        0 <= i < k <= x.len(),
        x.take(i) == y.take(i),
        x[i] < y[i],
    ensures
        magnitude(x.take(k)) < magnitude(y.take(k)),
    decreases k,
{
    lemma_magnitude_step(x, k - 1);
    lemma_magnitude_step(y, k - 1);
    if k > i + 1 {
        lemma_first_difference_decides(x, y, i, k - 1);
    }
}

/// Tells whether the digits `x` write a smaller number than the digits `y`.
fn magnitude_is_less(x: &Vec<u8>, y: &Vec<u8>) -> (b: bool)
    requires
        is_canonical(x@),
        is_canonical(y@),
    ensures
        b == (magnitude(x@) < magnitude(y@)),
{
    let len = x.len();
    proof {
        assert(x@.take(x.len() as int) =~= x@);
        assert(y@.take(y.len() as int) =~= y@);
    }
    if len < y.len() {
        proof {
            lemma_longer_is_greater(x@, y@, len as int);
        }
        return true;
    }
    if len > y.len() {
        proof {
            lemma_longer_is_greater(y@, x@, y.len() as int);
        }
        return false;
    }
    let mut i: usize = 0;
    while i < len && x[i] == y[i]
        invariant
            len == x.len(),
            len == y.len(),
            i <= len,
            x@.take(i as int) =~= y@.take(i as int),
        decreases len - i,
    {
        assert(x@.take(i + 1) =~= x@.take(i as int).push(x@[i as int]));
        assert(y@.take(i + 1) =~= y@.take(i as int).push(y@[i as int]));
        i += 1;
    }
    if i == len {
        false
    } else {
        proof {
            if x[i as int] < y[i as int] {
                lemma_first_difference_decides(x@, y@, i as int, len as int);
            } else {
                lemma_first_difference_decides(y@, x@, i as int, len as int);
            }
        }
        x[i] < y[i]
    }
}

/// The text of the digit `d`.
fn digit_text(d: u8) -> (text: &'static str)
    requires
        d <= 9,
    ensures
        text@ == seq![digit_char(d as int)],
{
    proof {
        reveal_strlit("0");
        reveal_strlit("1");
        reveal_strlit("2");
        reveal_strlit("3");
        reveal_strlit("4");
        reveal_strlit("5");
        reveal_strlit("6");
        reveal_strlit("7");
        reveal_strlit("8");
        reveal_strlit("9");
    }
    let text = match d {
        0 => "0",
        1 => "1",
        2 => "2",
        3 => "3",
        4 => "4",
        5 => "5",
        6 => "6",
        7 => "7",
        8 => "8",
        _ => "9",
    };
    assert(text@ =~= seq![digit_char(d as int)]);
    text
}

impl Index {
    /// What holds of every index: its digits are written in the one way, and
    /// zero has no sign.
    #[verifier::type_invariant]
    spec fn is_well_formed(self) -> bool {
        is_canonical(self.digits@) && (self.negative ==> self.digits.len() > 0)
    }

    /// The index as it is written in base ten.
    pub fn to_string(&self) -> (text: String)
        ensures
            text@ == decimal(self@),
    {
        proof {
            use_type_invariant(self);
            reveal_strlit("-");
            assert("-"@ =~= seq!['-']);
        }
        let len = self.digits.len();
        if len == 0 {
            return digit_text(0).to_owned();
        }
        let mut text = if self.negative {
            "-".to_owned()
        } else {
            String::new()
        };
        let ghost sign = text@;
        let mut i: usize = 0;
        while i < len
            invariant
                i <= len,
                len == self.digits.len(),
                is_canonical(self.digits@),
                i == 0 ==> text@ == sign,
                i > 0 ==> text@ == sign + decimal_of_nat(magnitude(self.digits@.take(i as int))),
            decreases len - i,
        {
            let d = self.digits[i];
            let ghost before = magnitude(self.digits@.take(i as int));
            proof {
                lemma_magnitude_step(self.digits@, i as int);
                if i > 0 {
                    lemma_canonical_is_positive(self.digits@, i as int);
                } else {
                    assert(self.digits@.take(0) =~= Seq::<u8>::empty());
                }
                let now = before * 10 + d as int;
                assert(now % 10 == d as int && now / 10 == before);
            }
            text.append(digit_text(d));
            assert(text@ =~= sign + decimal_of_nat(magnitude(self.digits@.take(i + 1))));
            i += 1;
        }
        proof {
            assert(self.digits@.take(len as int) =~= self.digits@);
            lemma_canonical_is_positive(self.digits@, len as int);
        }
        text
    }

    /// Tells whether this index is smaller than `other`.
    pub fn is_less_than(&self, other: &Index) -> (b: bool)
        ensures
            b == (self@ < other@),
    {
        proof {
            use_type_invariant(self);
            use_type_invariant(other);
            lemma_magnitude_is_not_negative(self.digits@);
            lemma_magnitude_is_not_negative(other.digits@);
            if self.digits.len() > 0 {
                lemma_canonical_is_positive(self.digits@, self.digits.len() as int);
                assert(self.digits@.take(self.digits.len() as int) =~= self.digits@);
            }
            if other.digits.len() > 0 {
                lemma_canonical_is_positive(other.digits@, other.digits.len() as int);
                assert(other.digits@.take(other.digits.len() as int) =~= other.digits@);
            }
        }
        if self.negative {
            if other.negative {
                magnitude_is_less(&other.digits, &self.digits)
            } else {
                true
            }
        } else if other.negative {
            false
        } else {
            magnitude_is_less(&self.digits, &other.digits)
        }
    }
}

/// Reads `s` as an index.
pub fn parse_index(s: &str) -> (r: Option<Index>)
    ensures
        match r {
            Some(n) => spec_parse_index(s@) == Some(n@),
            None => spec_parse_index(s@) is None,
        },
{
    let v = chars_of(s);
    let len: usize = v.len();
    let signed: bool = len > 0 && (v[0] == '-' || v[0] == '+');
    let minus: bool = len > 0 && v[0] == '-';
    let start: usize = if signed { 1 } else { 0 };
    let ghost text = digits_of(s@);
    assert(text =~= s@.skip(start as int));
    if start == len {
        return None;
    }
    let mut digits: Vec<u8> = Vec::new();
    let mut k: usize = start;
    assert(text.take(0) =~= Seq::<char>::empty());
    while k < len
        invariant
            start <= k <= len,
            len == v.len(),
            v@ == s@,
            text == s@.skip(start as int),
            text == digits_of(s@),
            all_digits(text.take(k - start)),
            magnitude(digits@) == digits_value(text.take(k - start)),
            is_canonical(digits@),
        decreases len - k,
    {
        let c = v[k];
        assert(text[k - start] == c);
        if !('0' <= c && c <= '9') {
            assert(!is_digit(text[k - start]));
            return None;
        }
        let d: u8 = (c as u32 - '0' as u32) as u8;
        let ghost before = digits@;
        proof {
            let upto = text.take(k - start + 1);
            assert(upto.drop_last() =~= text.take(k - start));
            assert(upto.last() == c);
            assert(all_digits(upto));
        }
        if digits.len() > 0 || d != 0 {
            digits.push(d);
            assert(digits@.drop_last() =~= before);
        }
        k += 1;
    }
    assert(text.take(len - start) =~= text);
    let negative = minus && digits.len() > 0;
    Some(Index { negative, digits })
}

} // verus!
