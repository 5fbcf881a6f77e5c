//! Exact decimal numbers: prices, rates and the amounts derived from them.

use vstd::prelude::*;
use vstd::string::{StrSliceExecFns, StringExecFns};
use crate::text::{
    all_digits, chars_of, digits_of, digits_value, is_digit, lemma_digits_of,
    lemma_digits_value_grows, read_digits, render_count,
};

verus! {

/// A decimal number: `coefficient / 10^scale`, negated where `negative` is set.
#[derive(Debug, Clone, Copy, PartialEq, Eq, Structural)]
pub struct Decimal {
    pub negative: bool,
    pub coefficient: u64,
    /// The number of digits after the decimal point.
    pub scale: u8,
}

/// Ten to the power `exponent`.
pub open spec fn pow10(exponent: nat) -> nat
    decreases exponent,
{
    if exponent == 0 {
        1
    } else {
        10 * pow10((exponent - 1) as nat)
    }
}

/// The position of the first decimal point in `s`, or the length of `s` where it has none.
pub open spec fn point_position(s: Seq<char>) -> int
    decreases s.len(),
{
    if s.len() == 0 || s[0] == '.' {
        0
    } else {
        1 + point_position(s.drop_first())
    }
}

/// The coefficient and scale that `body` writes without a sign: digits with at
/// most one decimal point among them, and at least one digit. `None` where
/// `body` is not of that form, or the number does not fit the type.
pub open spec fn magnitude_of(body: Seq<char>) -> Option<(u64, u8)> {
    let point = point_position(body);
    let whole = body.take(point);
    let fraction = if point < body.len() {
        body.skip(point + 1)
    } else {
        Seq::empty()
    };
    let digits = whole + fraction;
    if digits.len() > 0 && all_digits(digits) && digits_value(digits) <= u64::MAX && fraction.len()
        <= u8::MAX {
        Some((digits_value(digits) as u64, fraction.len() as u8))
    } else {
        None
    }
}

/// The number that `text` writes in plain decimal notation: an optional sign,
/// then digits with at most one decimal point among them, and at least one digit.
/// `None` where `text` is not of that form, or the number does not fit the type.
pub open spec fn decimal_of(text: Seq<char>) -> Option<Decimal> {
    let signed = text.len() > 0 && (text[0] == '-' || text[0] == '+');
    let body = if signed {
        text.drop_first()
    } else {
        text
    };
    match magnitude_of(body) {
        Some((coefficient, scale)) => Some(
            Decimal { negative: signed && text[0] == '-', coefficient, scale },
        ),
        None => None,
    }
}

/// `point_position` stays within the text and stops at the first decimal point.
pub proof fn lemma_point_position(s: Seq<char>)
    ensures
        0 <= point_position(s) <= s.len(),
        point_position(s) < s.len() ==> s[point_position(s)] == '.',
        forall|k: int| 0 <= k < point_position(s) ==> s[k] != '.',
    decreases s.len(),
{
    if s.len() > 0 && s[0] != '.' {
        lemma_point_position(s.drop_first());
        assert forall|k: int| 0 <= k < point_position(s) implies s[k] != '.' by {
            if k > 0 {
                assert(s.drop_first()[k - 1] == s[k]);
            }
        }
    }
}

/// Powers of ten grow with the exponent.
pub proof fn lemma_pow10_increases(smaller: nat, larger: nat)
    requires
        smaller <= larger,
    ensures
        1 <= pow10(smaller) <= pow10(larger),
    decreases larger,
{
    if larger > 0 {
        if smaller < larger {
            lemma_pow10_increases(smaller, (larger - 1) as nat);
        } else {
            lemma_pow10_increases((smaller - 1) as nat, (larger - 1) as nat);
        }
    }
}

/// 10^19 is the last power of ten that fits 64 bits.
pub proof fn lemma_pow10_limits()
    ensures
        pow10(19) == 10_000_000_000_000_000_000,
        pow10(20) == 100_000_000_000_000_000_000,
{
    reveal_with_fuel(pow10, 21);
}

/// A run of characters is all digits exactly when both of its parts are.
pub proof fn lemma_all_digits_split(left: Seq<char>, right: Seq<char>)
    ensures
        all_digits(left + right) <==> all_digits(left) && all_digits(right),
{
    if all_digits(left + right) {
        assert forall|k: int| 0 <= k < left.len() implies is_digit(#[trigger] left[k]) by {
            assert((left + right)[k] == left[k]);
        }
        assert forall|k: int| 0 <= k < right.len() implies is_digit(#[trigger] right[k]) by {
            assert((left + right)[left.len() + k] == right[k]);
        }
    }
}

/// A run of `count` zeros.
pub open spec fn zeros(count: nat) -> Seq<char> {
    Seq::new(count, |i: int| '0')
}

/// Zeros in front do not change the number written.
pub proof fn lemma_leading_zeros(count: nat, digits: Seq<char>)
    ensures
        digits_value(zeros(count) + digits) == digits_value(digits),
        all_digits(zeros(count) + digits) <==> all_digits(digits),
    decreases digits.len(),
{
    lemma_all_digits_split(zeros(count), digits);
    if digits.len() == 0 {
        assert(zeros(count) + digits =~= zeros(count));
        lemma_zeros_value(count);
    } else {
        lemma_leading_zeros(count, digits.drop_last());
        assert((zeros(count) + digits).drop_last() =~= zeros(count) + digits.drop_last());
    }
}

/// A run of zeros writes zero.
pub proof fn lemma_zeros_value(count: nat)
    ensures
        digits_value(zeros(count)) == 0,
    decreases count,
{
    if count > 0 {
        lemma_zeros_value((count - 1) as nat);
        assert(zeros(count).drop_last() =~= zeros((count - 1) as nat));
    }
}

/// In a run of digits followed by nothing or by a decimal point, the point
/// position is the length of the run of digits.
pub proof fn lemma_point_after_digits(digits: Seq<char>, rest: Seq<char>)
    requires
        all_digits(digits),
        rest.len() == 0 || rest[0] == '.',
    ensures
        point_position(digits + rest) == digits.len(),
    decreases digits.len(),
{
    if digits.len() == 0 {
        assert(digits + rest =~= rest);
    } else {
        assert(is_digit(digits[0]));
        assert((digits + rest)[0] == digits[0]);
        assert((digits + rest).drop_first() =~= digits.drop_first() + rest);
        assert forall|k: int| 0 <= k < digits.drop_first().len() implies is_digit(
            #[trigger] digits.drop_first()[k],
        ) by {
            assert(digits.drop_first()[k] == digits[k + 1]);
        }
        lemma_point_after_digits(digits.drop_first(), rest);
    }
}

/// Reading the unsigned text of a number gives its coefficient and scale back.
pub proof fn lemma_unsigned_text_round_trip(number: Decimal)
    ensures
        magnitude_of(number.unsigned_text()) == Some((number.coefficient, number.scale)),
        is_digit(number.unsigned_text()[0]),
        number.unsigned_text().len() >= 1,
{
    let digits = digits_of(number.coefficient as nat);
    let padded = number.padded_digits();
    let whole = padded.take(padded.len() - number.scale);
    let fraction = padded.skip(padded.len() - number.scale);
    let tail = if number.scale == 0 {
        Seq::<char>::empty()
    } else {
        "."@ + fraction
    };
    let body = number.unsigned_text();
    assert(all_digits(padded) && digits_value(padded) == number.coefficient && padded.len()
        > number.scale) by {
        lemma_digits_of(number.coefficient as nat);
        if digits.len() <= number.scale {
            lemma_leading_zeros((number.scale + 1 - digits.len()) as nat, digits);
        }
    }
    assert(padded =~= whole + fraction);
    assert(all_digits(whole) && all_digits(fraction)) by {
        lemma_all_digits_split(whole, fraction);
    }
    assert(is_digit(whole[0]));
    assert(body =~= whole + tail);
    assert(body[0] == whole[0]);
    assert(point_position(body) == whole.len()) by {
        reveal_strlit(".");
        lemma_point_after_digits(whole, tail);
    }
    assert(body.take(whole.len() as int) =~= whole);
    if number.scale > 0 {
        assert(body.len() == whole.len() + 1 + fraction.len()) by {
            reveal_strlit(".");
        }
        assert(body.skip(whole.len() as int + 1) =~= fraction) by {
            reveal_strlit(".");
        }
    } else {
        assert(fraction =~= Seq::<char>::empty());
        assert(tail.len() == 0);
        assert(body.len() == whole.len());
    }
}

/// Reading the text that writes a number gives that number back.
pub proof fn lemma_text_round_trip(number: Decimal)
    ensures
        decimal_of(number.text()) == Some(number),
{
    let body = number.unsigned_text();
    let text = number.text();
    lemma_unsigned_text_round_trip(number);
    reveal_strlit("-");
    if number.negative {
        assert(text =~= "-"@ + body);
        assert(text[0] == '-');
        assert(text.drop_first() =~= body);
    } else {
        assert(text =~= body);
    }
}

/// Computes ten to the power `exponent`, where that fits 64 bits.
fn power_of_ten(exponent: u8) -> (power: Option<u64>)
    ensures
        power == if exponent <= 19 {
            Some(pow10(exponent as nat) as u64)
        } else {
            None
        },
        exponent <= 19 ==> pow10(exponent as nat) <= u64::MAX,
{
    if exponent > 19 {
        return None;
    }
    let mut power: u64 = 1;
    let mut done: u8 = 0;
    while done < exponent
        invariant
            done <= exponent <= 19,
            power == pow10(done as nat),
        decreases exponent - done,
    {
        proof {
            lemma_pow10_increases((done + 1) as nat, 19);
            lemma_pow10_limits();
        }
        power = power * 10;
        done += 1;
    }
    proof {
        lemma_pow10_increases(exponent as nat, 19);
        lemma_pow10_limits();
    }
    Some(power)
}

/// Finds the first decimal point at or after `start`.
fn locate_point(chars: &Vec<char>, start: usize) -> (point: usize)
    requires
        start <= chars.len(),
    ensures
        start <= point <= chars.len(),
        point - start == point_position(chars@.subrange(start as int, chars.len() as int)),
{
    let ghost body = chars@.subrange(start as int, chars.len() as int);
    let mut point: usize = start;
    while point < chars.len() && chars[point] != '.'
        invariant
            start <= point <= chars.len(),
            forall|k: int| start <= k < point ==> chars@[k] != '.',
        decreases chars.len() - point,
    {
        point += 1;
    }
    proof {
        lemma_point_position(body);
        let found = point_position(body);
        if found < point - start {
            assert(body[found] == chars@[start + found]);
        }
        if found > point - start {
            assert(body[point - start] == chars@[point as int]);
        }
    }
    point
}

/// Reads the unsigned part of a number, which starts at `start`.
fn parse_magnitude(chars: &Vec<char>, start: usize) -> (magnitude: Option<(u64, u8)>)
    requires
        start <= chars.len(),
    ensures
        magnitude == magnitude_of(chars@.subrange(start as int, chars.len() as int)),
{
    let length = chars.len();
    let ghost body = chars@.subrange(start as int, length as int);
    let point = locate_point(chars, start);
    let ghost whole = body.take(point - start);
    let ghost fraction = if point < length {
        body.skip(point - start + 1)
    } else {
        Seq::empty()
    };
    proof {
        assert(whole =~= chars@.subrange(start as int, point as int));
        assert(Seq::<char>::empty() + whole =~= whole);
        lemma_all_digits_split(whole, fraction);
        lemma_digits_value_grows(whole, fraction);
    }
    let leading = match read_digits(chars, start, point, 0, Ghost(Seq::empty())) {
        Some(leading) => leading,
        None => { return None; },
    };
    if point == length {
        assert(whole + fraction =~= whole);
        if point == start {
            return None;
        }
        return Some((leading, 0));
    }
    assert(fraction =~= chars@.subrange(point + 1, length as int));
    let coefficient = match read_digits(chars, point + 1, length, leading, Ghost(whole)) {
        Some(coefficient) => coefficient,
        None => { return None; },
    };
    let places: usize = length - point - 1;
    if length - start == 1 || places > 255 {
        return None;
    }
    Some((coefficient, places as u8))
}

impl Decimal {
    /// The coefficient with its sign: the number times `10^scale`.
    pub open spec fn signed(self) -> int {
        if self.negative {
            -(self.coefficient as int)
        } else {
            self.coefficient as int
        }
    }

    /// The number times `10^digits`, for `digits` no less than the scale.
    pub open spec fn scaled_to(self, digits: nat) -> int {
        self.signed() * pow10((digits - self.scale) as nat)
    }

    /// The digits of the coefficient, with zeros in front where it has no more
    /// digits than the scale: one more digit than the scale at least.
    pub open spec fn padded_digits(self) -> Seq<char> {
        let digits = digits_of(self.coefficient as nat);
        if digits.len() > self.scale {
            digits
        } else {
            zeros((self.scale + 1 - digits.len()) as nat) + digits
        }
    }

    /// The text that writes the number without its sign: the whole part in at
    /// least one digit and, where the scale is not zero, a decimal point and as
    /// many digits as the scale says.
    pub open spec fn unsigned_text(self) -> Seq<char> {
        let padded = self.padded_digits();
        let whole = padded.take(padded.len() - self.scale);
        let fraction = padded.skip(padded.len() - self.scale);
        if self.scale == 0 {
            whole
        } else {
            whole + "."@ + fraction
        }
    }

    /// The text that writes the number: a minus sign where it is negative, then
    /// the unsigned text.
    pub open spec fn text(self) -> Seq<char> {
        if self.negative {
            "-"@ + self.unsigned_text()
        } else {
            self.unsigned_text()
        }
    }

    /// The product of the number and `count`, at the same scale.
    pub open spec fn spec_times(self, count: nat) -> Option<Decimal> {
        if self.coefficient * count <= u64::MAX {
            Some(
                Decimal {
                    negative: self.negative,
                    coefficient: (self.coefficient * count) as u64,
                    scale: self.scale,
                },
            )
        } else {
            None
        }
    }

    /// The absolute difference of the two numbers, at the larger of their scales.
    pub open spec fn spec_distance(self, other: Decimal) -> Option<Decimal> {
        let scale = if self.scale >= other.scale {
            self.scale
        } else {
            other.scale
        };
        let gap = self.scaled_to(scale as nat) - other.scaled_to(scale as nat);
        let magnitude = if gap < 0 {
            -gap
        } else {
            gap
        };
        if magnitude <= u64::MAX {
            Some(Decimal { negative: false, coefficient: magnitude as u64, scale })
        } else {
            None
        }
    }

    /// Whether the number is greater than the whole number `whole`.
    pub open spec fn spec_exceeds(self, whole: nat) -> bool {
        self.signed() > whole * pow10(self.scale as nat)
    }

    /// The coefficient that the number has when written with `digits` decimal
    /// places, as far as 128 bits hold it. `None` means that it is at least 10^20.
    fn widened(&self, digits: u8) -> (wide: Option<u128>)
        requires
            self.scale <= digits,
        ensures
            match wide {
                Some(wide) => wide == self.coefficient * pow10((digits - self.scale) as nat)
                    && wide <= u64::MAX * 10_000_000_000_000_000_000,
                None => self.coefficient * pow10((digits - self.scale) as nat)
                    >= 100_000_000_000_000_000_000,
            },
    {
        let shift: u8 = digits - self.scale;
        if self.coefficient == 0 {
            return Some(0);
        }
        match power_of_ten(shift) {
            Some(power) => {
                proof {
                    lemma_pow10_increases(shift as nat, 19);
                    lemma_pow10_limits();
                    assert(self.coefficient * power <= u64::MAX * 10_000_000_000_000_000_000)
                        by (nonlinear_arith)
                        requires
                            self.coefficient <= u64::MAX,
                            power <= 10_000_000_000_000_000_000,
                    ;
                }
                Some((self.coefficient as u128) * (power as u128))
            },
            None => {
                proof {
                    lemma_pow10_increases(20, shift as nat);
                    lemma_pow10_limits();
                    assert(self.coefficient * pow10(shift as nat) >= 100_000_000_000_000_000_000)
                        by (nonlinear_arith)
                        requires
                            self.coefficient >= 1,
                            pow10(shift as nat) >= 100_000_000_000_000_000_000,
                    ;
                }
                None
            },
        }
    }

    /// Multiplies the number by a count.
    pub fn times(&self, count: usize) -> (product: Option<Decimal>)
        ensures
            product == self.spec_times(count as nat),
    {
        assert(self.coefficient * count <= u64::MAX * usize::MAX) by (nonlinear_arith)
            requires
                self.coefficient <= u64::MAX,
                count <= usize::MAX,
        ;
        let wide: u128 = (self.coefficient as u128) * (count as u128);
        if wide <= u64::MAX as u128 {
            Some(Decimal { negative: self.negative, coefficient: wide as u64, scale: self.scale })
        } else {
            None
        }
    }

    /// The absolute difference between this number and `other`.
    pub fn distance(&self, other: &Decimal) -> (gap: Option<Decimal>)
        ensures
            gap == self.spec_distance(*other),
    {
        let scale: u8 = if self.scale >= other.scale {
            self.scale
        } else {
            other.scale
        };
        let left = self.widened(scale);
        let right = other.widened(scale);
        proof {
            lemma_pow10_increases(0, (scale - self.scale) as nat);
            lemma_pow10_increases(0, (scale - other.scale) as nat);
            assert(pow10(0) == 1);
            assert(self.scaled_to(scale as nat) == if self.negative {
                -(self.coefficient * pow10((scale - self.scale) as nat))
            } else {
                self.coefficient * pow10((scale - self.scale) as nat)
            }) by (nonlinear_arith)
                requires
                    self.scaled_to(scale as nat) == self.signed() * pow10(
                        (scale - self.scale) as nat,
                    ),
                    self.signed() == if self.negative {
                        -(self.coefficient as int)
                    } else {
                        self.coefficient as int
                    },
            ;
            assert(other.scaled_to(scale as nat) == if other.negative {
                -(other.coefficient * pow10((scale - other.scale) as nat))
            } else {
                other.coefficient * pow10((scale - other.scale) as nat)
            }) by (nonlinear_arith)
                requires
                    other.scaled_to(scale as nat) == other.signed() * pow10(
                        (scale - other.scale) as nat,
                    ),
                    other.signed() == if other.negative {
                        -(other.coefficient as int)
                    } else {
                        other.coefficient as int
                    },
            ;
        }
        match (left, right) {
            (Some(left), Some(right)) => {
                let magnitude: u128 = if self.negative == other.negative {
                    if left >= right {
                        left - right
                    } else {
                        right - left
                    }
                } else {
                    left + right
                };
                if magnitude <= u64::MAX as u128 {
                    Some(Decimal { negative: false, coefficient: magnitude as u64, scale })
                } else {
                    None
                }
            },
            _ => None,
        }
    }

    /// Tests whether the number is greater than the whole number `whole`.
    pub fn exceeds(&self, whole: u64) -> (greater: bool)
        ensures
            greater == self.spec_exceeds(whole as nat),
    {
        proof {
            lemma_pow10_increases(0, self.scale as nat);
            assert(whole * pow10(self.scale as nat) >= 0) by (nonlinear_arith)
                requires
                    whole >= 0,
                    pow10(self.scale as nat) >= 0,
            ;
        }
        if self.negative {
            return false;
        }
        match power_of_ten(self.scale) {
            Some(power) => {
                assert(whole * power <= u64::MAX * u64::MAX) by (nonlinear_arith)
                    requires
                        whole <= u64::MAX,
                        power <= u64::MAX,
                ;
                (self.coefficient as u128) > (whole as u128) * (power as u128)
            },
            None => {
                proof {
                    lemma_pow10_increases(20, self.scale as nat);
                    lemma_pow10_limits();
                    if whole >= 1 {
                        assert(whole * pow10(self.scale as nat) >= 100_000_000_000_000_000_000)
                            by (nonlinear_arith)
                            requires
                                whole >= 1,
                                pow10(self.scale as nat) >= 100_000_000_000_000_000_000,
                        ;
                    } else {
                        assert(whole * pow10(self.scale as nat) == 0) by (nonlinear_arith)
                            requires
                                whole == 0,
                        ;
                    }
                }
                whole == 0 && self.coefficient > 0
            },
        }
    }

    /// Writes the number in plain decimal notation.
    pub fn to_text(&self) -> (text: String)
        ensures
            text@ == self.text(),
    {
        let digits = render_count(self.coefficient);
        let count = digits.as_str().unicode_len();
        let scale = self.scale as usize;
        let ghost padded = self.padded_digits();
        let mut text = if self.negative {
            "-".to_owned()
        } else {
            String::new()
        };
        if count > scale {
            text.append(digits.as_str().substring_char(0, count - scale));
        } else {
            proof {
                reveal_strlit("0");
                assert(padded.take(padded.len() - self.scale) =~= "0"@);
            }
            text.append("0");
        }
        if scale > 0 {
            text.append(".");
            let ghost before = text@;
            let mut zeros_left: usize = if count > scale {
                0
            } else {
                scale - count
            };
            let ghost padding = zeros_left;
            while zeros_left > 0
                invariant
                    zeros_left <= padding,
                    text@ == before + zeros((padding - zeros_left) as nat),
                decreases zeros_left,
            {
                proof {
                    reveal_strlit("0");
                }
                text.append("0");
                zeros_left -= 1;
                assert(text@ =~= before + zeros((padding - zeros_left) as nat));
            }
            let from: usize = if count > scale {
                count - scale
            } else {
                0
            };
            text.append(digits.as_str().substring_char(from, count));
            assert(text@ =~= self.text());
        } else {
            assert(text@ =~= self.text());
        }
        text
    }

    /// Reads a number in plain decimal notation.
    pub fn parse(text: &str) -> (number: Option<Decimal>)
        ensures
            number == decimal_of(text@),
    {
        let chars = chars_of(text);
        let signed = chars.len() > 0 && (chars[0] == '-' || chars[0] == '+');
        let negative = signed && chars[0] == '-';
        let start: usize = if signed {
            1
        } else {
            0
        };
        assert(chars@.subrange(start as int, chars.len() as int) =~= if signed {
            text@.drop_first()
        } else {
            text@
        });
        match parse_magnitude(&chars, start) {
            Some((coefficient, scale)) => Some(Decimal { negative, coefficient, scale }),
            None => None,
        }
    }
}

} // verus!
