//! Character-level helpers shared by the parsers of this crate.

use vstd::prelude::*;
use vstd::string::StringExecFns;

verus! {

/// The characters of an optional text.
pub open spec fn text_view(text: Option<String>) -> Option<Seq<char>> {
    match text {
        Some(text) => Some(text@),
        None => None,
    }
}

/// Whether `needle` occurs in `haystack` starting at position `at`.
pub open spec fn occurs_at(haystack: Seq<char>, needle: Seq<char>, at: int) -> bool {
    &&& 0 <= at
    &&& at + needle.len() <= haystack.len()
    &&& haystack.subrange(at, at + needle.len()) == needle
}

/// The first position at or after `from` where `needle` occurs in `haystack`.
pub open spec fn first_occurrence(haystack: Seq<char>, needle: Seq<char>, from: int) -> Option<int>
    decreases haystack.len() + 1 - from,
{
    if from < 0 || from + needle.len() > haystack.len() {
        None
    } else if occurs_at(haystack, needle, from) {
        Some(from)
    } else {
        first_occurrence(haystack, needle, from + 1)
    }
}

/// `first_occurrence` finds an occurrence exactly when there is one at or after
/// `from`, and the one it finds is the leftmost of them.
pub proof fn lemma_first_occurrence(haystack: Seq<char>, needle: Seq<char>, from: int)
    requires
        0 <= from,
    ensures
        match first_occurrence(haystack, needle, from) {
            Some(at) => {
                &&& from <= at
                &&& occurs_at(haystack, needle, at)
                &&& forall|k: int| from <= k < at ==> !occurs_at(haystack, needle, k)
            },
            None => forall|k: int| from <= k ==> !occurs_at(haystack, needle, k),
        },
    decreases haystack.len() + 1 - from,
{
    if from + needle.len() <= haystack.len() && !occurs_at(haystack, needle, from) {
        lemma_first_occurrence(haystack, needle, from + 1);
    }
}

/// The characters of `s`, in order.
pub fn chars_of(s: &str) -> (chars: Vec<char>)
    ensures
        chars@ == s@,
{
    let mut chars: Vec<char> = Vec::new();
    for c in it: s.chars()
        invariant
            it.seq() == s@,
            chars@ == it.seq().take(it.index()),
    {
        chars.push(c);
    }
    chars
}

/// Tests whether `needle` occurs in `haystack` at position `at`.
pub fn matches_at(haystack: &Vec<char>, needle: &Vec<char>, at: usize) -> (found: bool)
    ensures
        found == occurs_at(haystack@, needle@, at as int),
{
    if needle.len() > haystack.len() || at > haystack.len() - needle.len() {
        return false;
    }
    let mut i: usize = 0;
    while i < needle.len()
        invariant
            i <= needle.len(),
            at + needle.len() <= haystack.len(),
            forall|k: int| 0 <= k < i ==> haystack@[at + k] == needle@[k],
        decreases needle.len() - i,
    {
        if haystack[at + i] != needle[i] {
            assert(haystack@.subrange(at as int, at + needle.len())[i as int] != needle@[i as int]);
            return false;
        }
        i += 1;
    }
    assert(haystack@.subrange(at as int, at + needle.len()) =~= needle@);
    true
}

/// Searches `haystack` for the leftmost occurrence of `needle` at or after `from`.
pub fn find_from(haystack: &Vec<char>, needle: &Vec<char>, from: usize) -> (found: Option<usize>)
    ensures
        first_occurrence(haystack@, needle@, from as int) == match found {
            Some(at) => Some(at as int),
            None => None,
        },
        found matches Some(at) ==> from <= at && at + needle@.len() <= haystack@.len()
            <= usize::MAX,
{
    if needle.len() > haystack.len() {
        return None;
    }
    let last: usize = haystack.len() - needle.len();
    let mut at: usize = from;
    while at <= last
        invariant
            last == haystack.len() - needle.len(),
            from <= at,
            first_occurrence(haystack@, needle@, from as int) == first_occurrence(
                haystack@,
                needle@,
                at as int,
            ),
        decreases last - at,
    {
        if matches_at(haystack, needle, at) {
            return Some(at);
        }
        if at == last {
            assert(first_occurrence(haystack@, needle@, at + 1) is None);
            return None;
        }
        at += 1;
    }
    None
}

/// Whether `c` is one of the ten decimal digits.
pub open spec fn is_digit(c: char) -> bool {
    '0' <= c && c <= '9'
}

/// The number that a digit stands for; 0 for any other character.
pub open spec fn digit_value(c: char) -> nat {
    if is_digit(c) {
        (c as int - '0' as int) as nat
    } else {
        0
    }
}

/// Whether every character of `s` is a decimal digit.
pub open spec fn all_digits(s: Seq<char>) -> bool {
    forall|i: int| 0 <= i < s.len() ==> is_digit(#[trigger] s[i])
}

/// The number written by the digits of `s` in base ten; 0 for the empty run.
pub open spec fn digits_value(s: Seq<char>) -> nat
    decreases s.len(),
{
    if s.len() == 0 {
        0
    } else {
        10 * digits_value(s.drop_last()) + digit_value(s.last())
    }
}

/// Appending characters never lowers the number written.
pub proof fn lemma_digits_value_grows(s: Seq<char>, more: Seq<char>)
    ensures
        digits_value(s) <= digits_value(s + more),
    decreases more.len(),
{
    if more.len() == 0 {
        assert(s + more =~= s);
    } else {
        lemma_digits_value_grows(s, more.drop_last());
        assert((s + more).drop_last() =~= s + more.drop_last());
    }
}

/// Reads the digits of `chars[from..to]` as the continuation of a number whose
/// leading digits `before` have the value `carried`.
pub(crate) fn read_digits(
    chars: &Vec<char>,
    from: usize,
    to: usize,
    carried: u64,
    Ghost(before): Ghost<Seq<char>>,
) -> (value: Option<u64>)
    requires
        from <= to <= chars.len(),
        carried == digits_value(before),
    ensures
        ({
            let run = chars@.subrange(from as int, to as int);
            value == if all_digits(run) && digits_value(before + run) <= u64::MAX {
                Some(digits_value(before + run) as u64)
            } else {
                None
            }
        }),
{
    let ghost run = chars@.subrange(from as int, to as int);
    let mut value: u64 = carried;
    let mut i: usize = from;
    assert(before + chars@.subrange(from as int, from as int) =~= before);
    while i < to
        invariant
            from <= i <= to <= chars.len(),
            run == chars@.subrange(from as int, to as int),
            all_digits(chars@.subrange(from as int, i as int)),
            value == digits_value(before + chars@.subrange(from as int, i as int)),
        decreases to - i,
    {
        let c = chars[i];
        let ghost seen = before + chars@.subrange(from as int, i as int);
        let ghost next = before + chars@.subrange(from as int, i + 1);
        proof {
            assert(next.drop_last() =~= seen);
            assert(next.last() == c);
            assert(run[i - from] == c);
            assert(next + chars@.subrange(i + 1, to as int) =~= before + run);
            lemma_digits_value_grows(next, chars@.subrange(i + 1, to as int));
        }
        if !(c >= '0' && c <= '9') {
            return None;
        }
        let digit: u64 = (c as u32 - '0' as u32) as u64;
        if value > (u64::MAX - digit) / 10 {
            return None;
        }
        value = value * 10 + digit;
        i += 1;
        assert(all_digits(chars@.subrange(from as int, i as int))) by {
            assert forall|k: int| 0 <= k < i - from implies is_digit(
                #[trigger] chars@.subrange(from as int, i as int)[k],
            ) by {
                if k < i - from - 1 {
                    assert(chars@.subrange(from as int, i - 1)[k] == chars@[from + k]);
                }
            }
        }
    }
    assert(chars@.subrange(from as int, i as int) =~= run);
    Some(value)
}

/// The count that `text` writes: an optional plus sign, then at least one
/// digit. `None` where `text` is not of that form, or the count does not fit the type.
pub open spec fn count_of(text: Seq<char>) -> Option<usize> {
    let digits = if text.len() > 0 && text[0] == '+' {
        text.drop_first()
    } else {
        text
    };
    if digits.len() > 0 && all_digits(digits) && digits_value(digits) <= usize::MAX {
        Some(digits_value(digits) as usize)
    } else {
        None
    }
}

/// Reads an unsigned count.
pub fn parse_count(text: &str) -> (count: Option<usize>)
    ensures
        count == count_of(text@),
{
    let chars = chars_of(text);
    let start: usize = if chars.len() > 0 && chars[0] == '+' {
        1
    } else {
        0
    };
    if start == chars.len() {
        return None;
    }
    let ghost digits = chars@.subrange(start as int, chars.len() as int);
    assert(digits =~= if start == 1 {
        text@.drop_first()
    } else {
        text@
    });
    assert(Seq::<char>::empty() + digits =~= digits);
    match read_digits(&chars, start, chars.len(), 0, Ghost(Seq::empty())) {
        Some(value) => {
            if value <= usize::MAX as u64 {
                Some(value as usize)
            } else {
                None
            }
        },
        None => None,
    }
}

/// The character that writes the digit `d`.
pub open spec fn digit_char(d: nat) -> char {
    ('0' as int + d) as char
}

/// The digits that write `n` in base ten, without leading zeros; one zero for 0.
pub open spec fn digits_of(n: nat) -> Seq<char>
    decreases n,
{
    if n < 10 {
        seq![digit_char(n)]
    } else {
        digits_of(n / 10).push(digit_char(n % 10))
    }
}

/// The digits of a number are digits, and they write that number.
pub proof fn lemma_digits_of(n: nat)
    ensures
        digits_of(n).len() >= 1,
        all_digits(digits_of(n)),
        digits_value(digits_of(n)) == n,
    decreases n,
{
    if n < 10 {
        let single = digits_of(n);
        assert(single.drop_last() =~= Seq::<char>::empty());
        assert(digits_value(single.drop_last()) == 0);
        assert(is_digit(single[0]));
    } else {
        lemma_digits_of(n / 10);
        let longer = digits_of(n);
        assert(longer.drop_last() =~= digits_of(n / 10));
        assert(is_digit(longer.last()));
        assert forall|i: int| 0 <= i < longer.len() implies is_digit(#[trigger] longer[i]) by {
            if i < longer.len() - 1 {
                assert(longer[i] == digits_of(n / 10)[i]);
            }
        }
    }
}

/// The text of one digit.
fn digit_text(d: u64) -> (text: &'static str)
    requires
        d < 10,
    ensures
        text@ == seq![digit_char(d as nat)],
{
    proof {
        reveal_strlit("0");
        reveal_strlit("1");
        reveal_strlit("2");
        reveal_strlit("3");
        reveal_strlit("4");
        reveal_strlit("5");
        reveal_strlit("6");
        reveal_strlit("7");
        reveal_strlit("8");
        reveal_strlit("9");
    }
    let text = if d == 0 {
        "0"
    } else if d == 1 {
        "1"
    } else if d == 2 {
        "2"
    } else if d == 3 {
        "3"
    } else if d == 4 {
        "4"
    } else if d == 5 {
        "5"
    } else if d == 6 {
        "6"
    } else if d == 7 {
        "7"
    } else if d == 8 {
        "8"
    } else {
        "9"
    };
    assert(text@ =~= seq![digit_char(d as nat)]);
    text
}

/// Writes `n` in base ten.
pub fn render_count(n: u64) -> (text: String)
    ensures
        text@ == digits_of(n as nat),
    decreases n,
{
    if n < 10 {
        digit_text(n).to_owned()
    } else {
        let mut text = render_count(n / 10);
        text.append(digit_text(n % 10));
        assert(text@ =~= digits_of(n as nat));
        text
    }
}

} // verus!
