//! Real-valued settings, kept in the notation they were written in: the
//! decimal notation of floating-point numbers, which has `inf`, `infinity`
//! and `nan` beside the numbers.
//!
//! The crate never computes with such a value: it decides whether a text
//! denotes one, and carries the text.

use crate::text::all_digits;
use crate::text::ascii_lowercase;
use crate::text::chars_of;
use crate::text::is_digit;
use crate::text::to_ascii_lower;
use vstd::prelude::*;

verus! {

/// How many digits `s` begins with.
pub open spec fn leading_digits(s: Seq<char>) -> nat
    decreases s.len(),
{
    if s.len() > 0 && is_digit(s[0]) {
        1 + leading_digits(s.drop_first())
    } else {
        0
    }
}

/// `s` without the sign, plus or minus, that may stand in front of it.
pub open spec fn unsigned(s: Seq<char>) -> Seq<char> {
    if s.len() > 0 && (s[0] == '+' || s[0] == '-') {
        s.drop_first()
    } else {
        s
    }
}

/// An exponent: the letter `e`, an optional sign, and one or more digits.
pub open spec fn is_exponent(s: Seq<char>) -> bool {
    s.len() > 0 && s[0] == 'e' && unsigned(s.drop_first()).len() > 0 && all_digits(
        unsigned(s.drop_first()),
    )
}

/// A number without a sign: digits, with a point before, among or after them
/// or with none, and then an optional exponent.
pub open spec fn is_number(s: Seq<char>) -> bool {
    let whole = leading_digits(s);
    let after_whole = s.skip(whole as int);
    let pointed = after_whole.len() > 0 && after_whole[0] == '.';
    let after_point = if pointed {
        after_whole.drop_first()
    } else {
        after_whole
    };
    let fraction = if pointed {
        leading_digits(after_point)
    } else {
        0
    };
    let rest = after_point.skip(fraction as int);
    whole + fraction >= 1 && (rest.len() == 0 || is_exponent(rest))
}

/// Whether `s` denotes a real value: after an optional sign, and without
/// regard to the case of letters, it is `inf`, `infinity`, `nan`, or a
/// number.
pub open spec fn is_scalar_notation(s: Seq<char>) -> bool {
    let body = unsigned(ascii_lowercase(s));
    body == "inf"@ || body == "infinity"@ || body == "nan"@ || is_number(body)
}

/// The digits that `s` begins with are a run of digits that ends before the
/// first other character.
pub proof fn lemma_leading_digits(s: Seq<char>)
    ensures
        leading_digits(s) <= s.len(),
        forall|i: int| 0 <= i < leading_digits(s) ==> is_digit(#[trigger] s[i]),
        leading_digits(s) < s.len() ==> !is_digit(s[leading_digits(s) as int]),
    decreases s.len(),
{
    if s.len() > 0 && is_digit(s[0]) {
        let rest = s.drop_first();
        lemma_leading_digits(rest);
        assert forall|i: int| 0 <= i < leading_digits(s) implies is_digit(#[trigger] s[i]) by {
            if i > 0 {
                assert(s[i] == rest[i - 1]);
            }
        }
    }
}

/// A run of digits at the start of `s` that stops at another character, or
/// at the end, is what `s` begins with.
proof fn lemma_leading_digits_is(s: Seq<char>, n: int)
    requires
        0 <= n <= s.len(),
        forall|i: int| 0 <= i < n ==> is_digit(#[trigger] s[i]),
        n < s.len() ==> !is_digit(s[n]),
    ensures
        leading_digits(s) == n,
    decreases s.len(),
{
    if n > 0 {
        let rest = s.drop_first();
        lemma_leading_digits_is(rest, n - 1);
    }
}

/// Counts the digits that `chars` holds from `from` on, up to the first other
/// character.
fn count_digits(chars: &Vec<char>, from: usize) -> (count: usize)
    requires
        from <= chars@.len(),
    ensures
        count == leading_digits(chars@.skip(from as int)),
        from + count <= chars@.len(),
{
    let n = chars.len();
    let mut i: usize = from;
    while i < n && '0' <= chars[i] && chars[i] <= '9'
        invariant
            from <= i <= n,
            n == chars@.len(),
            forall|k: int| from <= k < i ==> is_digit(#[trigger] chars@[k]),
        decreases n - i,
    {
        i += 1;
    }
    proof {
        let rest = chars@.skip(from as int);
        lemma_leading_digits_is(rest, i - from);
    }
    i - from
}

/// Whether `chars` holds, from `from` on, the characters of `word` and then
/// nothing.
fn ends_with_word(chars: &Vec<char>, from: usize, word: &str) -> (hit: bool)
    requires
        from <= chars@.len(),
    ensures
        hit == (chars@.skip(from as int) == word@),
{
    let w = chars_of(word);
    let n = chars.len();
    if n - from != w.len() {
        return false;
    }
    let mut i: usize = 0;
    while i < w.len()
        invariant
            i <= w.len(),
            from <= n,
            n == chars@.len(),
            n - from == w.len(),
            w@ == word@,
            forall|k: int| 0 <= k < i ==> chars@[from + k] == w@[k],
        decreases w.len() - i,
    {
        if chars[from + i] != w[i] {
            return false;
        }
        i += 1;
    }
    assert(chars@.skip(from as int) =~= word@);
    true
}

/// Whether `chars` holds an exponent from `from` on, and then nothing.
fn ends_with_exponent(chars: &Vec<char>, from: usize) -> (hit: bool)
    requires
        from <= chars@.len(),
    ensures
        hit == is_exponent(chars@.skip(from as int)),
{
    let n = chars.len();
    let ghost s = chars@.skip(from as int);
    if from == n || chars[from] != 'e' {
        return false;
    }
    let signed = from + 1 < n && (chars[from + 1] == '+' || chars[from + 1] == '-');
    let start: usize = if signed {
        from + 2
    } else {
        from + 1
    };
    let ghost digits = unsigned(s.drop_first());
    assert(digits =~= chars@.skip(start as int));
    let count = count_digits(chars, start);
    proof {
        lemma_leading_digits(digits);
    }
    start < n && start + count == n
}

/// Whether `chars`, a text in lower case, holds a number from `from` on, and
/// then nothing.
fn ends_with_number(chars: &Vec<char>, from: usize) -> (hit: bool)
    requires
        from <= chars@.len(),
    ensures
        hit == is_number(chars@.skip(from as int)),
{
    let n = chars.len();
    let ghost s = chars@.skip(from as int);
    let whole = count_digits(chars, from);
    let at_point = from + whole;
    assert(s.skip(whole as int) =~= chars@.skip(at_point as int));
    let pointed = at_point < n && chars[at_point] == '.';
    let after_point: usize = if pointed {
        at_point + 1
    } else {
        at_point
    };
    assert(pointed ==> s.skip(whole as int).drop_first() =~= chars@.skip(after_point as int));
    let fraction: usize = if pointed {
        count_digits(chars, after_point)
    } else {
        0
    };
    let rest = after_point + fraction;
    assert(chars@.skip(after_point as int).skip(fraction as int) =~= chars@.skip(rest as int));
    if whole + fraction == 0 {
        return false;
    }
    if rest == n {
        return true;
    }
    ends_with_exponent(chars, rest)
}

/// Decides [`is_scalar_notation`].
pub fn has_scalar_notation(text: &str) -> (real_valued: bool)
    ensures
        real_valued == is_scalar_notation(text@),
{
    let given = chars_of(text);
    let mut chars: Vec<char> = Vec::new();
    let mut i: usize = 0;
    while i < given.len()
        invariant
            i <= given.len(),
            given@ == text@,
            chars@ == ascii_lowercase(text@).take(i as int),
        decreases given.len() - i,
    {
        chars.push(to_ascii_lower(given[i]));
        i += 1;
    }
    assert(chars@ =~= ascii_lowercase(text@));
    let n = chars.len();
    let from: usize = if n > 0 && (chars[0] == '+' || chars[0] == '-') {
        1
    } else {
        0
    };
    ends_with_word(&chars, from, "inf") || ends_with_word(&chars, from, "infinity")
        || ends_with_word(&chars, from, "nan") || ends_with_number(&chars, from)
}

/// A real-valued setting: a text that denotes a real value.
#[derive(Debug, PartialEq, Eq)]
pub struct Scalar {
    text: String,
}

impl View for Scalar {
    type V = Seq<char>;

    closed spec fn view(&self) -> Seq<char> {
        self.text@
    }
}

impl Scalar {
    #[verifier::type_invariant]
    spec fn well_formed(self) -> bool {
        is_scalar_notation(self.text@)
    }

    /// The setting that `text` denotes, if it denotes one.
    pub fn parse(text: &str) -> (scalar: Option<Scalar>)
        ensures
            scalar is Some <==> is_scalar_notation(text@),
            scalar matches Some(r) ==> r@ == text@,
    {
        if has_scalar_notation(text) {
            Some(Scalar { text: text.to_owned() })
        } else {
            None
        }
    }

    /// The notation of the setting.
    pub fn as_str(&self) -> (text: &str)
        ensures
            text@ == self@,
            is_scalar_notation(text@),
    {
        proof {
            use_type_invariant(self);
        }
        self.text.as_str()
    }
}

impl Clone for Scalar {
    fn clone(&self) -> (copy: Scalar)
        ensures
            copy@ == self@,
    {
        proof {
            use_type_invariant(self);
        }
        Scalar { text: self.text.clone() }
    }
}

/// The view of a real-valued setting that may be absent.
pub open spec fn scalar_view(scalar: Option<Scalar>) -> Option<Seq<char>> {
    match scalar {
        Some(r) => Some(r@),
        None => None,
    }
}

/// Copies a real-valued setting that may be absent.
pub fn copy_scalar(scalar: &Option<Scalar>) -> (copy: Option<Scalar>)
    ensures
        scalar_view(copy) == scalar_view(*scalar),
{
    match scalar {
        Some(r) => Some(r.clone()),
        None => None,
    }
}

} // verus!
