//! Helpers on text: equality of string slices, the decimal rendering of
//! counts, trimming of white space and the abbreviation of ids.

use vstd::prelude::*;
use vstd::std_specs::iter::IteratorSpec;
use vstd::string::*;
use vstd::utf8::*;

verus! {

/// Whether two string slices hold the same characters.
pub fn same_text(a: &str, b: &str) -> (equal: bool)
    ensures
        equal == (a@ == b@),
{
    let x = a.as_bytes();
    let y = b.as_bytes();
    proof {
        encode_utf8_decode_utf8(a@);
        encode_utf8_decode_utf8(b@);
    }
    if x.len() != y.len() {
        return false;
    }
    let mut i: usize = 0;
    while i < x.len()
        invariant
            i <= x.len(),
            x.len() == y.len(),
            x@ == a.spec_bytes(),
            y@ == b.spec_bytes(),
            forall|k: int| 0 <= k < i ==> x@[k] == y@[k],
        decreases x.len() - i,
    {
        if x[i] != y[i] {
            return false;
        }
        i += 1;
    }
    assert(x@ =~= y@);
    true
}

/// The character that stands for a single decimal digit.
pub open spec fn digit_char(d: nat) -> char
    recommends
        d < 10,
{
    if d == 0 {
        '0'
    } else if d == 1 {
        '1'
    } else if d == 2 {
        '2'
    } else if d == 3 {
        '3'
    } else if d == 4 {
        '4'
    } else if d == 5 {
        '5'
    } else if d == 6 {
        '6'
    } else if d == 7 {
        '7'
    } else if d == 8 {
        '8'
    } else {
        '9'
    }
}

/// The decimal numeral of `n`, most significant digit first, without
/// leading zeros (`0` is written "0").
pub open spec fn decimal(n: nat) -> Seq<char>
    decreases n,
{
    if n < 10 {
        seq![digit_char(n)]
    } else {
        decimal(n / 10).push(digit_char(n % 10))
    }
}

fn digit_text(d: usize) -> (s: &'static str)
    requires
        d < 10,
    ensures
        s@ == seq![digit_char(d as nat)],
{
    proof {
        reveal_strlit("0");
        reveal_strlit("1");
        reveal_strlit("2");
        reveal_strlit("3");
        reveal_strlit("4");
        reveal_strlit("5");
        reveal_strlit("6");
        reveal_strlit("7");
        reveal_strlit("8");
        reveal_strlit("9");
    }
    let s = if d == 0 {
        "0"
    } else if d == 1 {
        "1"
    } else if d == 2 {
        "2"
    } else if d == 3 {
        "3"
    } else if d == 4 {
        "4"
    } else if d == 5 {
        "5"
    } else if d == 6 {
        "6"
    } else if d == 7 {
        "7"
    } else if d == 8 {
        "8"
    } else {
        "9"
    };
    assert(s@ =~= seq![digit_char(d as nat)]);
    s
}

/// Renders a count as its decimal numeral.
pub fn decimal_string(n: usize) -> (s: String)
    ensures
        s@ == decimal(n as nat),
{
    let mut rest: usize = n / 10;
    let mut out: String = String::from_str(digit_text(n % 10));
    let ghost mut tail: Seq<char> = seq![digit_char((n % 10) as nat)];
    proof {
        lemma_decimal_split(n as nat);
    }
    while rest > 0
        invariant
            out@ == tail,
            decimal(n as nat) == if rest == 0 {
                tail
            } else {
                decimal(rest as nat) + tail
            },
        decreases rest,
    {
        let d: usize = rest % 10;
        let ghost before = rest;
        rest = rest / 10;
        out = String::from_str(digit_text(d)).concat(out.as_str());
        proof {
            let digit = seq![digit_char(d as nat)];
            assert(decimal(before as nat) == if before < 10 {
                digit
            } else {
                decimal(rest as nat).push(digit_char(d as nat))
            });
            if before >= 10 {
                assert(decimal(rest as nat).push(digit_char(d as nat)) + tail =~= decimal(
                    rest as nat,
                ) + (digit + tail));
            }
            tail = digit + tail;
        }
    }
    out
}

proof fn lemma_decimal_split(n: nat)
    ensures
        decimal(n) == if n / 10 == 0 {
            seq![digit_char(n % 10)]
        } else {
            decimal(n / 10) + seq![digit_char(n % 10)]
        },
{
    if n >= 10 {
        assert(decimal(n / 10).push(digit_char(n % 10)) =~= decimal(n / 10) + seq![
            digit_char(n % 10),
        ]);
    }
}

/// Whether `c` is white space in the sense of `char::is_whitespace`: it has
/// the Unicode property White_Space.
pub uninterp spec fn is_whitespace_char(c: char) -> bool;

/// `char::is_whitespace` of the standard library. Trusted: the answer is
/// the one that the name `is_whitespace_char` stands for, the same for
/// the same character at every call.
#[verifier::external_body]
fn is_whitespace(c: char) -> (yes: bool)
    ensures
        yes == is_whitespace_char(c),
{
    c.is_whitespace()
}

/// Which characters of `s` are white space, place by place.
pub open spec fn blanks(s: Seq<char>) -> Seq<bool> {
    Seq::new(s.len(), |i: int| is_whitespace_char(s[i]))
}

/// The number of places at the start of `blank` that are all `true`.
pub open spec fn leading(blank: Seq<bool>) -> nat
    decreases blank.len(),
{
    if blank.len() > 0 && blank.first() {
        1 + leading(blank.drop_first())
    } else {
        0
    }
}

/// The number of places at the end of `blank` that are all `true`.
pub open spec fn trailing(blank: Seq<bool>) -> nat
    decreases blank.len(),
{
    if blank.len() > 0 && blank.last() {
        1 + trailing(blank.drop_last())
    } else {
        0
    }
}

/// The range that remains of a text when its blank characters are dropped
/// at both ends, `blank` saying which of its characters are blank: from
/// the first character that is not blank up to and including the last one.
/// Of a text that is all blank the empty range at 0 remains.
pub open spec fn inner_range(blank: Seq<bool>) -> (int, int) {
    if leading(blank) == blank.len() {
        (0, 0)
    } else {
        (leading(blank) as int, blank.len() - trailing(blank))
    }
}

/// `s` without its leading and trailing white space.
pub open spec fn trimmed(s: Seq<char>) -> Seq<char> {
    s.subrange(inner_range(blanks(s)).0, inner_range(blanks(s)).1)
}

proof fn lemma_leading(blank: Seq<bool>, count: int)
    requires
        0 <= count <= blank.len(),
        forall|i: int| 0 <= i < count ==> #[trigger] blank[i],
        count < blank.len() ==> !blank[count],
    ensures
        leading(blank) == count,
    decreases blank.len(),
{
    if count > 0 {
        assert(blank[0]);
        let rest = blank.drop_first();
        assert forall|i: int| 0 <= i < count - 1 implies #[trigger] rest[i] by {
            assert(rest[i] == blank[i + 1]);
        }
        if count < blank.len() {
            assert(rest[count - 1] == blank[count]);
        }
        lemma_leading(rest, count - 1);
    }
}

proof fn lemma_trailing(blank: Seq<bool>, count: int)
    requires
        0 <= count <= blank.len(),
        forall|i: int| blank.len() - count <= i < blank.len() ==> #[trigger] blank[i],
        count < blank.len() ==> !blank[blank.len() - count - 1],
    ensures
        trailing(blank) == count,
    decreases blank.len(),
{
    if count > 0 {
        assert(blank[blank.len() - 1]);
        let rest = blank.drop_last();
        assert forall|i: int| rest.len() - (count - 1) <= i < rest.len() implies #[trigger] rest[i] by {
            assert(rest[i] == blank[i]);
        }
        if count < blank.len() {
            assert(rest[rest.len() - (count - 1) - 1] == blank[blank.len() - count - 1]);
        }
        lemma_trailing(rest, count - 1);
    }
}

/// The range that remains of a text when its blank characters are dropped
/// at both ends, `blank` saying which of its characters are blank.
pub fn inner_bounds(blank: &[bool]) -> (bounds: (usize, usize))
    ensures
        (bounds.0 as int, bounds.1 as int) == inner_range(blank@),
        bounds.0 <= bounds.1 <= blank@.len(),
{
    let n: usize = blank.len();
    let mut start: usize = 0;
    while start < n && blank[start]
        invariant
            n == blank@.len(),
            start <= n,
            forall|i: int| 0 <= i < start ==> #[trigger] blank@[i],
        decreases n - start,
    {
        start += 1;
    }
    proof {
        lemma_leading(blank@, start as int);
    }
    if start == n {
        return (0, 0);
    }
    let mut end: usize = n;
    while blank[end - 1]
        invariant
            n == blank@.len(),
            start < end <= n,
            !blank@[start as int],
            forall|i: int| end <= i < n ==> #[trigger] blank@[i],
        decreases end,
    {
        end -= 1;
    }
    proof {
        lemma_trailing(blank@, n - end);
    }
    (start, end)
}

/// The text without its leading and trailing white space.
pub fn trim(text: &str) -> (inner: &str)
    ensures
        inner@ == trimmed(text@),
{
    broadcast use vstd::string::group_string_axioms;

    let n: usize = text.unicode_len();
    let mut chars = text.chars();
    let mut blank: Vec<bool> = Vec::new();
    let mut i: usize = 0;
    while i < n
        invariant
            n == text@.len(),
            i <= n,
            chars.remaining() == text@.skip(i as int),
            blank@.len() == i,
            forall|k: int| 0 <= k < i ==> #[trigger] blank@[k] == is_whitespace_char(text@[k]),
        decreases n - i,
    {
        let ghost before = chars;
        let next = chars.next();
        assert(next_post(&before, &chars, next));
        assert(text@.skip(i as int).len() > 0);
        assert(text@.skip(i as int)[0] == text@[i as int]);
        assert(text@.skip(i as int).drop_first() =~= text@.skip(i + 1));
        assert(next == Some(text@[i as int]));
        if let Some(c) = next {
            blank.push(is_whitespace(c));
        }
        i += 1;
    }
    assert(blank@ =~= blanks(text@));
    let (start, end) = inner_bounds(blank.as_slice());
    text.substring_char(start, end)
}

/// The abbreviation under which a session id is shown: its first eight
/// characters, or all of it where it has fewer.
pub open spec fn short_id(id: Seq<char>) -> Seq<char> {
    if id.len() >= 8 {
        id.take(8)
    } else {
        id
    }
}

/// The abbreviation of a session id.
pub fn abbreviate(id: &str) -> (short: &str)
    ensures
        short@ == short_id(id@),
{
    let n: usize = id.unicode_len();
    if n >= 8 {
        id.substring_char(0, 8)
    } else {
        id
    }
}

} // verus!
