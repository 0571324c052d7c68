//! Plain-text helpers: parsing a move given as `"x,y"` text, and rendering
//! the monotonic counter as the decimal digits of a game id.
//!
//! Move text is split on `','`; the first two pieces must each parse as an
//! unsigned byte (an optional `'+'` sign followed by one or more decimal
//! digits, with a value of at most 255). Pieces after the second are
//! ignored, as the move operation never looks at them.

use vstd::prelude::*;

use vstd::string::StrSliceExecFns;
use vstd::string::StringExecFns;

verus! {

/// Whether `c` is a decimal digit.
pub open spec fn is_digit(c: char) -> bool {
    '0' as int <= c as int <= '9' as int
}

/// The numeric value of a digit character.
pub open spec fn digit_val(c: char) -> int
    recommends
        is_digit(c),
{
    c as int - '0' as int
}

/// Whether every character of `s` is a decimal digit.
pub open spec fn all_digits(s: Seq<char>) -> bool {
    forall|i: int| 0 <= i < s.len() ==> is_digit(#[trigger] s[i])
}

/// The value of a digit string read in base 10.
pub open spec fn dec_val(s: Seq<char>) -> int
    recommends
        all_digits(s),
    decreases s.len(),
{
    if s.len() == 0 {
        0
    } else {
        dec_val(s.drop_last()) * 10 + digit_val(s.last())
    }
}

/// The index of the first occurrence of `c` in `s` at or after `from`, or
/// `s.len()` if there is none.
pub open spec fn find_from(s: Seq<char>, from: int, c: char) -> int
    recommends
        0 <= from <= s.len(),
    decreases s.len() - from when from <= s.len()
{
    if from >= s.len() {
        s.len() as int
    } else if s[from] == c {
        from
    } else {
        find_from(s, from + 1, c)
    }
}

pub proof fn lemma_find_from(s: Seq<char>, from: int, c: char)
    requires
        0 <= from <= s.len(),
    ensures
        from <= find_from(s, from, c) <= s.len(),
        find_from(s, from, c) < s.len() ==> s[find_from(s, from, c)] == c,
    decreases s.len() - from,
{
    if from < s.len() && s[from] != c {
        lemma_find_from(s, from + 1, c);
    }
}

/// What an unsigned-byte parse of `s` yields: an optional leading `'+'`,
/// then one or more decimal digits whose value is at most 255; anything
/// else is rejected.
pub open spec fn parse_u8_spec(s: Seq<char>) -> Option<u8> {
    let d = if s.len() > 0 && s[0] == '+' {
        s.subrange(1, s.len() as int)
    } else {
        s
    };
    if d.len() > 0 && all_digits(d) && dec_val(d) <= 255 {
        Option::Some(dec_val(d) as u8)
    } else {
        Option::None
    }
}

/// What parsing move text yields: the text up to the first `','` and the
/// text from there to the next `','` (or the end) must each parse as an
/// unsigned byte; with no `','` at all the second coordinate is missing and
/// the parse fails.
pub open spec fn parse_move_spec(s: Seq<char>) -> Option<(u8, u8)> {
    let i1 = find_from(s, 0, ',');
    if i1 == s.len() {
        Option::None
    } else {
        let i2 = find_from(s, i1 + 1, ',');
        match (parse_u8_spec(s.subrange(0, i1)), parse_u8_spec(s.subrange(i1 + 1, i2))) {
            (Option::Some(x), Option::Some(y)) => Option::Some((x, y)),
            _ => Option::None,
        }
    }
}

/// Parses the characters of `s` in `[from, to)` as an unsigned byte.
fn scan_u8(s: &str, from: usize, to: usize) -> (r: Option<u8>)
    requires
        from <= to <= s@.len(),
    ensures
        r == parse_u8_spec(s@.subrange(from as int, to as int)),
{
    let ghost part = s@.subrange(from as int, to as int);
    let mut i: usize = from;
    if i < to && s.get_char(i) == '+' {
        i = i + 1;
    }
    let ghost d0 = i as int;
    let ghost digits = s@.subrange(d0, to as int);
    proof {
        if from < to && s@[from as int] == '+' {
            assert(digits =~= part.subrange(1, part.len() as int));
        } else {
            assert(digits =~= part);
        }
    }
    if i == to {
        return Option::None;
    }
    let mut val: u32 = 0;
    let mut over = false;
    while i < to
        invariant
            0 <= d0 <= i <= to <= s@.len(),
            from as int <= d0,
            part == s@.subrange(from as int, to as int),
            digits == s@.subrange(d0, to as int),
            digits == (if part.len() > 0 && part[0] == '+' {
                part.subrange(1, part.len() as int)
            } else {
                part
            }),
            all_digits(s@.subrange(d0, i as int)),
            over <==> dec_val(s@.subrange(d0, i as int)) > 255,
            !over ==> val == dec_val(s@.subrange(d0, i as int)),
        decreases to - i,
    {
        let c = s.get_char(i);
        let ghost seen = s@.subrange(d0, i as int);
        let ghost seen2 = s@.subrange(d0, i + 1 as int);
        proof {
            assert(seen2 =~= seen.push(s@[i as int]));
            assert(seen2.drop_last() =~= seen);
        }
        let cv = c as u32;
        if cv < 48 || cv > 57 {
            proof {
                assert(!is_digit(digits[i - d0]));
            }
            return Option::None;
        }
        if !over {
            val = val * 10 + (cv - 48);
            if val > 255 {
                over = true;
            }
        }
        i = i + 1;
    }
    if over {
        Option::None
    } else {
        Option::Some(val as u8)
    }
}

/// The index of the first occurrence of `c` in `s` at or after `from`, or
/// the character length of `s` if there is none.
fn find_char(s: &str, from: usize, c: char) -> (r: usize)
    requires
        from <= s@.len(),
    ensures
        r == find_from(s@, from as int, c),
        from <= r <= s@.len(),
{
    let n = s.unicode_len();
    let mut i: usize = from;
    while i < n
        invariant
            from <= i <= n == s@.len(),
            find_from(s@, from as int, c) == find_from(s@, i as int, c),
        decreases n - i,
    {
        if s.get_char(i) == c {
            return i;
        }
        i = i + 1;
    }
    n
}

/// Parses move text of the shape `"x,y"` into its two coordinates, as the
/// move operation reads it; returns `None` on malformed text.
pub fn parse_move(s: &str) -> (r: Option<(u8, u8)>)
    ensures
        r == parse_move_spec(s@),
{
    let n = s.unicode_len();
    let i1 = find_char(s, 0, ',');
    if i1 == n {
        return Option::None;
    }
    let i2 = find_char(s, i1 + 1, ',');
    let x = match scan_u8(s, 0, i1) {
        Option::Some(x) => x,
        Option::None => {
            return Option::None;
        },
    };
    let y = match scan_u8(s, i1 + 1, i2) {
        Option::Some(y) => y,
        Option::None => {
            return Option::None;
        },
    };
    Option::Some((x, y))
}

/// The decimal digit sequence of a non-negative number, most significant
/// digit first.
pub open spec fn dec_rep(n: int) -> Seq<char>
    recommends
        n >= 0,
    decreases n,
{
    if n < 10 {
        seq![digit_char(n)]
    } else {
        dec_rep(n / 10) + seq![digit_char(n % 10)]
    }
}

/// The character of a single decimal digit.
pub open spec fn digit_char(d: int) -> char
    recommends
        0 <= d <= 9,
{
    if d == 0 {
        '0'
    } else if d == 1 {
        '1'
    } else if d == 2 {
        '2'
    } else if d == 3 {
        '3'
    } else if d == 4 {
        '4'
    } else if d == 5 {
        '5'
    } else if d == 6 {
        '6'
    } else if d == 7 {
        '7'
    } else if d == 8 {
        '8'
    } else {
        '9'
    }
}

fn digit_str(d: u64) -> (r: &'static str)
    requires
        d <= 9,
    ensures
        r@ =~= seq![digit_char(d as int)],
{
    proof {
        reveal_strlit("0");
        reveal_strlit("1");
        reveal_strlit("2");
        reveal_strlit("3");
        reveal_strlit("4");
        reveal_strlit("5");
        reveal_strlit("6");
        reveal_strlit("7");
        reveal_strlit("8");
        reveal_strlit("9");
    }
    if d == 0 {
        "0"
    } else if d == 1 {
        "1"
    } else if d == 2 {
        "2"
    } else if d == 3 {
        "3"
    } else if d == 4 {
        "4"
    } else if d == 5 {
        "5"
    } else if d == 6 {
        "6"
    } else if d == 7 {
        "7"
    } else if d == 8 {
        "8"
    } else {
        "9"
    }
}

/// The decimal rendering of a number consists of at least one character,
/// all of them digits.
pub proof fn lemma_dec_rep_digits(n: int)
    requires
        n >= 0,
    ensures
        dec_rep(n).len() >= 1,
        all_digits(dec_rep(n)),
    decreases n,
{
    if n < 10 {
        assert(is_digit(digit_char(n)));
    } else {
        lemma_dec_rep_digits(n / 10);
        let a = dec_rep(n / 10);
        assert(is_digit(digit_char(n % 10)));
        assert forall|i: int| 0 <= i < dec_rep(n).len() implies is_digit(
            #[trigger] dec_rep(n)[i],
        ) by {
            if i < a.len() {
                assert(dec_rep(n)[i] == a[i]);
            } else {
                assert(dec_rep(n)[i] == digit_char(n % 10));
            }
        }
    }
}

/// Law (round trip): rendering a number as decimal digits and reading those
/// digits back in base 10 yields the number again.
pub proof fn lemma_dec_rep_round_trip(n: int)
    requires
        n >= 0,
    ensures
        dec_val(dec_rep(n)) == n,
    decreases n,
{
    if n < 10 {
        let s = dec_rep(n);
        assert(s.len() == 1);
        assert(s.drop_last() =~= Seq::<char>::empty());
        assert(dec_val(Seq::<char>::empty()) == 0);
        assert(s.last() == digit_char(n));
        assert(digit_val(digit_char(n)) == n);
    } else {
        lemma_dec_rep_round_trip(n / 10);
        let a = dec_rep(n / 10);
        let s = dec_rep(n);
        assert(s.drop_last() =~= a);
        assert(s.last() == digit_char(n % 10));
        assert(digit_val(digit_char(n % 10)) == n % 10);
    }
}

/// Renders `n` as its decimal digits, as used in freshly assigned game ids.
pub fn u64_to_string(n: u64) -> (s: String)
    ensures
        s@ == dec_rep(n as int),
    decreases n,
{
    if n < 10 {
        digit_str(n).to_owned()
    } else {
        let mut s = u64_to_string(n / 10);
        s.append(digit_str(n % 10));
        s
    }
}

} // verus!
