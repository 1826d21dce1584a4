//! Small verified text utilities shared by the parsers: character
//! classes, scanning for a character, comparing ranges against
//! patterns, decimal digit strings, and padding.

use vstd::prelude::*;

verus! {

// ---------------------------------------------------------------------
// Character classes of the Manager list grammar.
// ---------------------------------------------------------------------

pub open spec fn is_digit_char(c: char) -> bool {
    '0' <= c && c <= '9'
}

pub open spec fn is_alnum_char(c: char) -> bool {
    is_digit_char(c) || ('a' <= c && c <= 'z') || ('A' <= c && c <= 'Z')
}

/// Characters allowed in a context path (after the leading slash) and
/// in a context directory name.
pub open spec fn is_name_char(c: char) -> bool {
    is_alnum_char(c) || c == '-' || c == '_' || c == '%'
}

#[derive(Debug, Clone, Copy, PartialEq, Eq, Structural)]
pub enum CharClass {
    Digit,
    Alnum,
    Name,
}

pub open spec fn in_class(k: CharClass, c: char) -> bool {
    match k {
        CharClass::Digit => is_digit_char(c),
        CharClass::Alnum => is_alnum_char(c),
        CharClass::Name => is_name_char(c),
    }
}

pub fn check_class(k: CharClass, c: char) -> (r: bool)
    ensures
        r == in_class(k, c),
{
    let digit = '0' <= c && c <= '9';
    let alnum = digit || ('a' <= c && c <= 'z') || ('A' <= c && c <= 'Z');
    match k {
        CharClass::Digit => digit,
        CharClass::Alnum => alnum,
        CharClass::Name => alnum || c == '-' || c == '_' || c == '%',
    }
}

/// True when every character of `s` in `[from, to)` lies in class `k`.
pub fn range_all(s: &str, from: usize, to: usize, k: CharClass) -> (r: bool)
    requires
        from <= to,
        to <= s@.len(),
    ensures
        r == (forall|j: int| from <= j < to ==> in_class(k, s@[j])),
{
    let mut i: usize = from;
    while i < to
        invariant
            from <= i <= to,
            to <= s@.len(),
            forall|j: int| from <= j < i ==> in_class(k, s@[j]),
        decreases to - i,
    {
        if !check_class(k, s.get_char(i)) {
            return false;
        }
        i += 1;
    }
    true
}

// ---------------------------------------------------------------------
// Finding the first occurrence of a character.
// ---------------------------------------------------------------------

/// Index of the first occurrence of `ch` in `s`, if any.
pub open spec fn find_char(s: Seq<char>, ch: char) -> Option<int>
    decreases s.len(),
{
    if s.len() == 0 {
        None
    } else if s[0] == ch {
        Some(0int)
    } else {
        match find_char(s.drop_first(), ch) {
            None => None,
            Some(i) => Some(i + 1),
        }
    }
}

/// First occurrence of `ch` in `s` at or after position `from`, as an
/// absolute index.
pub open spec fn find_from(s: Seq<char>, ch: char, from: int) -> Option<int> {
    match find_char(s.skip(from), ch) {
        None => None,
        Some(i) => Some(from + i),
    }
}

/// What `find_char` returns is the first occurrence: the character is
/// there, and nothing before it matches.
pub proof fn lemma_find_char(s: Seq<char>, ch: char)
    ensures
        match find_char(s, ch) {
            Some(i) => 0 <= i < s.len() && s[i] == ch && (forall|j: int| 0 <= j < i ==> s[j] != ch),
            None => forall|j: int| 0 <= j < s.len() ==> s[j] != ch,
        },
    decreases s.len(),
{
    if s.len() == 0 {
    } else if s[0] == ch {
    } else {
        lemma_find_char(s.drop_first(), ch);
        match find_char(s.drop_first(), ch) {
            None => {
                assert forall|j: int| 0 <= j < s.len() implies s[j] != ch by {
                    if j > 0 {
                        assert(s.drop_first()[j - 1] == s[j]);
                    }
                }
            },
            Some(i) => {
                assert(s.drop_first()[i] == s[i + 1]);
                assert forall|j: int| 0 <= j < i + 1 implies s[j] != ch by {
                    if j > 0 {
                        assert(s.drop_first()[j - 1] == s[j]);
                    }
                }
            },
        }
    }
}

/// Conversely, a position that matches with nothing matching before it
/// is what `find_char` returns.
pub proof fn lemma_find_char_at(s: Seq<char>, ch: char, i: int)
    requires
        0 <= i < s.len(),
        s[i] == ch,
        forall|j: int| 0 <= j < i ==> s[j] != ch,
    ensures
        find_char(s, ch) == Some(i),
    decreases s.len(),
{
    if i == 0 {
    } else {
        assert forall|j: int| 0 <= j < i - 1 implies s.drop_first()[j] != ch by {
            assert(s.drop_first()[j] == s[j + 1]);
        }
        assert(s.drop_first()[i - 1] == s[i]);
        lemma_find_char_at(s.drop_first(), ch, i - 1);
    }
}

/// `lemma_find_char`, shifted to absolute indices.
pub proof fn lemma_find_from(s: Seq<char>, ch: char, from: int)
    requires
        0 <= from <= s.len(),
    ensures
        match find_from(s, ch, from) {
            Some(i) => from <= i < s.len() && s[i] == ch && (forall|j: int|
                from <= j < i ==> s[j] != ch),
            None => forall|j: int| from <= j < s.len() ==> s[j] != ch,
        },
{
    lemma_find_char(s.skip(from), ch);
    match find_char(s.skip(from), ch) {
        None => {
            assert forall|j: int| from <= j < s.len() implies s[j] != ch by {
                assert(s.skip(from)[j - from] == s[j]);
            }
        },
        Some(i) => {
            assert(s.skip(from)[i] == s[from + i]);
            assert forall|j: int| from <= j < from + i implies s[j] != ch by {
                assert(s.skip(from)[j - from] == s[j]);
            }
        },
    }
}

/// `lemma_find_char_at`, shifted to absolute indices.
pub proof fn lemma_find_from_at(s: Seq<char>, ch: char, from: int, i: int)
    requires
        0 <= from <= i < s.len(),
        s[i] == ch,
        forall|j: int| from <= j < i ==> s[j] != ch,
    ensures
        find_from(s, ch, from) == Some(i),
{
    assert(s.skip(from)[i - from] == s[i]);
    assert forall|j: int| 0 <= j < i - from implies s.skip(from)[j] != ch by {
        assert(s.skip(from)[j] == s[j + from]);
    }
    lemma_find_char_at(s.skip(from), ch, i - from);
}

/// Scan `s` from position `from` for the first occurrence of `ch`.
pub fn find_char_from(s: &str, ch: char, from: usize) -> (r: Option<usize>)
    requires
        from <= s@.len(),
    ensures
        match r {
            Some(i) => from <= i && (i as int) < s@.len() && find_from(s@, ch, from as int)
                == Some(i as int),
            None => find_from(s@, ch, from as int) is None,
        },
{
    let n = s.unicode_len();
    let mut i: usize = from;
    while i < n
        invariant
            from <= i <= n,
            n == s@.len(),
            from <= s@.len(),
            forall|j: int| from <= j < i ==> s@[j] != ch,
        decreases n - i,
    {
        if s.get_char(i) == ch {
            proof {
                lemma_find_from_at(s@, ch, from as int, i as int);
            }
            return Some(i);
        }
        i += 1;
    }
    proof {
        lemma_find_from(s@, ch, from as int);
    }
    None
}

// ---------------------------------------------------------------------
// Comparing a range of a string against a pattern.
// ---------------------------------------------------------------------

pub open spec fn starts_with(s: Seq<char>, p: Seq<char>) -> bool {
    p.len() <= s.len() && s.subrange(0, p.len() as int) == p
}

/// True when `s[from..to]` equals `pat`, character for character.
pub fn range_matches(s: &str, from: usize, to: usize, pat: &str) -> (r: bool)
    requires
        from <= to,
        to <= s@.len(),
    ensures
        r == (s@.subrange(from as int, to as int) == pat@),
{
    let plen = pat.unicode_len();
    if to - from != plen {
        return false;
    }
    let mut j: usize = 0;
    while j < plen
        invariant
            0 <= j <= plen,
            plen == pat@.len(),
            plen == to - from,
            from <= to,
            to <= s@.len(),
            forall|t: int| 0 <= t < j ==> s@[from + t] == pat@[t],
        decreases plen - j,
    {
        if s.get_char(from + j) != pat.get_char(j) {
            proof {
                assert(s@.subrange(from as int, to as int)[j as int] == s@[from + j]);
            }
            return false;
        }
        j += 1;
    }
    proof {
        assert(s@.subrange(from as int, to as int) =~= pat@);
    }
    true
}

/// Character-for-character equality of two strings.
pub fn str_eq(a: &str, b: &str) -> (r: bool)
    ensures
        r == (a@ == b@),
{
    let n = a.unicode_len();
    if n != b.unicode_len() {
        return false;
    }
    let r = range_matches(a, 0, n, b);
    proof {
        assert(a@.subrange(0, n as int) =~= a@);
    }
    r
}

/// True when `s` begins with `p`.
pub fn str_starts_with(s: &str, p: &str) -> (r: bool)
    ensures
        r == starts_with(s@, p@),
{
    let pl = p.unicode_len();
    if pl > s.unicode_len() {
        return false;
    }
    range_matches(s, 0, pl, p)
}

/// The CRLF line terminator of the Manager's text protocol.
pub open spec fn crlf() -> Seq<char> {
    seq!['\r', '\n']
}

// ---------------------------------------------------------------------
// Decimal digit strings.
// ---------------------------------------------------------------------

/// A non-empty run of decimal digits.
pub open spec fn valid_digits(s: Seq<char>) -> bool {
    s.len() >= 1 && forall|j: int| 0 <= j < s.len() ==> is_digit_char(s[j])
}

/// Numeric value of a digit string, most significant digit first.
pub open spec fn digits_val(s: Seq<char>) -> int
    decreases s.len(),
{
    if s.len() == 0 {
        0
    } else {
        digits_val(s.drop_last()) * 10 + (s.last() as int - '0' as int)
    }
}

pub proof fn lemma_digits_val_nonneg(s: Seq<char>)
    requires
        forall|j: int| 0 <= j < s.len() ==> is_digit_char(s[j]),
    ensures
        digits_val(s) >= 0,
    decreases s.len(),
{
    if s.len() > 0 {
        lemma_digits_val_nonneg(s.drop_last());
    }
}

/// A digit string is worth at least any of its prefixes.
pub proof fn lemma_digits_val_prefix_le(s: Seq<char>, i: int, j: int)
    requires
        0 <= i <= j <= s.len(),
        forall|t: int| 0 <= t < s.len() ==> is_digit_char(s[t]),
    ensures
        digits_val(s.subrange(0, i)) <= digits_val(s.subrange(0, j)),
    decreases j - i,
{
    if i == j {
        assert(s.subrange(0, i) =~= s.subrange(0, j));
    } else {
        lemma_digits_val_prefix_le(s, i, j - 1);
        let p = s.subrange(0, j);
        assert(p.drop_last() =~= s.subrange(0, j - 1));
        lemma_digits_val_nonneg(s.subrange(0, j - 1));
    }
}

/// Parse `s[from..to]` as a decimal number, reporting nothing when the
/// range is empty, holds a non-digit, or overflows 32 bits.
pub fn parse_u32_range(s: &str, from: usize, to: usize) -> (r: Option<u32>)
    requires
        from <= to,
        to <= s@.len(),
    ensures
        ({
            let sub = s@.subrange(from as int, to as int);
            match r {
                Some(v) => valid_digits(sub) && digits_val(sub) == v as int,
                None => !(valid_digits(sub) && digits_val(sub) <= u32::MAX),
            }
        }),
{
    let ghost sub = s@.subrange(from as int, to as int);
    if from == to {
        return None;
    }
    let mut acc: u32 = 0;
    let mut i: usize = from;
    while i < to
        invariant
            from <= i <= to,
            to <= s@.len(),
            sub == s@.subrange(from as int, to as int),
            forall|j: int| from <= j < i ==> is_digit_char(s@[j]),
            acc as int == digits_val(s@.subrange(from as int, i as int)),
        decreases to - i,
    {
        let c = s.get_char(i);
        if !('0' <= c && c <= '9') {
            proof {
                assert(sub[i - from] == s@[i as int]);
            }
            return None;
        }
        let d: u32 = (c as u32) - ('0' as u32);
        proof {
            assert(s@.subrange(from as int, i as int + 1).drop_last() =~= s@.subrange(
                from as int,
                i as int,
            ));
            assert(s@.subrange(from as int, i as int + 1).last() == s@[i as int]);
        }
        if acc > (u32::MAX - d) / 10 {
            proof {
                assert(10 * (acc as int) + d > u32::MAX);
                if valid_digits(sub) {
                    lemma_digits_val_prefix_le(sub, i + 1 - from, to - from);
                    assert(sub.subrange(0, i + 1 - from) =~= s@.subrange(from as int, i + 1 as int));
                    assert(sub.subrange(0, to - from) =~= sub);
                }
            }
            return None;
        }
        acc = acc * 10 + d;
        i += 1;
    }
    proof {
        assert(sub =~= s@.subrange(from as int, to as int));
        assert forall|j: int| 0 <= j < sub.len() implies is_digit_char(sub[j]) by {
            assert(sub[j] == s@[from + j]);
        }
    }
    Some(acc)
}

/// The decimal digit characters `0` through `9`.
pub open spec fn spec_digit_char(d: int) -> char {
    if d == 0 {
        '0'
    } else if d == 1 {
        '1'
    } else if d == 2 {
        '2'
    } else if d == 3 {
        '3'
    } else if d == 4 {
        '4'
    } else if d == 5 {
        '5'
    } else if d == 6 {
        '6'
    } else if d == 7 {
        '7'
    } else if d == 8 {
        '8'
    } else {
        '9'
    }
}

/// Decimal representation of `n`, without leading zeros (a lone zero
/// for zero itself).
pub open spec fn dec_digits(n: int) -> Seq<char>
    decreases n,
{
    if n < 10 {
        seq![spec_digit_char(n)]
    } else {
        dec_digits(n / 10).push(spec_digit_char(n % 10))
    }
}

fn digit_str(d: u32) -> (r: &'static str)
    requires
        d < 10,
    ensures
        r@ == seq![spec_digit_char(d as int)],
{
    if d == 0 {
        proof {
            reveal_strlit("0");
            assert("0"@ =~= seq!['0']);
        }
        "0"
    } else if d == 1 {
        proof {
            reveal_strlit("1");
            assert("1"@ =~= seq!['1']);
        }
        "1"
    } else if d == 2 {
        proof {
            reveal_strlit("2");
            assert("2"@ =~= seq!['2']);
        }
        "2"
    } else if d == 3 {
        proof {
            reveal_strlit("3");
            assert("3"@ =~= seq!['3']);
        }
        "3"
    } else if d == 4 {
        proof {
            reveal_strlit("4");
            assert("4"@ =~= seq!['4']);
        }
        "4"
    } else if d == 5 {
        proof {
            reveal_strlit("5");
            assert("5"@ =~= seq!['5']);
        }
        "5"
    } else if d == 6 {
        proof {
            reveal_strlit("6");
            assert("6"@ =~= seq!['6']);
        }
        "6"
    } else if d == 7 {
        proof {
            reveal_strlit("7");
            assert("7"@ =~= seq!['7']);
        }
        "7"
    } else if d == 8 {
        proof {
            reveal_strlit("8");
            assert("8"@ =~= seq!['8']);
        }
        "8"
    } else {
        proof {
            reveal_strlit("9");
            assert("9"@ =~= seq!['9']);
        }
        "9"
    }
}

/// Decimal representation of `n` as a string.
pub fn dec_string(n: u32) -> (r: String)
    ensures
        r@ == dec_digits(n as int),
    decreases n,
{
    if n < 10 {
        String::from_str(digit_str(n))
    } else {
        let mut s = dec_string(n / 10);
        s.append(digit_str(n % 10));
        proof {
            assert(s@ =~= dec_digits(n as int));
        }
        s
    }
}

// ---------------------------------------------------------------------
// Padding.
// ---------------------------------------------------------------------

pub open spec fn repeat_char(c: char, n: int) -> Seq<char> {
    Seq::new(n as nat, |i: int| c)
}

/// `s` followed by enough `fill` characters to reach width `w`.
pub open spec fn spec_pad_right(s: Seq<char>, w: int, fill: char) -> Seq<char> {
    if s.len() >= w {
        s
    } else {
        s + repeat_char(fill, w - s.len())
    }
}

/// Enough `fill` characters to reach width `w`, followed by `s`.
pub open spec fn spec_pad_left(s: Seq<char>, w: int, fill: char) -> Seq<char> {
    if s.len() >= w {
        s
    } else {
        repeat_char(fill, w - s.len()) + s
    }
}

/// Left-align `s` in a field of `w` spaces.
pub fn pad_right_spaces(s: &str, w: usize) -> (r: String)
    ensures
        r@ == spec_pad_right(s@, w as int, ' '),
{
    proof {
        reveal_strlit(" ");
        assert(" "@ =~= seq![' ']);
    }
    let mut r = String::from_str(s);
    let mut n = s.unicode_len();
    while n < w
        invariant
            n == r@.len(),
            r@ =~= s@ + repeat_char(' ', n - s@.len()),
            s@.len() <= n,
            s@.len() < w ==> n <= w,
            s@.len() >= w ==> n == s@.len(),
            " "@ == seq![' '],
        decreases w - n,
    {
        r.append(" ");
        n += 1;
        proof {
            assert(r@ =~= s@ + repeat_char(' ', n - s@.len()));
        }
    }
    proof {
        if s@.len() >= w {
            assert(r@ =~= s@);
        }
    }
    r
}

/// Right-align `s` in a field of `w` copies of `fill`, where `fill` is
/// given as a one-character string.
fn pad_left_fill(s: &str, w: usize, fill: &str, Ghost(fc): Ghost<char>) -> (r: String)
    requires
        fill@ == seq![fc],
    ensures
        r@ == spec_pad_left(s@, w as int, fc),
{
    let slen = s.unicode_len();
    let mut r = String::new();
    let mut k: usize = 0;
    let pad: usize = if slen < w {
        w - slen
    } else {
        0
    };
    while k < pad
        invariant
            fill@ == seq![fc],
            k <= pad,
            r@ =~= repeat_char(fc, k as int),
        decreases pad - k,
    {
        r.append(fill);
        k += 1;
        proof {
            assert(r@ =~= repeat_char(fc, k as int));
        }
    }
    r.append(s);
    proof {
        if s@.len() >= w {
            assert(r@ =~= s@);
        } else {
            assert(r@ =~= repeat_char(fc, w - s@.len()) + s@);
        }
    }
    r
}

/// Right-align `s` in a field of `w` spaces.
pub fn pad_left_spaces(s: &str, w: usize) -> (r: String)
    ensures
        r@ == spec_pad_left(s@, w as int, ' '),
{
    proof {
        reveal_strlit(" ");
        assert(" "@ =~= seq![' ']);
    }
    pad_left_fill(s, w, " ", Ghost(' '))
}

/// Zero-pad `s` on the left to width `w`.
pub fn pad_left_zeros(s: &str, w: usize) -> (r: String)
    ensures
        r@ == spec_pad_left(s@, w as int, '0'),
{
    proof {
        reveal_strlit("0");
        assert("0"@ =~= seq!['0']);
    }
    pad_left_fill(s, w, "0", Ghost('0'))
}

} // verus!
