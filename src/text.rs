//! Splitting, trimming and hex numbers on text.
use vstd::prelude::*;

verus! {

/// The pieces of `s` between occurrences of `sep`, empty pieces included, as
/// `str::split` with a one-character pattern gives them.
pub open spec fn split_char(s: Seq<char>, sep: char) -> Seq<Seq<char>>
    decreases s.len(),
{
    if s.len() == 0 {
        seq![Seq::empty()]
    } else {
        let init = split_char(s.drop_last(), sep);
        if s.last() == sep {
            init.push(Seq::empty())
        } else {
            init.update(init.len() - 1, init.last().push(s.last()))
        }
    }
}

/// Splitting always gives at least one piece.
pub proof fn lemma_split_nonempty(s: Seq<char>, sep: char)
    ensures
        split_char(s, sep).len() >= 1,
    decreases s.len(),
{
    if s.len() > 0 {
        lemma_split_nonempty(s.drop_last(), sep);
    }
}

/// Splits `s` at every `sep`.
pub fn split_str<'a>(s: &'a str, sep: char) -> (r: Vec<&'a str>)
    ensures
        r@.map_values(|p: &str| p@) == split_char(s@, sep),
{
    let n = s.unicode_len();
    let mut r: Vec<&'a str> = Vec::new();
    let mut start: usize = 0;
    let mut i: usize = 0;
    assert(split_char(s@.subrange(0, 0), sep) =~~= seq![s@.subrange(0, 0)]);
    while i < n
        invariant
            n == s@.len(),
            start <= i <= n,
            split_char(s@.subrange(0, i as int), sep) == r@.map_values(|p: &str| p@).push(
                s@.subrange(start as int, i as int),
            ),
        decreases n - i,
    {
        let c = s.get_char(i);
        let ghost before = s@.subrange(0, i as int);
        assert(s@.subrange(0, i + 1).drop_last() =~= before);
        proof {
            lemma_split_nonempty(before, sep);
        }
        if c == sep {
            let ghost rm = r@.map_values(|p: &str| p@);
            let piece = s.substring_char(start, i);
            r.push(piece);
            assert(r@.map_values(|p: &str| p@) =~~= rm.push(piece@));
            start = i + 1;
            assert(s@.subrange(start as int, i + 1) =~= Seq::<char>::empty());
        } else {
            assert(s@.subrange(start as int, i + 1) =~= s@.subrange(start as int, i as int).push(c));
        }
        i = i + 1;
        assert(split_char(s@.subrange(0, i as int), sep) =~~= r@.map_values(|p: &str| p@).push(
            s@.subrange(start as int, i as int),
        ));
    }
    let ghost rm = r@.map_values(|p: &str| p@);
    let piece = s.substring_char(start, n);
    r.push(piece);
    assert(s@.subrange(0, n as int) =~= s@);
    assert(r@.map_values(|p: &str| p@) =~~= rm.push(piece@));
    r
}

/// Whether a character has the Unicode White_Space property, which is what
/// `char::is_whitespace` tests.
pub open spec fn is_white_space(c: char) -> bool {
    ('\u{9}' <= c && c <= '\u{d}') || c == ' ' || c == '\u{85}' || c == '\u{a0}' || c
        == '\u{1680}' || ('\u{2000}' <= c && c <= '\u{200a}') || c == '\u{2028}' || c
        == '\u{2029}' || c == '\u{202f}' || c == '\u{205f}' || c == '\u{3000}'
}

/// `s` without its leading whitespace.
pub open spec fn trim_start(s: Seq<char>) -> Seq<char>
    decreases s.len(),
{
    if s.len() > 0 && is_white_space(s[0]) {
        trim_start(s.drop_first())
    } else {
        s
    }
}

/// `s` without its trailing whitespace.
pub open spec fn trim_end(s: Seq<char>) -> Seq<char>
    decreases s.len(),
{
    if s.len() > 0 && is_white_space(s.last()) {
        trim_end(s.drop_last())
    } else {
        s
    }
}

/// `s` without leading and trailing whitespace.
pub open spec fn trimmed(s: Seq<char>) -> Seq<char> {
    trim_end(trim_start(s))
}

/// Relies on `str::trim`: `s` without leading and trailing characters that
/// have the White_Space property.
#[verifier::external_body]
pub(crate) fn trim(s: &str) -> (r: &str)
    ensures
        r@ == trimmed(s@),
{
    s.trim()
}

/// The value of a hex digit character, if it is one (either case).
pub open spec fn hex_digit_value(c: char) -> Option<nat> {
    if '0' <= c && c <= '9' {
        Some((c as nat - '0' as nat) as nat)
    } else if 'a' <= c && c <= 'f' {
        Some((c as nat - 'a' as nat + 10) as nat)
    } else if 'A' <= c && c <= 'F' {
        Some((c as nat - 'A' as nat + 10) as nat)
    } else {
        None
    }
}

/// Whether every character is a hex digit.
pub open spec fn all_hex(d: Seq<char>) -> bool {
    forall|i: int| 0 <= i < d.len() ==> (#[trigger] hex_digit_value(d[i])).is_some()
}

/// The number written by hex digits, most significant first.
pub open spec fn hex_nat(d: Seq<char>) -> nat
    decreases d.len(),
{
    if d.len() == 0 {
        0
    } else {
        hex_nat(d.drop_last()) * 16 + hex_digit_value(d.last()).unwrap_or(0)
    }
}

/// The digits of a number: without a leading `+` where one stands before them.
pub open spec fn hex_body(s: Seq<char>) -> Seq<char> {
    if s.len() > 1 && s[0] == '+' {
        s.drop_first()
    } else {
        s
    }
}

/// The 32-bit value of hex text as `u32::from_str_radix(s, 16)` reads it:
/// an optional `+`, then one or more hex digits of either case, with a value
/// that fits.
pub open spec fn hex_value(s: Seq<char>) -> Option<u32> {
    let d = hex_body(s);
    if d.len() >= 1 && all_hex(d) && hex_nat(d) <= u32::MAX {
        Some(hex_nat(d) as u32)
    } else {
        None
    }
}

fn digit_value(c: char) -> (r: Option<u32>)
    ensures
        r.is_some() == hex_digit_value(c).is_some(),
        r.is_some() ==> r.unwrap() == hex_digit_value(c).unwrap(),
{
    if '0' <= c && c <= '9' {
        Some(c as u32 - '0' as u32)
    } else if 'a' <= c && c <= 'f' {
        Some(c as u32 - 'a' as u32 + 10)
    } else if 'A' <= c && c <= 'F' {
        Some(c as u32 - 'A' as u32 + 10)
    } else {
        None
    }
}

/// Reads hex text as a 32-bit value.
pub fn parse_hex_u32(s: &Vec<char>) -> (r: Option<u32>)
    ensures
        r == hex_value(s@),
{
    let mut i: usize = 0;
    if s.len() > 1 && s[0] == '+' {
        i = 1;
    }
    let ghost d = hex_body(s@);
    assert(d =~= s@.subrange(i as int, s@.len() as int));
    if i >= s.len() {
        assert(hex_value(s@).is_none());
        return None;
    }
    let mut acc: u64 = 0;
    let mut over = false;
    let mut k: usize = i;
    while k < s.len()
        invariant
            d == hex_body(s@),
            d == s@.subrange(i as int, s@.len() as int),
            i < s@.len(),
            i <= k <= s@.len(),
            all_hex(s@.subrange(i as int, k as int)),
            !over ==> acc == hex_nat(s@.subrange(i as int, k as int)) && acc <= u32::MAX,
            over ==> hex_nat(s@.subrange(i as int, k as int)) > u32::MAX,
        decreases s@.len() - k,
    {
        let ghost prefix = s@.subrange(i as int, k as int);
        let ghost next = s@.subrange(i as int, k + 1);
        assert(next.drop_last() =~= prefix);
        let c = s[k];
        let dv = digit_value(c);
        match dv {
            None => {
                assert(hex_digit_value(c).is_none());
                assert(d[k - i] == s@[k as int]);
                assert(hex_digit_value(d[k - i]).is_none());
                assert(!all_hex(d));
                return None;
            },
            Some(v) => {
                assert(hex_nat(next) == hex_nat(prefix) * 16 + v);
                if !over {
                    acc = acc * 16 + v as u64;
                    if acc > 0xffff_ffff {
                        over = true;
                    }
                }
                assert forall|m: int| 0 <= m < next.len() implies (#[trigger] hex_digit_value(
                    next[m],
                )).is_some() by {
                    if m < prefix.len() {
                        assert(next[m] == prefix[m]);
                    }
                }
            },
        }
        k = k + 1;
    }
    assert(s@.subrange(i as int, k as int) =~= d);
    assert(d.len() >= 1);
    assert(all_hex(d));
    if over {
        assert(hex_value(s@).is_none());
        None
    } else {
        assert(hex_value(s@) == Some(acc as u32));
        Some(acc as u32)
    }
}

} // verus!
