//! Character-sequence primitives shared by the classifier, the aggregator and
//! the reporter: case folding, substring search, prefix tests, trimming,
//! lexicographic ordering and decimal rendering.

use vstd::prelude::*;

verus! {

/// ASCII lowercase of a single character; non-letters are unchanged.
pub open spec fn lower_char(c: char) -> char {
    if 'A' <= c && c <= 'Z' {
        ((c as u8) + 0x20) as char
    } else {
        c
    }
}

/// ASCII-lowercased copy of a character sequence.
pub open spec fn lower_seq(s: Seq<char>) -> Seq<char> {
    s.map_values(|c: char| lower_char(c))
}

/// ASCII lowercase of one character, executable form.
pub fn lower_char_exec(c: char) -> (r: char)
    ensures
        r == lower_char(c),
{
    if 'A' <= c && c <= 'Z' {
        (((c as u8) + 0x20) as char)
    } else {
        c
    }
}

/// `needle` occurs in `hay` starting at position `i`.
pub open spec fn matches_at(hay: Seq<char>, needle: Seq<char>, i: int) -> bool {
    0 <= i && i + needle.len() <= hay.len() && hay.subrange(i, i + needle.len()) == needle
}

/// `needle` occurs somewhere in `hay`.
pub open spec fn contains_seq(hay: Seq<char>, needle: Seq<char>) -> bool {
    exists|i: int| matches_at(hay, needle, i)
}

/// `p` is a prefix of `s`.
pub open spec fn starts_with_seq(s: Seq<char>, p: Seq<char>) -> bool {
    matches_at(s, p, 0)
}

/// Normalization applied to the haystack before matching: the identity, or
/// ASCII lowercasing for case-insensitive search.
pub open spec fn norm_seq(s: Seq<char>, ci: bool) -> Seq<char> {
    if ci {
        lower_seq(s)
    } else {
        s
    }
}

/// Whether `needle` matches the (possibly case-folded) haystack at position `i`.
fn matches_at_exec(hay: &str, needle: &str, i: usize, ci: bool) -> (b: bool)
    requires
        i + needle@.len() <= hay@.len(),
    ensures
        b == matches_at(norm_seq(hay@, ci), needle@, i as int),
{
    let n: usize = needle.unicode_len();
    let h: usize = hay.unicode_len();
    let ghost nh = norm_seq(hay@, ci);
    let mut j: usize = 0;
    while j < n
        invariant
            0 <= j <= n,
            n == needle@.len(),
            h == hay@.len(),
            i + n <= h,
            nh == norm_seq(hay@, ci),
            nh.len() == hay@.len(),
            forall|k: int| 0 <= k < j ==> nh[i + k] == needle@[k],
        decreases n - j,
    {
        let hc: char = hay.get_char(i + j);
        let hc: char = if ci {
            lower_char_exec(hc)
        } else {
            hc
        };
        let nc: char = needle.get_char(j);
        if hc != nc {
            proof {
                assert(nh[i + j as int] != needle@[j as int]);
                assert(nh.subrange(i as int, i + n) != needle@) by {
                    assert(nh.subrange(i as int, i + n)[j as int] == nh[i + j]);
                }
            }
            return false;
        }
        j += 1;
    }
    proof {
        assert(nh.subrange(i as int, i + n) =~= needle@);
    }
    true
}

/// Position of the first occurrence of `needle` in the (possibly case-folded)
/// haystack, if any.
pub fn find_str(hay: &str, needle: &str, ci: bool) -> (r: Option<usize>)
    ensures
        match r {
            Some(i) => matches_at(norm_seq(hay@, ci), needle@, i as int) && forall|k: int|
                0 <= k < i ==> !matches_at(norm_seq(hay@, ci), needle@, k),
            None => !contains_seq(norm_seq(hay@, ci), needle@),
        },
{
    let h: usize = hay.unicode_len();
    let n: usize = needle.unicode_len();
    let ghost nh = norm_seq(hay@, ci);
    assert(nh.len() == h);
    if n > h {
        assert(forall|i: int| !matches_at(nh, needle@, i));
        return None;
    }
    if n == 0 {
        assert(nh.subrange(0, 0) =~= needle@);
        return Some(0);
    }
    let mut i: usize = 0;
    while i <= h - n
        invariant
            0 <= i <= h - n + 1,
            1 <= n <= h,
            h == hay@.len(),
            n == needle@.len(),
            nh == norm_seq(hay@, ci),
            nh.len() == h,
            forall|k: int| 0 <= k < i ==> !matches_at(nh, needle@, k),
        decreases h - n - i + 1,
    {
        if matches_at_exec(hay, needle, i, ci) {
            return Some(i);
        }
        i += 1;
    }
    assert(forall|k: int| !matches_at(nh, needle@, k)) by {
        assert(forall|k: int| k > h - n ==> !matches_at(nh, needle@, k));
    }
    None
}

/// Whether `needle` occurs in `hay` after ASCII-lowercasing `hay`; `needle`
/// is expected to be written in lowercase already.
pub fn contains_ci(hay: &str, needle: &str) -> (b: bool)
    ensures
        b == contains_seq(lower_seq(hay@), needle@),
{
    find_str(hay, needle, true).is_some()
}

/// Whether `needle` occurs in `hay`, case-sensitively.
pub fn contains_str(hay: &str, needle: &str) -> (b: bool)
    ensures
        b == contains_seq(hay@, needle@),
{
    find_str(hay, needle, false).is_some()
}

/// Whether `p` is a prefix of `s`, case-sensitively.
pub fn starts_with_str(s: &str, p: &str) -> (b: bool)
    ensures
        b == starts_with_seq(s@, p@),
{
    let sl: usize = s.unicode_len();
    let pl: usize = p.unicode_len();
    if pl > sl {
        return false;
    }
    matches_at_exec(s, p, 0, false)
}

/// Position of the first occurrence of `needle` in `hay`, as a mathematical
/// recursion; `None` when `needle` does not occur.
pub open spec fn find_spec(hay: Seq<char>, needle: Seq<char>) -> Option<int>
    decreases hay.len(),
{
    if starts_with_seq(hay, needle) {
        Some(0int)
    } else if hay.len() == 0 {
        None
    } else {
        match find_spec(hay.drop_first(), needle) {
            Some(i) => Some(i + 1),
            None => None,
        }
    }
}

pub proof fn lemma_find_spec_some(hay: Seq<char>, needle: Seq<char>, i: int)
    requires
        matches_at(hay, needle, i),
        forall|k: int| 0 <= k < i ==> !matches_at(hay, needle, k),
    ensures
        find_spec(hay, needle) == Some(i),
    decreases hay.len(),
{
    if i == 0 {
        assert(starts_with_seq(hay, needle));
    } else {
        assert(!matches_at(hay, needle, 0));
        assert(hay.len() > 0);
        let t = hay.drop_first();
        assert(matches_at(t, needle, i - 1)) by {
            assert(t.subrange(i - 1, i - 1 + needle.len() as int) =~= hay.subrange(
                i,
                i + needle.len() as int,
            ));
        }
        assert(forall|k: int| 0 <= k < i - 1 ==> !matches_at(t, needle, k)) by {
            assert forall|k: int| 0 <= k < i - 1 implies !matches_at(t, needle, k) by {
                if matches_at(t, needle, k) {
                    assert(matches_at(hay, needle, k + 1)) by {
                        assert(hay.subrange(k + 1, k + 1 + needle.len() as int) =~= t.subrange(
                            k,
                            k + needle.len() as int,
                        ));
                    }
                }
            }
        }
        lemma_find_spec_some(t, needle, i - 1);
    }
}

pub proof fn lemma_find_spec_none(hay: Seq<char>, needle: Seq<char>)
    requires
        !contains_seq(hay, needle),
    ensures
        find_spec(hay, needle) is None,
    decreases hay.len(),
{
    assert(!matches_at(hay, needle, 0));
    if hay.len() > 0 {
        let t = hay.drop_first();
        assert(!contains_seq(t, needle)) by {
            if contains_seq(t, needle) {
                let k = choose|k: int| matches_at(t, needle, k);
                assert(matches_at(hay, needle, k + 1)) by {
                    assert(hay.subrange(k + 1, k + 1 + needle.len() as int) =~= t.subrange(
                        k,
                        k + needle.len() as int,
                    ));
                }
            }
        }
        lemma_find_spec_none(t, needle);
    }
}

/// Position of the first occurrence of `needle` in `hay`, agreeing with
/// `find_spec`.
pub fn find_index(hay: &str, needle: &str) -> (r: Option<usize>)
    ensures
        match r {
            Some(i) => find_spec(hay@, needle@) == Some(i as int),
            None => find_spec(hay@, needle@) is None,
        },
{
    match find_str(hay, needle, false) {
        Some(i) => {
            proof {
                lemma_find_spec_some(hay@, needle@, i as int);
            }
            Some(i)
        },
        None => {
            proof {
                lemma_find_spec_none(hay@, needle@);
            }
            None
        },
    }
}

/// Lowercasing a haystack preserves any occurrence of a needle, lowercased.
pub proof fn lemma_contains_lower(hay: Seq<char>, needle: Seq<char>)
    requires
        contains_seq(hay, needle),
    ensures
        contains_seq(lower_seq(hay), lower_seq(needle)),
{
    let i = choose|i: int| matches_at(hay, needle, i);
    assert(matches_at(lower_seq(hay), lower_seq(needle), i)) by {
        assert(lower_seq(hay).subrange(i, i + needle.len() as int) =~= lower_seq(needle)) by {
            assert forall|k: int| 0 <= k < needle.len() implies lower_seq(hay)[i + k] == lower_seq(
                needle,
            )[k] by {
                assert(hay.subrange(i, i + needle.len() as int)[k] == needle[k]);
            }
        }
    }
}

/// Containment is transitive: what contains a string contains its substrings.
pub proof fn lemma_contains_trans(a: Seq<char>, b: Seq<char>, c: Seq<char>)
    requires
        contains_seq(a, b),
        contains_seq(b, c),
    ensures
        contains_seq(a, c),
{
    let i = choose|i: int| matches_at(a, b, i);
    let j = choose|j: int| matches_at(b, c, j);
    assert(matches_at(a, c, i + j)) by {
        assert(a.subrange(i + j, i + j + c.len() as int) =~= c) by {
            assert forall|k: int| 0 <= k < c.len() implies a[i + j + k] == c[k] by {
                assert(a.subrange(i, i + b.len() as int)[j + k] == b[j + k]);
                assert(b.subrange(j, j + c.len() as int)[k] == c[k]);
            }
        }
    }
}

/// The whitespace characters stripped by trimming.
pub open spec fn is_space(c: char) -> bool {
    c == ' ' || c == '\t' || c == '\r' || c == '\n'
}

fn is_space_exec(c: char) -> (b: bool)
    ensures
        b == is_space(c),
{
    c == ' ' || c == '\t' || c == '\r' || c == '\n'
}

/// `s` with leading whitespace removed.
pub open spec fn trim_start_spec(s: Seq<char>) -> Seq<char>
    decreases s.len(),
{
    if s.len() > 0 && is_space(s[0]) {
        trim_start_spec(s.drop_first())
    } else {
        s
    }
}

/// `s` with trailing whitespace removed.
pub open spec fn trim_end_spec(s: Seq<char>) -> Seq<char>
    decreases s.len(),
{
    if s.len() > 0 && is_space(s.last()) {
        trim_end_spec(s.drop_last())
    } else {
        s
    }
}

/// `s` with leading and trailing whitespace removed.
pub open spec fn trim_spec(s: Seq<char>) -> Seq<char> {
    trim_end_spec(trim_start_spec(s))
}

/// A freshly allocated copy of `s` with surrounding whitespace removed.
pub fn trim_str(s: &str) -> (r: String)
    ensures
        r@ == trim_spec(s@),
{
    let len: usize = s.unicode_len();
    let mut a: usize = 0;
    proof {
        assert(s@.skip(0) =~= s@);
    }
    while a < len && is_space_exec(s.get_char(a))
        invariant
            0 <= a <= len,
            len == s@.len(),
            trim_start_spec(s@) == trim_start_spec(s@.skip(a as int)),
        decreases len - a,
    {
        proof {
            assert(s@.skip(a as int).drop_first() =~= s@.skip(a + 1));
            assert(s@.skip(a as int)[0] == s@[a as int]);
        }
        a += 1;
    }
    proof {
        if a < len {
            assert(s@.skip(a as int)[0] == s@[a as int]);
        }
        assert(trim_start_spec(s@) == s@.skip(a as int));
    }
    let mut b: usize = len;
    proof {
        assert(s@.skip(a as int) =~= s@.subrange(a as int, len as int));
    }
    while b > a && is_space_exec(s.get_char(b - 1))
        invariant
            a <= b <= len,
            len == s@.len(),
            trim_start_spec(s@) == s@.skip(a as int),
            trim_end_spec(s@.subrange(a as int, len as int)) == trim_end_spec(
                s@.subrange(a as int, b as int),
            ),
        decreases b,
    {
        proof {
            assert(s@.subrange(a as int, b as int).drop_last() =~= s@.subrange(a as int, b - 1));
            assert(s@.subrange(a as int, b as int).last() == s@[b - 1]);
        }
        b -= 1;
    }
    proof {
        if b > a {
            assert(s@.subrange(a as int, b as int).last() == s@[b - 1]);
        }
        assert(trim_end_spec(s@.subrange(a as int, b as int)) == s@.subrange(a as int, b as int));
    }
    let piece: &str = s.substring_char(a, b);
    piece.to_owned()
}

/// Lexicographic order on character sequences by Unicode scalar value.
pub open spec fn lex_le(a: Seq<char>, b: Seq<char>) -> bool
    decreases a.len(),
{
    if a.len() == 0 {
        true
    } else if b.len() == 0 {
        false
    } else if (a[0] as u32) < (b[0] as u32) {
        true
    } else if (b[0] as u32) < (a[0] as u32) {
        false
    } else {
        lex_le(a.drop_first(), b.drop_first())
    }
}

/// The lexicographic order is total.
pub proof fn lemma_lex_le_total(a: Seq<char>, b: Seq<char>)
    ensures
        lex_le(a, b) || lex_le(b, a),
    decreases a.len(),
{
    if a.len() > 0 && b.len() > 0 && !((a[0] as u32) < (b[0] as u32)) && !((b[0] as u32) < (
    a[0] as u32)) {
        lemma_lex_le_total(a.drop_first(), b.drop_first());
    }
}

/// The lexicographic order is transitive.
pub proof fn lemma_lex_le_trans(a: Seq<char>, b: Seq<char>, c: Seq<char>)
    requires
        lex_le(a, b),
        lex_le(b, c),
    ensures
        lex_le(a, c),
    decreases a.len(),
{
    if a.len() > 0 && b.len() > 0 && c.len() > 0 {
        if (a[0] as u32) == (b[0] as u32) && (b[0] as u32) == (c[0] as u32) {
            lemma_lex_le_trans(a.drop_first(), b.drop_first(), c.drop_first());
        }
    }
}

proof fn lemma_lex_le_unroll(a: Seq<char>, b: Seq<char>, i: int)
    requires
        0 <= i <= a.len(),
        i <= b.len(),
        forall|k: int| 0 <= k < i ==> (a[k] as u32) == (b[k] as u32),
    ensures
        lex_le(a, b) == lex_le(a.skip(i), b.skip(i)),
    decreases i,
{
    if i == 0 {
        assert(a.skip(0) =~= a);
        assert(b.skip(0) =~= b);
    } else {
        assert(a.len() > 0 && b.len() > 0);
        lemma_lex_le_unroll(a.drop_first(), b.drop_first(), i - 1);
        assert(a.drop_first().skip(i - 1) =~= a.skip(i));
        assert(b.drop_first().skip(i - 1) =~= b.skip(i));
    }
}

/// Lexicographic comparison of two strings, agreeing with `lex_le`.
pub fn str_le(a: &str, b: &str) -> (r: bool)
    ensures
        r == lex_le(a@, b@),
{
    let la: usize = a.unicode_len();
    let lb: usize = b.unicode_len();
    let mut i: usize = 0;
    while i < la && i < lb
        invariant
            0 <= i <= la,
            i <= lb,
            la == a@.len(),
            lb == b@.len(),
            forall|k: int| 0 <= k < i ==> (a@[k] as u32) == (b@[k] as u32),
        decreases la - i,
    {
        let ca: u32 = a.get_char(i) as u32;
        let cb: u32 = b.get_char(i) as u32;
        if ca < cb {
            proof {
                lemma_lex_le_unroll(a@, b@, i as int);
                assert(a@.skip(i as int)[0] == a@[i as int]);
                assert(b@.skip(i as int)[0] == b@[i as int]);
            }
            return true;
        }
        if cb < ca {
            proof {
                lemma_lex_le_unroll(a@, b@, i as int);
                assert(a@.skip(i as int)[0] == a@[i as int]);
                assert(b@.skip(i as int)[0] == b@[i as int]);
            }
            return false;
        }
        i += 1;
    }
    proof {
        lemma_lex_le_unroll(a@, b@, i as int);
    }
    la <= lb
}

/// The character for a single decimal digit.
pub open spec fn digit_char(d: int) -> char {
    ((0x30 + d) as u8) as char
}

/// Decimal rendering of a natural number, most significant digit first.
pub open spec fn dec_spec(n: nat) -> Seq<char>
    decreases n,
{
    if n < 10 {
        seq![digit_char(n as int)]
    } else {
        dec_spec(n / 10).push(digit_char((n % 10) as int))
    }
}

fn digit_str(d: usize) -> (s: &'static str)
    requires
        d < 10,
    ensures
        s@ =~= seq![digit_char(d as int)],
{
    if d == 0 {
        proof {
            reveal_strlit("0");
        }
        "0"
    } else if d == 1 {
        proof {
            reveal_strlit("1");
        }
        "1"
    } else if d == 2 {
        proof {
            reveal_strlit("2");
        }
        "2"
    } else if d == 3 {
        proof {
            reveal_strlit("3");
        }
        "3"
    } else if d == 4 {
        proof {
            reveal_strlit("4");
        }
        "4"
    } else if d == 5 {
        proof {
            reveal_strlit("5");
        }
        "5"
    } else if d == 6 {
        proof {
            reveal_strlit("6");
        }
        "6"
    } else if d == 7 {
        proof {
            reveal_strlit("7");
        }
        "7"
    } else if d == 8 {
        proof {
            reveal_strlit("8");
        }
        "8"
    } else {
        proof {
            reveal_strlit("9");
        }
        "9"
    }
}

/// Appends the decimal rendering of `n` to `out`.
pub fn push_dec(out: &mut String, n: usize)
    ensures
        final(out)@ == old(out)@ + dec_spec(n as nat),
    decreases n,
{
    if n < 10 {
        out.append(digit_str(n));
        proof {
            assert(final(out)@ =~= old(out)@ + dec_spec(n as nat));
        }
    } else {
        push_dec(out, n / 10);
        out.append(digit_str(n % 10));
        proof {
            assert(final(out)@ =~= old(out)@ + dec_spec(n as nat));
        }
    }
}

/// The decimal rendering of `n` as a fresh string.
pub fn dec_str(n: usize) -> (s: String)
    ensures
        s@ == dec_spec(n as nat),
{
    let mut s = String::new();
    push_dec(&mut s, n);
    proof {
        assert(s@ =~= dec_spec(n as nat));
    }
    s
}

} // verus!
