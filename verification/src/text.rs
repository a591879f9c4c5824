//! Path text handling: lexicographic ordering of track paths, the display
//! name of a track (its file name with the directory part stripped), and the
//! test for a supported audio extension.
use vstd::prelude::*;
use vstd::string::*;

verus! {

/// Lexicographic order on character sequences, comparing Unicode scalar
/// values position by position; a prefix orders before every extension of it.
pub open spec fn lex_leq(a: Seq<char>, b: Seq<char>) -> bool
    decreases a.len(),
{
    if a.len() == 0 {
        true
    } else if b.len() == 0 {
        false
    } else if (a[0] as u32) < (b[0] as u32) {
        true
    } else if (a[0] as u32) > (b[0] as u32) {
        false
    } else {
        lex_leq(a.drop_first(), b.drop_first())
    }
}

/// Any two sequences are ordered one way or the other.
pub proof fn lemma_lex_total(a: Seq<char>, b: Seq<char>)
    ensures
        lex_leq(a, b) || lex_leq(b, a),
    decreases a.len(),
{
    if a.len() != 0 && b.len() != 0 && (a[0] as u32) == (b[0] as u32) {
        lemma_lex_total(a.drop_first(), b.drop_first());
    }
}

/// The order is transitive.
pub proof fn lemma_lex_trans(a: Seq<char>, b: Seq<char>, c: Seq<char>)
    requires
        lex_leq(a, b),
        lex_leq(b, c),
    ensures
        lex_leq(a, c),
    decreases a.len(),
{
    if a.len() != 0 && b.len() != 0 && c.len() != 0 && (a[0] as u32) == (b[0] as u32) && (b[0]
        as u32) == (c[0] as u32) {
        lemma_lex_trans(a.drop_first(), b.drop_first(), c.drop_first());
    }
}

/// Discarding an equal prefix does not change how two sequences compare.
proof fn lemma_lex_skip(a: Seq<char>, b: Seq<char>, i: int)
    requires
        0 <= i <= a.len(),
        i <= b.len(),
        forall|k: int| 0 <= k < i ==> a[k] == b[k],
    ensures
        lex_leq(a, b) == lex_leq(a.skip(i), b.skip(i)),
    decreases i,
{
    if i > 0 {
        assert(a.len() > 0 && b.len() > 0);
        assert((a[0] as u32) == (b[0] as u32));
        lemma_lex_skip(a.drop_first(), b.drop_first(), i - 1);
        assert(a.drop_first().skip(i - 1) =~= a.skip(i));
        assert(b.drop_first().skip(i - 1) =~= b.skip(i));
    } else {
        assert(a.skip(0) =~= a);
        assert(b.skip(0) =~= b);
    }
}

/// Compare two path strings in the lexicographic order [`lex_leq`].
pub fn str_leq(a: &str, b: &str) -> (r: bool)
    ensures
        r == lex_leq(a@, b@),
{
    let alen = a.unicode_len();
    let blen = b.unicode_len();
    let mut i: usize = 0;
    loop
        invariant
            i <= alen,
            i <= blen,
            alen == a@.len(),
            blen == b@.len(),
            forall|k: int| 0 <= k < i ==> a@[k] == b@[k],
        decreases alen - i,
    {
        proof {
            lemma_lex_skip(a@, b@, i as int);
        }
        if i >= alen {
            assert(a@.skip(i as int).len() == 0);
            return true;
        }
        if i >= blen {
            assert(b@.skip(i as int).len() == 0 && a@.skip(i as int).len() > 0);
            return false;
        }
        let ca = a.get_char(i);
        let cb = b.get_char(i);
        assert(a@.skip(i as int)[0] == a@[i as int]);
        assert(b@.skip(i as int)[0] == b@[i as int]);
        if (ca as u32) < (cb as u32) {
            return true;
        }
        if (ca as u32) > (cb as u32) {
            return false;
        }
        i = i + 1;
    }
}

/// Are two strings the same sequence of characters?
pub fn str_eq(a: &str, b: &str) -> (r: bool)
    ensures
        r == (a@ == b@),
{
    let alen = a.unicode_len();
    let blen = b.unicode_len();
    if alen != blen {
        return false;
    }
    let mut i: usize = 0;
    while i < alen
        invariant
            i <= alen,
            alen == a@.len(),
            alen == b@.len(),
            forall|k: int| 0 <= k < i ==> a@[k] == b@[k],
        decreases alen - i,
    {
        let ca = a.get_char(i);
        let cb = b.get_char(i);
        if ca != cb {
            assert(a@[i as int] != b@[i as int]);
            return false;
        }
        i = i + 1;
    }
    proof {
        assert(a@ =~= b@);
    }
    true
}

/// The index of the last occurrence of `c` in `s`, or `-1` if it does not
/// occur.
pub open spec fn last_pos(s: Seq<char>, c: char) -> int
    decreases s.len(),
{
    if s.len() == 0 {
        -1
    } else if s.last() == c {
        s.len() - 1
    } else {
        last_pos(s.drop_last(), c)
    }
}

/// `last_pos` stays within `[-1, len)`, and marks an occurrence when it is
/// not `-1`.
pub proof fn lemma_last_pos_bounds(s: Seq<char>, c: char)
    ensures
        -1 <= last_pos(s, c) < s.len(),
        last_pos(s, c) >= 0 ==> s[last_pos(s, c)] == c,
    decreases s.len(),
{
    if s.len() > 0 && s.last() != c {
        lemma_last_pos_bounds(s.drop_last(), c);
    }
}

/// Find the last occurrence of `c` in `s`, as [`last_pos`] describes it.
pub fn find_last(s: &str, c: char) -> (r: Option<usize>)
    ensures
        r is None ==> last_pos(s@, c) == -1,
        r matches Some(j) ==> last_pos(s@, c) == j && j < s@.len(),
{
    let n = s.unicode_len();
    let mut i: usize = 0;
    let mut r: Option<usize> = None;
    while i < n
        invariant
            i <= n,
            n == s@.len(),
            r is None ==> last_pos(s@.take(i as int), c) == -1,
            r matches Some(j) ==> last_pos(s@.take(i as int), c) == j && j < i,
        decreases n - i,
    {
        let ci = s.get_char(i);
        proof {
            assert(s@.take(i + 1).drop_last() =~= s@.take(i as int));
            assert(s@.take(i + 1).last() == s@[i as int]);
        }
        if ci == c {
            r = Some(i);
        }
        i = i + 1;
    }
    proof {
        assert(s@.take(n as int) =~= s@);
    }
    r
}

/// The display name of a track: everything after the last path separator,
/// or the whole path when it has none.
pub open spec fn spec_file_name(s: Seq<char>) -> Seq<char> {
    s.skip(last_pos(s, '/') + 1)
}

/// Strip the directory part from a track path, for display.
pub fn display_name(path: &str) -> (r: String)
    ensures
        r@ == spec_file_name(path@),
{
    let n = path.unicode_len();
    let start: usize = match find_last(path, '/') {
        None => 0,
        Some(i) => i + 1,
    };
    proof {
        lemma_last_pos_bounds(path@, '/');
        assert(path@.skip(start as int) =~= path@.subrange(start as int, n as int));
    }
    let sub = path.substring_char(start, n);
    String::from_str(sub)
}

/// Case-insensitive match of one character against a lower-case letter or
/// digit: equal outright, or an ASCII upper-case letter folded onto it.
pub open spec fn eq_ci(a: char, b: char) -> bool {
    a == b || (65 <= a as u32 && a as u32 <= 90 && a as u32 + 32 == b as u32)
}

/// Case-insensitive match of a sequence against a lower-case pattern.
pub open spec fn matches_lower(s: Seq<char>, lit: Seq<char>) -> bool {
    s.len() == lit.len() && forall|i: int| 0 <= i < s.len() ==> eq_ci(s[i], lit[i])
}

fn char_eq_ci(a: char, b: char) -> (r: bool)
    ensures
        r == eq_ci(a, b),
{
    if a == b {
        true
    } else {
        let a32 = a as u32;
        let b32 = b as u32;
        65 <= a32 && a32 <= 90 && a32 + 32 == b32
    }
}

/// Does the suffix of `s` starting at `start` match `lit`, ignoring ASCII
/// case?
fn ext_matches(s: &str, start: usize, lit: &str) -> (r: bool)
    requires
        start <= s@.len(),
    ensures
        r == matches_lower(s@.skip(start as int), lit@),
{
    let n = s.unicode_len();
    let m = lit.unicode_len();
    if n - start != m {
        assert(s@.skip(start as int).len() != lit@.len());
        return false;
    }
    assert(forall|k: int| 0 <= k < m ==> s@.skip(start as int)[k] == s@[start + k]);
    let mut k: usize = 0;
    while k < m
        invariant
            k <= m,
            m == lit@.len(),
            n == s@.len(),
            start + m <= n,
            forall|kk: int| 0 <= kk < k ==> eq_ci(s@[start + kk], lit@[kk]),
        decreases m - k,
    {
        let cs = s.get_char(start + k);
        let cl = lit.get_char(k);
        if !char_eq_ci(cs, cl) {
            assert(!eq_ci(s@.skip(start as int)[k as int], lit@[k as int]));
            return false;
        }
        k = k + 1;
    }
    assert(forall|i: int| 0 <= i < m ==> eq_ci(s@.skip(start as int)[i], lit@[i]));
    true
}

/// The supported audio extensions, matched ignoring ASCII case.
pub open spec fn is_audio_ext(e: Seq<char>) -> bool {
    ||| matches_lower(e, "mp3"@)
    ||| matches_lower(e, "wav"@)
    ||| matches_lower(e, "flac"@)
    ||| matches_lower(e, "m4a"@)
    ||| matches_lower(e, "ogg"@)
}

/// A path names an audio track when its file name has an extension — a last
/// dot with at least one character before it within the name — and that
/// extension is a supported one.
pub open spec fn spec_is_audio_track(s: Seq<char>) -> bool {
    let d = last_pos(s, '.');
    let sl = last_pos(s, '/');
    d > sl + 1 && is_audio_ext(s.skip(d + 1))
}

/// Decide [`spec_is_audio_track`] for a path.
pub fn is_audio_track(path: &str) -> (r: bool)
    ensures
        r == spec_is_audio_track(path@),
{
    proof {
        lemma_last_pos_bounds(path@, '.');
        lemma_last_pos_bounds(path@, '/');
    }
    let n = path.unicode_len();
    let d = match find_last(path, '.') {
        None => {
            return false;
        },
        Some(d) => d,
    };
    let in_name = match find_last(path, '/') {
        None => d > 0,
        Some(sl) => d > sl + 1,
    };
    if !in_name {
        return false;
    }
    let start = d + 1;
    ext_matches(path, start, "mp3") || ext_matches(path, start, "wav") || ext_matches(
        path,
        start,
        "flac",
    ) || ext_matches(path, start, "m4a") || ext_matches(path, start, "ogg")
}

} // verus!
