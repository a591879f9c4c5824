//! Building a playlist from a directory listing: keep the plain files whose
//! extension is a supported audio one, and order the kept paths
//! lexicographically.
use vstd::prelude::*;
use crate::text::{
    is_audio_track, lemma_lex_total, lemma_lex_trans, lex_leq, spec_is_audio_track, str_leq,
};

verus! {

/// One direct child of the scanned directory: its path, and whether it is a
/// plain file (directories are skipped, they are never descended into).
pub struct DirEntry {
    pub path: String,
    pub is_file: bool,
}

/// An entry goes into the playlist when it is a plain file with a supported
/// audio extension.
pub open spec fn keeps(e: DirEntry) -> bool {
    e.is_file && spec_is_audio_track(e.path@)
}

/// The paths of the entries a listing keeps, in listing order.
pub open spec fn kept_paths(s: Seq<DirEntry>) -> Seq<String> {
    s.filter(|e: DirEntry| keeps(e)).map_values(|e: DirEntry| e.path)
}

/// The playlist order: lexicographically ascending track paths.
pub open spec fn sorted_tracks(s: Seq<String>) -> bool {
    forall|i: int, j: int| 0 <= i < j < s.len() ==> lex_leq(s[i]@, s[j]@)
}

/// How many of the flags are set.
pub open spec fn count_true(s: Seq<bool>) -> int
    decreases s.len(),
{
    if s.len() == 0 {
        0
    } else {
        count_true(s.drop_last()) + if s.last() {
            1int
        } else {
            0int
        }
    }
}

/// There are never more set flags than flags.
pub proof fn lemma_count_true_bounds(s: Seq<bool>)
    ensures
        0 <= count_true(s) <= s.len(),
    decreases s.len(),
{
    if s.len() > 0 {
        lemma_count_true_bounds(s.drop_last());
    }
}

/// Count the set flags of `v`.
pub fn count_true_vec(v: &Vec<bool>) -> (c: usize)
    ensures
        c == count_true(v@),
        c <= v@.len(),
    {
    proof {
        lemma_count_true_bounds(v@);
    }
    let mut c: usize = 0;
    let mut i: usize = 0;
    while i < v.len()
        invariant
            i <= v@.len(),
            c == count_true(v@.take(i as int)),
            c <= i,
        decreases v@.len() - i,
    {
        proof {
            assert(v@.take(i + 1).drop_last() =~= v@.take(i as int));
            assert(v@.take(i + 1).last() == v@[i as int]);
        }
        if v[i] {
            c = c + 1;
        }
        i = i + 1;
    }
    proof {
        assert(v@.take(v@.len() as int) =~= v@);
    }
    c
}

/// Inserting an element anywhere in a sequence adds exactly it to the
/// sequence's multiset.
proof fn lemma_to_multiset_insert(s: Seq<String>, pos: int, x: String)
    requires
        0 <= pos <= s.len(),
    ensures
        s.insert(pos, x).to_multiset() == s.to_multiset().insert(x),
{
    broadcast use vstd::seq_lib::group_to_multiset_ensures;

    let t = s.insert(pos, x);
    s.insert_ensures(pos, x);
    assert(t.remove(pos) =~= s);
    assert(t[pos] == x);
    assert(s.to_multiset() =~= t.to_multiset().remove(x));
    assert(t.contains(x));
    assert(t.to_multiset().count(x) > 0);
    assert(t.to_multiset().remove(x).insert(x) =~= t.to_multiset());
}

/// The position where `x` belongs in the sorted `out`: everything before it
/// orders no later than `x`, and the element at it (if any) orders after.
fn insertion_point(out: &Vec<String>, x: &String) -> (pos: usize)
    requires
        sorted_tracks(out@),
    ensures
        pos <= out@.len(),
        forall|k: int| 0 <= k < pos ==> lex_leq(out@[k]@, x@),
        pos < out@.len() ==> !lex_leq(out@[pos as int]@, x@),
{
    let mut pos: usize = 0;
    loop
        invariant
            pos <= out@.len(),
            forall|k: int| 0 <= k < pos ==> lex_leq(out@[k]@, x@),
        decreases out@.len() - pos,
    {
        if pos >= out.len() {
            return pos;
        }
        let before = &out[pos];
        if !str_leq(before.as_str(), x.as_str()) {
            return pos;
        }
        pos = pos + 1;
    }
}

/// Sort track paths lexicographically: the result holds exactly the given
/// paths, in ascending order.
pub fn sort_strings(input: Vec<String>) -> (out: Vec<String>)
    ensures
        sorted_tracks(out@),
        out@.to_multiset() == input@.to_multiset(),
        out@.len() == input@.len(),
{
    broadcast use vstd::seq_lib::group_to_multiset_ensures;

    let mut out: Vec<String> = Vec::new();
    let mut i: usize = 0;
    while i < input.len()
        invariant
            i <= input@.len(),
            sorted_tracks(out@),
            out@.to_multiset() == input@.take(i as int).to_multiset(),
            out@.len() == i,
        decreases input@.len() - i,
    {
        let x = input[i].clone();
        assert(x == input@[i as int]);
        let pos = insertion_point(&out, &x);
        let ghost prev = out@;
        proof {
            if pos < prev.len() {
                lemma_lex_total(prev[pos as int]@, x@);
            }
            assert forall|k: int| pos <= k < prev.len() implies lex_leq(x@, prev[k]@) by {
                if k > pos {
                    lemma_lex_trans(x@, prev[pos as int]@, prev[k]@);
                }
            }
            lemma_to_multiset_insert(prev, pos as int, x);
            assert(input@.take(i + 1) =~= input@.take(i as int).push(input@[i as int]));
            vstd::seq_lib::to_multiset_build(input@.take(i as int), input@[i as int]);
        }
        out.insert(pos, x);
        proof {
            assert(out@ == prev.insert(pos as int, x));
            prev.insert_ensures(pos as int, x);
            assert forall|a: int, b: int| 0 <= a < b < out@.len() implies lex_leq(
                out@[a]@,
                out@[b]@,
            ) by {
                if b < pos {
                    assert(out@[a] == prev[a] && out@[b] == prev[b]);
                } else if a > pos {
                    assert(out@[a] == prev[a - 1] && out@[b] == prev[b - 1]);
                } else if a == pos {
                    assert(out@[a] == x && out@[b] == prev[b - 1]);
                } else if b == pos {
                    assert(out@[a] == prev[a] && out@[b] == x);
                } else {
                    assert(a < pos && b > pos);
                    assert(out@[a] == prev[a] && out@[b] == prev[b - 1]);
                }
            }
        }
        i = i + 1;
    }
    proof {
        assert(input@.take(input@.len() as int) =~= input@);
    }
    out
}

/// Keep the audio files of a listing, in listing order.
fn filter_entries(entries: Vec<DirEntry>) -> (kept: Vec<String>)
    ensures
        kept@ == kept_paths(entries@),
{
    let mut kept: Vec<String> = Vec::new();
    let mut i: usize = 0;
    while i < entries.len()
        invariant
            i <= entries@.len(),
            kept@ == kept_paths(entries@.take(i as int)),
        decreases entries@.len() - i,
    {
        let e = &entries[i];
        let keep = e.is_file && is_audio_track(e.path.as_str());
        proof {
            assert(entries@.take(i + 1) =~= entries@.take(i as int).push(entries@[i as int]));
            lemma_kept_paths_push(entries@.take(i as int), entries@[i as int]);
        }
        if keep {
            kept.push(e.path.clone());
        }
        i = i + 1;
    }
    proof {
        assert(entries@.take(entries@.len() as int) =~= entries@);
    }
    kept
}

/// Appending one entry to a listing appends its path to the kept paths when
/// it is kept, and changes nothing otherwise.
proof fn lemma_kept_paths_push(s: Seq<DirEntry>, e: DirEntry)
    ensures
        keeps(e) ==> kept_paths(s.push(e)) == kept_paths(s).push(e.path),
        !keeps(e) ==> kept_paths(s.push(e)) == kept_paths(s),
{
    reveal(Seq::filter);
    let p = |en: DirEntry| keeps(en);
    assert(s.push(e).drop_last() =~= s);
    assert(s.push(e).last() == e);
    if keeps(e) {
        assert(s.push(e).filter(p) == s.filter(p).push(e));
        assert(s.filter(p).push(e).map_values(|en: DirEntry| en.path) =~= s.filter(p).map_values(
            |en: DirEntry| en.path,
        ).push(e.path));
    }
}

/// Build the playlist from a directory listing: its audio files' paths,
/// sorted lexicographically ascending.
pub fn collect_tracks(entries: Vec<DirEntry>) -> (tracks: Vec<String>)
    ensures
        sorted_tracks(tracks@),
        tracks@.to_multiset() == kept_paths(entries@).to_multiset(),
        tracks@.len() == kept_paths(entries@).len(),
{
    let kept = filter_entries(entries);
    sort_strings(kept)
}

} // verus!
