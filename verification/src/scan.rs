//! Delimiter search and the record structure it induces on a byte stream.
//!
//! A stream splits into records at each occurrence of a delimiter byte;
//! the delimiters themselves belong to no record. The final record is the
//! tail after the last delimiter, and only exists when that tail is not
//! empty.

use vstd::prelude::*;

verus! {

/// Relies on `memchr::memchr`: it returns the index of the first
/// occurrence of `needle` in `haystack`, or nothing when `needle` does
/// not occur.
pub assume_specification [ memchr::memchr ](needle: u8, haystack: &[u8]) -> (r: Option<usize>)
    ensures
        (r matches Some(i) ==> i < haystack@.len() && haystack@[i as int] == needle
            && (forall|j: int| 0 <= j < i ==> haystack@[j] != needle)),
        (r is None ==> forall|j: int| 0 <= j < haystack@.len() ==> haystack@[j] != needle),
;

/// `i` is the index of the first occurrence of `delim` in `s`.
pub open spec fn found_at(s: Seq<u8>, delim: u8, i: int) -> bool {
    &&& 0 <= i < s.len()
    &&& s[i] == delim
    &&& forall|j: int| 0 <= j < i ==> s[j] != delim
}

/// `delim` occurs somewhere in `s`.
pub open spec fn has_delim(s: Seq<u8>, delim: u8) -> bool {
    exists|i: int| found_at(s, delim, i)
}

/// The index of the first occurrence of `delim` in `s`; meaningful only
/// when `has_delim(s, delim)`.
pub open spec fn first_delim(s: Seq<u8>, delim: u8) -> int {
    choose|i: int| found_at(s, delim, i)
}

/// There is at most one index at which a first occurrence stands.
pub proof fn lemma_found_at_unique(s: Seq<u8>, delim: u8, i: int, j: int)
    requires
        found_at(s, delim, i),
        found_at(s, delim, j),
    ensures
        i == j,
{
}

/// Any occurrence of `delim` guarantees a first one.
pub proof fn lemma_occurrence_gives_first(s: Seq<u8>, delim: u8, k: int)
    requires
        0 <= k < s.len(),
        s[k] == delim,
    ensures
        has_delim(s, delim),
    decreases k,
{
    if s[0] == delim {
        assert(found_at(s, delim, 0));
    } else {
        lemma_occurrence_gives_first(s.skip(1), delim, k - 1);
        let f = choose|i: int| found_at(s.skip(1), delim, i);
        assert(found_at(s, delim, f + 1)) by {
            assert(s.skip(1)[f] == s[f + 1]);
            assert forall|j: int| 0 <= j < f + 1 implies s[j] != delim by {
                if j >= 1 {
                    assert(s.skip(1)[j - 1] != delim);
                }
            }
        }
    }
}

/// The records of `s`, split at `delim`, delimiters excluded.
pub open spec fn records(s: Seq<u8>, delim: u8) -> Seq<Seq<u8>>
    decreases s.len(),
{
    if !has_delim(s, delim) {
        if s.len() == 0 {
            Seq::empty()
        } else {
            seq![s]
        }
    } else {
        let i = first_delim(s, delim);
        seq![s.take(i)] + records(s.skip(i + 1), delim)
    }
}

/// Concatenation of the records with `delim` appended to every one.
pub open spec fn join_terminated(rs: Seq<Seq<u8>>, delim: u8) -> Seq<u8>
    decreases rs.len(),
{
    if rs.len() == 0 {
        Seq::empty()
    } else {
        rs[0] + seq![delim] + join_terminated(rs.skip(1), delim)
    }
}

/// Concatenation of the records with `delim` between them and none after
/// the last.
pub open spec fn join_separated(rs: Seq<Seq<u8>>, delim: u8) -> Seq<u8>
    decreases rs.len(),
{
    if rs.len() == 0 {
        Seq::empty()
    } else if rs.len() == 1 {
        rs[0]
    } else {
        rs[0] + seq![delim] + join_separated(rs.skip(1), delim)
    }
}

/// A stream with content splits into at least one record.
pub proof fn lemma_records_nonempty(s: Seq<u8>, delim: u8)
    requires
        s.len() > 0,
    ensures
        records(s, delim).len() >= 1,
{
}

/// Round trip of delimiter splitting: for every byte sequence, putting
/// the delimiter back after each record reproduces the sequence when it
/// ended with the delimiter (or was empty), and putting it back between
/// the records reproduces it otherwise.
pub proof fn lemma_split_round_trip(s: Seq<u8>, delim: u8)
    ensures
        (s.len() == 0 || s[s.len() - 1] == delim)
            ==> join_terminated(records(s, delim), delim) == s,
        (s.len() > 0 && s[s.len() - 1] != delim)
            ==> join_separated(records(s, delim), delim) == s,
    decreases s.len(),
{
    if !has_delim(s, delim) {
        if s.len() == 0 {
            assert(join_terminated(records(s, delim), delim) =~= s);
        } else {
            // The last byte is no delimiter, since none occurs at all.
            if s[s.len() - 1] == delim {
                lemma_occurrence_gives_first(s, delim, s.len() - 1);
                assert(false);
            }
            assert(join_separated(records(s, delim), delim) == s);
        }
    } else {
        let i = first_delim(s, delim);
        assert(found_at(s, delim, i));
        let head = s.take(i);
        let rest = s.skip(i + 1);
        let rs = records(s, delim);
        assert(rs == seq![head] + records(rest, delim));
        assert(rs.skip(1) =~= records(rest, delim));
        lemma_split_round_trip(rest, delim);
        if rest.len() == 0 {
            // `s` ends with the delimiter found at `i`.
            assert(s[s.len() - 1] == delim);
            assert(records(rest, delim) =~= Seq::<Seq<u8>>::empty());
            assert(join_terminated(rs, delim) =~= head + seq![delim]);
            assert(head + seq![delim] =~= s);
        } else {
            assert(rest[rest.len() - 1] == s[s.len() - 1]);
            lemma_records_nonempty(rest, delim);
            if s[s.len() - 1] == delim {
                assert(join_terminated(rs, delim)
                    == head + seq![delim] + join_terminated(rs.skip(1), delim));
                assert(head + seq![delim] + rest =~= s);
            } else {
                assert(rs.len() >= 2);
                assert(join_separated(rs, delim)
                    == head + seq![delim] + join_separated(rs.skip(1), delim));
                assert(head + seq![delim] + rest =~= s);
            }
        }
    }
}

} // verus!
