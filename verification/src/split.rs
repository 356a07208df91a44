//! Field splitter: breaks a raw sentence into its ordered sequence of
//! fields on a separator character.
//!
//! No field is dropped and nothing is trimmed: an empty field stays a
//! distinct empty entry, because in NMEA 0183 an empty field means "value
//! not provided".  Any string decomposes into at least one field (itself,
//! when the separator is absent), so splitting has no failure mode.

use vstd::prelude::*;

verus! {

/// The fields of `s`, split on `sep`: the (possibly empty) stretches of
/// characters between occurrences of `sep`, in order.
pub open spec fn spec_split(s: Seq<char>, sep: char) -> Seq<Seq<char>>
    decreases s.len(),
{
    if s.len() == 0 {
        seq![Seq::<char>::empty()]
    } else if s[0] == sep {
        seq![Seq::<char>::empty()] + spec_split(s.drop_first(), sep)
    } else {
        let rest = spec_split(s.drop_first(), sep);
        seq![seq![s[0]] + rest[0]] + rest.drop_first()
    }
}

/// Splitting yields at least one field.
pub proof fn lemma_split_len(s: Seq<char>, sep: char)
    ensures
        spec_split(s, sep).len() >= 1,
    decreases s.len(),
{
    if s.len() == 0 {
    } else if s[0] == sep {
        lemma_split_len(s.drop_first(), sep)
    } else {
        lemma_split_len(s.drop_first(), sep)
    }
}

/// A string free of the separator is a single field: itself.
pub proof fn lemma_split_no_sep(s: Seq<char>, sep: char)
    requires
        forall|i: int| 0 <= i < s.len() ==> s[i] != sep,
    ensures
        spec_split(s, sep) == seq![s],
    decreases s.len(),
{
    if s.len() == 0 {
        assert(s =~= Seq::<char>::empty());
    } else {
        assert(s[0] != sep);
        assert forall|i: int| 0 <= i < s.drop_first().len() implies s.drop_first()[i] != sep by {
            assert(s[i + 1] != sep);
        }
        lemma_split_no_sep(s.drop_first(), sep);
        assert(seq![s[0]] + s.drop_first() =~= s);
        assert(spec_split(s, sep) =~= seq![s]);
    }
}

/// Splitting `u + [sep] + v`, with `u` free of the separator, yields `u`
/// followed by the fields of `v`.
pub proof fn lemma_split_at_sep(u: Seq<char>, v: Seq<char>, sep: char)
    requires
        forall|i: int| 0 <= i < u.len() ==> u[i] != sep,
    ensures
        spec_split(u + seq![sep] + v, sep) == seq![u] + spec_split(v, sep),
    decreases u.len(),
{
    let s = u + seq![sep] + v;
    if u.len() == 0 {
        assert(s[0] == sep);
        assert(s.drop_first() =~= v);
        assert(u =~= Seq::<char>::empty());
        assert(spec_split(s, sep) =~= seq![u] + spec_split(v, sep));
    } else {
        assert(s[0] == u[0]);
        assert(s[0] != sep);
        assert forall|i: int| 0 <= i < u.drop_first().len() implies u.drop_first()[i] != sep by {
            assert(u[i + 1] != sep);
        }
        lemma_split_at_sep(u.drop_first(), v, sep);
        assert(s.drop_first() =~= u.drop_first() + seq![sep] + v);
        let rest = spec_split(s.drop_first(), sep);
        assert(rest == seq![u.drop_first()] + spec_split(v, sep));
        assert(rest[0] == u.drop_first());
        assert(seq![s[0]] + rest[0] =~= u);
        assert(rest.drop_first() =~= spec_split(v, sep));
        assert(spec_split(s, sep) =~= seq![u] + spec_split(v, sep));
    }
}

/// Breaks `s` into its fields on `sep`.  The result holds every stretch of
/// characters between separators, in order, empty stretches included.
pub fn split_fields(s: &str, sep: char) -> (r: Vec<String>)
    ensures
        r.deep_view() == spec_split(s@, sep),
{
    let n = s.unicode_len();
    let mut fields: Vec<String> = Vec::new();
    let mut start: usize = 0;
    let mut i: usize = 0;
    proof {
        assert(s@.skip(0) =~= s@);
    }
    while i < n
        invariant
            n == s@.len(),
            start <= i <= n,
            forall|j: int| start <= j < i ==> s@[j] != sep,
            spec_split(s@, sep) == fields.deep_view() + spec_split(s@.skip(start as int), sep),
        decreases n - i,
    {
        let c = s.get_char(i);
        if c == sep {
            let field = s.substring_char(start, i).to_owned();
            proof {
                let tail = s@.skip(start as int);
                let piece = s@.subrange(start as int, i as int);
                assert forall|j: int| 0 <= j < piece.len() implies piece[j] != sep by {
                    assert(s@[start + j] != sep);
                }
                assert(tail =~= piece + seq![sep] + s@.skip(i + 1));
                lemma_split_at_sep(piece, s@.skip(i + 1), sep);
                assert(fields.deep_view().push(field@) =~= fields.deep_view() + seq![piece]);
            }
            let ghost old_fields = fields.deep_view();
            fields.push(field);
            proof {
                assert(fields.deep_view() =~= old_fields.push(s@.subrange(start as int, i as int)));
                assert(spec_split(s@, sep) =~= fields.deep_view() + spec_split(s@.skip(i + 1), sep));
            }
            start = i + 1;
        }
        i = i + 1;
    }
    let last = s.substring_char(start, n).to_owned();
    proof {
        let piece = s@.subrange(start as int, n as int);
        assert forall|j: int| 0 <= j < piece.len() implies piece[j] != sep by {
            assert(s@[start + j] != sep);
        }
        assert(s@.skip(start as int) =~= piece);
        lemma_split_no_sep(piece, sep);
        assert(fields.deep_view().push(last@) =~= fields.deep_view() + seq![piece]);
    }
    let ghost old_fields = fields.deep_view();
    fields.push(last);
    proof {
        assert(fields.deep_view() =~= old_fields.push(s@.subrange(start as int, n as int)));
        assert(spec_split(s@, sep) =~= fields.deep_view());
    }
    fields
}

} // verus!
