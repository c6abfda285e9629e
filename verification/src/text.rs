//! Small verified helpers over strings.

use vstd::prelude::*;

verus! {

/// Character-wise string equality, stated over the views.
pub fn str_eq(a: &str, b: &str) -> (r: bool)
    ensures
        r == (a@ == b@),
{
    let a_len = a.unicode_len();
    let b_len = b.unicode_len();
    if a_len != b_len {
        return false;
    }
    let mut i: usize = 0;
    while i < a_len
        invariant
            i <= a_len,
            a_len == a@.len(),
            a_len == b@.len(),
            forall|j: int| 0 <= j < i ==> a@[j] == b@[j],
        decreases a_len - i,
    {
        if a.get_char(i) != b.get_char(i) {
            return false;
        }
        i += 1;
    }
    proof {
        assert(a@ =~= b@);
    }
    true
}

/// The pieces of `s` between `sep` separators, in order. Splitting
/// never yields an empty result: a string without a separator is one
/// piece, and each separator adds one more (so pieces may be empty).
pub open spec fn spec_split_sep(s: Seq<char>, sep: char) -> Seq<Seq<char>>
    decreases s.len(),
{
    if s.len() == 0 {
        seq![Seq::<char>::empty()]
    } else if s[0] == sep {
        seq![Seq::<char>::empty()] + spec_split_sep(s.drop_first(), sep)
    } else {
        let rest = spec_split_sep(s.drop_first(), sep);
        seq![seq![s[0]] + rest[0]] + rest.skip(1)
    }
}

/// The pieces joined back with `sep` between them.
pub open spec fn spec_join_sep(parts: Seq<Seq<char>>, sep: char) -> Seq<char>
    decreases parts.len(),
{
    if parts.len() == 0 {
        Seq::<char>::empty()
    } else if parts.len() == 1 {
        parts[0]
    } else {
        parts[0] + seq![sep] + spec_join_sep(parts.drop_first(), sep)
    }
}

/// Splitting always yields at least one piece.
pub proof fn lemma_split_sep_nonempty(s: Seq<char>, sep: char)
    ensures
        spec_split_sep(s, sep).len() >= 1,
    decreases s.len(),
{
    if s.len() > 0 {
        lemma_split_sep_nonempty(s.drop_first(), sep);
    }
}

/// A string without a separator is a single piece.
pub proof fn lemma_split_no_sep(s: Seq<char>, sep: char)
    requires
        forall|i: int| 0 <= i < s.len() ==> s[i] != sep,
    ensures
        spec_split_sep(s, sep) =~= seq![s],
    decreases s.len(),
{
    if s.len() == 0 {
        assert(s =~= Seq::<char>::empty());
    } else {
        lemma_split_no_sep(s.drop_first(), sep);
        let rest = spec_split_sep(s.drop_first(), sep);
        assert(rest =~= seq![s.drop_first()]);
        assert(seq![s[0]] + rest[0] =~= s);
        assert(rest.skip(1) =~= Seq::<Seq<char>>::empty());
        assert(seq![seq![s[0]] + rest[0]] + rest.skip(1) =~= seq![s]);
    }
}

/// Splitting at the first separator: the piece before it, then the
/// pieces of what follows it.
pub proof fn lemma_split_first_sep(s: Seq<char>, i: int, sep: char)
    requires
        0 <= i < s.len(),
        s[i] == sep,
        forall|j: int| 0 <= j < i ==> s[j] != sep,
    ensures
        spec_split_sep(s, sep) =~= seq![s.take(i)] + spec_split_sep(s.skip(i + 1), sep),
    decreases i,
{
    if i == 0 {
        assert(s.take(0) =~= Seq::<char>::empty());
        assert(s.skip(1) =~= s.drop_first());
    } else {
        let tail = s.drop_first();
        lemma_split_first_sep(tail, i - 1, sep);
        lemma_split_sep_nonempty(tail.skip(i), sep);
        let rest = spec_split_sep(tail, sep);
        assert(rest[0] == tail.take(i - 1));
        assert(seq![s[0]] + tail.take(i - 1) =~= s.take(i));
        assert(rest.skip(1) =~= spec_split_sep(tail.skip(i), sep));
        assert(tail.skip(i) =~= s.skip(i + 1));
        assert(seq![seq![s[0]] + rest[0]] + rest.skip(1) =~= seq![s.take(i)] + spec_split_sep(
            s.skip(i + 1),
            sep,
        ));
    }
}

/// Joining after adding one piece at the end appends a separator and
/// that piece (or is just the piece, if it stands alone).
pub proof fn lemma_join_sep_push(parts: Seq<Seq<char>>, piece: Seq<char>, sep: char)
    ensures
        parts.len() == 0 ==> spec_join_sep(parts.push(piece), sep) == piece,
        parts.len() > 0 ==> spec_join_sep(parts.push(piece), sep) == spec_join_sep(parts, sep)
            + seq![sep] + piece,
    decreases parts.len(),
{
    let grown = parts.push(piece);
    if parts.len() == 0 {
        assert(grown.len() == 1);
        assert(grown[0] == piece);
    } else {
        lemma_join_sep_push(parts.drop_first(), piece, sep);
        assert(grown.drop_first() =~= parts.drop_first().push(piece));
        if parts.len() == 1 {
            assert(spec_join_sep(grown, sep) == parts[0] + seq![sep] + piece);
            assert(spec_join_sep(parts, sep) == parts[0]);
        } else {
            assert(spec_join_sep(grown, sep) == grown[0] + seq![sep] + spec_join_sep(
                grown.drop_first(),
                sep,
            ));
            assert(parts[0] + seq![sep] + (spec_join_sep(parts.drop_first(), sep) + seq![sep]
                + piece) =~= (parts[0] + seq![sep] + spec_join_sep(parts.drop_first(), sep))
                + seq![sep] + piece);
        }
    }
}

/// Splits `s` at every occurrence of `sep`.
pub fn split_sep(s: &str, sep: char) -> (parts: Vec<String>)
    ensures
        parts@.map_values(|piece: String| piece@) == spec_split_sep(s@, sep),
{
    let len = s.unicode_len();
    let mut parts: Vec<String> = Vec::new();
    let mut start: usize = 0;
    let mut i: usize = 0;
    proof {
        assert(s@.skip(0) =~= s@);
        assert(parts@.map_values(|piece: String| piece@) =~= Seq::<Seq<char>>::empty());
    }
    while i < len
        invariant
            start <= i <= len,
            len == s@.len(),
            forall|j: int| start <= j < i ==> s@[j] != sep,
            spec_split_sep(s@, sep) =~= parts@.map_values(|piece: String| piece@)
                + spec_split_sep(s@.skip(start as int), sep),
        decreases len - i,
    {
        if s.get_char(i) == sep {
            let piece = s.substring_char(start, i).to_owned();
            proof {
                let remaining = s@.skip(start as int);
                lemma_split_first_sep(remaining, i - start, sep);
                assert(remaining.take(i - start) =~= s@.subrange(start as int, i as int));
                assert(remaining.skip(i - start + 1) =~= s@.skip(i + 1));
                assert(parts@.push(piece).map_values(|p: String| p@) =~= parts@.map_values(
                    |p: String| p@,
                ).push(piece@));
            }
            parts.push(piece);
            start = i + 1;
        }
        i += 1;
    }
    let last = s.substring_char(start, len).to_owned();
    proof {
        let remaining = s@.skip(start as int);
        lemma_split_no_sep(remaining, sep);
        assert(remaining =~= s@.subrange(start as int, len as int));
        assert(parts@.push(last).map_values(|p: String| p@) =~= parts@.map_values(
            |p: String| p@,
        ).push(last@));
        assert(parts@.map_values(|p: String| p@).push(last@) =~= parts@.map_values(
            |p: String| p@,
        ) + seq![remaining]);
    }
    parts.push(last);
    parts
}

/// Joins the first `count` of `parts` with `'/'` between them.
pub fn join_slash_prefix(parts: &Vec<String>, count: usize) -> (joined: String)
    requires
        count <= parts@.len(),
    ensures
        joined@ == spec_join_sep(
            parts@.take(count as int).map_values(|piece: String| piece@),
            '/',
        ),
{
    let mut joined = String::new();
    let mut i: usize = 0;
    while i < count
        invariant
            i <= count <= parts@.len(),
            joined@ == spec_join_sep(
                parts@.take(i as int).map_values(|piece: String| piece@),
                '/',
            ),
        decreases count - i,
    {
        proof {
            let before = parts@.take(i as int).map_values(|piece: String| piece@);
            lemma_join_sep_push(before, parts@[i as int]@, '/');
            assert(parts@.take(i + 1).map_values(|piece: String| piece@) =~= before.push(
                parts@[i as int]@,
            ));
        }
        if i > 0 {
            joined.append("/");
            proof {
                reveal_strlit("/");
                assert("/"@ =~= seq!['/']);
            }
        }
        let piece = &parts[i];
        joined.append(piece.as_str());
        i += 1;
    }
    joined
}

} // verus!
