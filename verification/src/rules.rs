//! The rule source loader's own logic: the configured rule sources arrive
//! as one comma-separated list of glob patterns, split here into the
//! individual patterns that the embedding expands independently.

use vstd::prelude::*;

verus! {

/// The pattern list that a configuration string denotes: the maximal
/// separator-free pieces, in order. An empty string denotes one empty
/// pattern; a separator at either end denotes an empty pattern there.
pub open spec fn spec_split(s: Seq<char>, sep: char) -> Seq<Seq<char>>
    decreases s.len(),
{
    if s.len() == 0 {
        seq![Seq::<char>::empty()]
    } else if s.first() == sep {
        seq![Seq::<char>::empty()] + spec_split(s.drop_first(), sep)
    } else {
        let rest = spec_split(s.drop_first(), sep);
        seq![seq![s.first()] + rest.first()] + rest.drop_first()
    }
}

/// A segment `p` prefixed onto the first piece of a split.
pub open spec fn prepend(p: Seq<char>, segs: Seq<Seq<char>>) -> Seq<Seq<char>> {
    seq![p + segs.first()] + segs.drop_first()
}

/// Splitting never yields an empty piece list.
proof fn lemma_split_nonempty(s: Seq<char>, sep: char)
    ensures
        spec_split(s, sep).len() >= 1,
    decreases s.len(),
{
    if s.len() > 0 {
        lemma_split_nonempty(s.drop_first(), sep);
    }
}

/// Unfolding one separator-free character off the front of a split.
proof fn lemma_split_step(s: Seq<char>, sep: char, p: Seq<char>)
    requires
        s.len() > 0,
        s.first() != sep,
    ensures
        prepend(p, spec_split(s, sep)) == prepend(p.push(s.first()), spec_split(s.drop_first(), sep)),
{
    lemma_split_nonempty(s.drop_first(), sep);
    let rest = spec_split(s.drop_first(), sep);
    assert(prepend(p, spec_split(s, sep)) =~= prepend(p.push(s.first()), rest)) by {
        assert(spec_split(s, sep).first() == seq![s.first()] + rest.first());
        assert(spec_split(s, sep).drop_first() =~= rest.drop_first());
        assert(p + (seq![s.first()] + rest.first()) =~= p.push(s.first()) + rest.first());
    }
}

/// Unfolding a separator off the front of a split: the piece gathered so
/// far is complete, and the remainder starts a fresh piece.
proof fn lemma_split_sep(s: Seq<char>, sep: char, p: Seq<char>)
    requires
        s.len() > 0,
        s.first() == sep,
    ensures
        prepend(p, spec_split(s, sep)) == seq![p] + prepend(
            Seq::<char>::empty(),
            spec_split(s.drop_first(), sep),
        ),
    decreases s.len(),
{
    lemma_split_nonempty(s.drop_first(), sep);
    let rest = spec_split(s.drop_first(), sep);
    assert(prepend(p, spec_split(s, sep)) =~= seq![p] + prepend(Seq::<char>::empty(), rest)) by {
        assert(spec_split(s, sep).first() == Seq::<char>::empty());
        assert(p + Seq::<char>::empty() =~= p);
        assert(Seq::<char>::empty() + rest.first() =~= rest.first());
        assert(spec_split(s, sep).drop_first() =~= rest);
        assert(rest =~= seq![rest.first()] + rest.drop_first());
    }
}

/// Splits the configured rule-source string into its comma-separated glob
/// patterns, in order, empty pieces preserved.
pub fn split_patterns(s: &String) -> (r: Vec<String>)
    ensures
        r.deep_view() == spec_split(s@, ','),
{
    let st: &str = s.as_str();
    let n: usize = st.unicode_len();
    let mut r: Vec<String> = Vec::new();
    let mut start: usize = 0;
    let mut i: usize = 0;
    proof {
        assert(s@.subrange(0, 0) =~= Seq::<char>::empty());
        assert(s@.subrange(0, n as int) =~= s@);
    }
    while i < n
        invariant
            start <= i <= n,
            n == s@.len(),
            st@ == s@,
            spec_split(s@, ',') == r.deep_view() + prepend(
                s@.subrange(start as int, i as int),
                spec_split(s@.subrange(i as int, n as int), ','),
            ),
        decreases n - i,
    {
        let ghost suffix: Seq<char> = s@.subrange(i as int, n as int);
        let ghost piece: Seq<char> = s@.subrange(start as int, i as int);
        proof {
            assert(suffix.first() == s@[i as int]);
            assert(suffix.drop_first() =~= s@.subrange(i + 1, n as int));
        }
        let c = st.get_char(i);
        if c == ',' {
            let seg: String = st.substring_char(start, i).to_owned();
            proof {
                lemma_split_sep(suffix, ',', piece);
                assert(seg@ == piece);
            }
            let ghost pre: Seq<Seq<char>> = r.deep_view();
            r.push(seg);
            proof {
                assert(r.deep_view() =~= pre.push(piece));
                assert(pre.push(piece) =~= pre + seq![piece]);
                assert((pre + seq![piece]) + prepend(
                    Seq::<char>::empty(),
                    spec_split(s@.subrange(i + 1, n as int), ','),
                ) =~= pre + (seq![piece] + prepend(
                    Seq::<char>::empty(),
                    spec_split(s@.subrange(i + 1, n as int), ','),
                )));
                assert(s@.subrange(i + 1, i + 1) =~= Seq::<char>::empty());
            }
            start = i + 1;
        } else {
            proof {
                lemma_split_step(suffix, ',', piece);
                assert(piece.push(s@[i as int]) =~= s@.subrange(start as int, i + 1));
            }
        }
        i = i + 1;
    }
    let seg: String = st.substring_char(start, n).to_owned();
    proof {
        let suffix = s@.subrange(n as int, n as int);
        assert(suffix =~= Seq::<char>::empty());
        assert(spec_split(suffix, ',') == seq![Seq::<char>::empty()]);
        let piece = s@.subrange(start as int, n as int);
        assert(prepend(piece, spec_split(suffix, ',')) =~= seq![piece]) by {
            assert(piece + Seq::<char>::empty() =~= piece);
            assert(seq![Seq::<char>::empty()].drop_first() =~= Seq::<Seq<char>>::empty());
        }
        assert(seg@ == piece);
    }
    let ghost pre: Seq<Seq<char>> = r.deep_view();
    r.push(seg);
    proof {
        assert(r.deep_view() =~= pre.push(s@.subrange(start as int, n as int)));
        assert(pre + seq![s@.subrange(start as int, n as int)] =~= pre.push(
            s@.subrange(start as int, n as int),
        ));
        assert(r.deep_view() =~= spec_split(s@, ','));
    }
    r
}

} // verus!
