//! Resolution of an entity's identity from the hyperlink of a summary row.
//!
//! A link has the shape `/en/results.html/{year}/{kind}/{id}[/{slug}]/{page}.html`.
//! Splitting it on `/` gives an empty first piece, so the identity starts at the
//! piece numbered [`IDENTITY_START`].
use vstd::prelude::*;
use crate::text::{segments, split_segments};

verus! {

/// The number of leading pieces of a link that come before the identity.
pub const IDENTITY_START: usize = 5;

/// Why a hyperlink did not yield an entity identity.
#[derive(Debug, Clone, Copy, PartialEq, Eq, Structural)]
pub enum ResolveError {
    /// The link has too few pieces to hold an identity.
    MalformedUrl,
    /// The circuit index piece is not a number that fits in a `u16`.
    IndexParseFailure,
}

/// The pieces of a link that carry an identity: at most `count` of them, from
/// [`IDENTITY_START`] on.
pub open spec fn identity_pieces(href: Seq<char>, count: nat) -> Seq<Seq<char>> {
    let all = segments(href);
    if all.len() <= IDENTITY_START {
        Seq::empty()
    } else if all.len() - IDENTITY_START <= count {
        all.subrange(IDENTITY_START as int, all.len() as int)
    } else {
        all.subrange(IDENTITY_START as int, IDENTITY_START + count)
    }
}

/// Splits a link into pieces and takes at most `count` of them from
/// [`IDENTITY_START`] on.
pub fn take_identity_pieces(href: &str, count: usize) -> (r: Vec<String>)
    requires
        count <= usize::MAX - IDENTITY_START,
    ensures
        crate::text::texts(r@) == identity_pieces(href@, count as nat),
{
    let all = split_segments(href);
    let ghost whole = crate::text::texts(all@);
    let mut out: Vec<String> = Vec::new();
    if all.len() <= IDENTITY_START {
        assert(crate::text::texts(out@) =~= identity_pieces(href@, count as nat));
        return out;
    }
    let mut i: usize = IDENTITY_START;
    let stop: usize = if all.len() - IDENTITY_START <= count {
        all.len()
    } else {
        IDENTITY_START + count
    };
    assert(crate::text::texts(out@) =~= whole.subrange(IDENTITY_START as int, i as int));
    while i < stop
        invariant
            IDENTITY_START <= i <= stop,
            stop <= all.len(),
            whole == crate::text::texts(all@),
            crate::text::texts(out@) == whole.subrange(IDENTITY_START as int, i as int),
        decreases stop - i,
    {
        let ghost before = out@;
        let piece = all[i].clone();
        out.push(piece);
        assert(out@ == before.push(piece));
        assert(whole[i as int] == piece@);
        assert(crate::text::texts(out@) =~= crate::text::texts(before).push(piece@));
        assert(crate::text::texts(out@) =~= whole.subrange(IDENTITY_START as int, i + 1));
        i = i + 1;
    }
    assert(crate::text::texts(out@) =~= identity_pieces(href@, count as nat));
    out
}

/// Whether a text holds no `/`.
pub open spec fn slash_free(s: Seq<char>) -> bool {
    forall|i: int| 0 <= i < s.len() ==> s[i] != '/'
}

/// The pieces joined by `/`, the inverse of splitting.
pub open spec fn join_slash(pieces: Seq<Seq<char>>) -> Seq<char>
    decreases pieces.len(),
{
    if pieces.len() <= 1 {
        if pieces.len() == 1 {
            pieces[0]
        } else {
            Seq::empty()
        }
    } else {
        join_slash(pieces.drop_last()) + seq!['/'] + pieces.last()
    }
}

proof fn lemma_segments_slash_free(s: Seq<char>)
    requires
        slash_free(s),
    ensures
        segments(s) == seq![s],
    decreases s.len(),
{
    if s.len() > 0 {
        lemma_segments_slash_free(s.drop_last());
        assert(s.drop_last().push(s.last()) =~= s);
    } else {
        assert(s =~= Seq::<char>::empty());
    }
}

proof fn lemma_segments_concat(x: Seq<char>, y: Seq<char>)
    ensures
        segments(x + seq!['/'] + y) == segments(x) + segments(y),
    decreases y.len(),
{
    crate::text::lemma_segments_nonempty(x);
    if y.len() == 0 {
        assert((x + seq!['/'] + y).drop_last() =~= x);
        assert(segments(y) =~= seq![Seq::<char>::empty()]);
        assert(segments(x).push(Seq::empty()) =~= segments(x) + segments(y));
    } else {
        let w = x + seq!['/'] + y;
        lemma_segments_concat(x, y.drop_last());
        assert(w.drop_last() =~= x + seq!['/'] + y.drop_last());
        assert(w.last() == y.last());
        crate::text::lemma_segments_nonempty(y.drop_last());
        let a = segments(x);
        let b = segments(y.drop_last());
        if y.last() == '/' {
            assert((a + b).push(Seq::empty()) =~= a + b.push(Seq::empty()));
        } else {
            assert((a + b).update((a + b).len() - 1, (a + b).last().push(y.last())) =~= a
                + b.update(b.len() - 1, b.last().push(y.last())));
        }
    }
}

/// Splitting pieces joined by `/` gives the pieces back, when none holds a `/`.
pub proof fn lemma_split_join(pieces: Seq<Seq<char>>)
    requires
        pieces.len() >= 1,
        forall|i: int| 0 <= i < pieces.len() ==> slash_free(#[trigger] pieces[i]),
    ensures
        segments(join_slash(pieces)) == pieces,
    decreases pieces.len(),
{
    if pieces.len() == 1 {
        lemma_segments_slash_free(pieces[0]);
        assert(seq![pieces[0]] =~= pieces);
    } else {
        let init = pieces.drop_last();
        assert forall|i: int| 0 <= i < init.len() implies slash_free(#[trigger] init[i]) by {
            assert(init[i] == pieces[i]);
        }
        lemma_split_join(init);
        lemma_segments_concat(join_slash(init), pieces.last());
        lemma_segments_slash_free(pieces.last());
        assert(pieces.last() == pieces[pieces.len() - 1]);
        assert(init + seq![pieces.last()] =~= pieces);
    }
}

} // verus!
