//! Reply coalescing: of the reply kinds that only repaint state — track
//! identity, length, position, pause state — one drained batch keeps only
//! the last of each kind, appended after the replies that are kept in
//! arrival order.

use vstd::prelude::*;

use crate::messages::Reply;

verus! {

/// Track-identity replies coalesce into one bucket.
pub open spec fn is_tracklike(r: Reply) -> bool {
    r is CurrentTrack || r is NewTrack
}

pub open spec fn is_length(r: Reply) -> bool {
    r is Length
}

pub open spec fn is_pos(r: Reply) -> bool {
    r is Pos
}

pub open spec fn is_paused(r: Reply) -> bool {
    r is Paused
}

/// Replies that are kept in arrival order.
pub open spec fn is_kept(r: Reply) -> bool {
    r is TrackInfo || r is Vol
}

/// The last reply of a kind, as an empty or one-element sequence.
pub open spec fn last_of(s: Seq<Reply>, p: spec_fn(Reply) -> bool) -> Seq<Reply> {
    let f = s.filter(p);
    if f.len() == 0 {
        Seq::empty()
    } else {
        seq![f.last()]
    }
}

/// What one drained batch coalesces to.
pub open spec fn coalesce_spec(s: Seq<Reply>) -> Seq<Reply> {
    s.filter(|r: Reply| is_kept(r)) + last_of(s, |r: Reply| is_tracklike(r)) + last_of(
        s,
        |r: Reply| is_length(r),
    ) + last_of(s, |r: Reply| is_pos(r)) + last_of(s, |r: Reply| is_paused(r))
}

/// Coalesce one drained batch.
pub fn coalesce(batch: Vec<Reply>) -> (r: Vec<Reply>)
    ensures
        r@ =~= coalesce_spec(batch@),
{
    broadcast use vstd::seq::Seq::lemma_filter_push;

    let ghost full = batch@;
    let mut kept: Vec<Reply> = Vec::new();
    let mut last_track: Option<Reply> = Option::None;
    let mut last_length: Option<Reply> = Option::None;
    let mut last_pos: Option<Reply> = Option::None;
    let mut last_paused: Option<Reply> = Option::None;
    let mut rest = batch;
    let ghost mut seen: Seq<Reply> = Seq::empty();
    while rest.len() > 0
        invariant
            seen + rest@ =~= full,
            kept@ =~= seen.filter(|r: Reply| is_kept(r)),
            (match last_track {
                Option::Some(v) => last_of(seen, |r: Reply| is_tracklike(r)) =~= seq![v],
                Option::None => last_of(seen, |r: Reply| is_tracklike(r)) =~= Seq::<Reply>::empty(),
            }),
            (match last_length {
                Option::Some(v) => last_of(seen, |r: Reply| is_length(r)) =~= seq![v],
                Option::None => last_of(seen, |r: Reply| is_length(r)) =~= Seq::<Reply>::empty(),
            }),
            (match last_pos {
                Option::Some(v) => last_of(seen, |r: Reply| is_pos(r)) =~= seq![v],
                Option::None => last_of(seen, |r: Reply| is_pos(r)) =~= Seq::<Reply>::empty(),
            }),
            (match last_paused {
                Option::Some(v) => last_of(seen, |r: Reply| is_paused(r)) =~= seq![v],
                Option::None => last_of(seen, |r: Reply| is_paused(r)) =~= Seq::<Reply>::empty(),
            }),
        decreases rest@.len(),
    {
        let m = rest.remove(0);
        let ghost prev_seen = seen;
        proof {
            assert(seen.push(m) + rest@ =~= full);
            prev_seen.lemma_filter_push(m, |r: Reply| is_kept(r));
            prev_seen.lemma_filter_push(m, |r: Reply| is_tracklike(r));
            prev_seen.lemma_filter_push(m, |r: Reply| is_length(r));
            prev_seen.lemma_filter_push(m, |r: Reply| is_pos(r));
            prev_seen.lemma_filter_push(m, |r: Reply| is_paused(r));
        }
        match m {
            Reply::CurrentTrack(_) => {
                last_track = Option::Some(m);
            },
            Reply::NewTrack(_) => {
                last_track = Option::Some(m);
            },
            Reply::Length(_) => {
                last_length = Option::Some(m);
            },
            Reply::Pos(_) => {
                last_pos = Option::Some(m);
            },
            Reply::Paused(_) => {
                last_paused = Option::Some(m);
            },
            _ => {
                kept.push(m);
            },
        }
        proof {
            seen = seen.push(m);
        }
    }
    proof {
        assert(seen =~= full);
    }
    let mut out = kept;
    if let Option::Some(v) = last_track {
        out.push(v);
    }
    if let Option::Some(v) = last_length {
        out.push(v);
    }
    if let Option::Some(v) = last_pos {
        out.push(v);
    }
    if let Option::Some(v) = last_paused {
        out.push(v);
    }
    out
}

/// A sequence whose entries all fail `p` filters to nothing.
proof fn lemma_filter_none<A>(s: Seq<A>, p: spec_fn(A) -> bool)
    requires
        forall|i: int| 0 <= i < s.len() ==> !p(#[trigger] s[i]),
    ensures
        s.filter(p) =~= Seq::<A>::empty(),
    decreases s.len(),
{
    reveal(Seq::filter);
    if s.len() > 0 {
        assert(forall|i: int| 0 <= i < s.len() - 1 ==> s.drop_last()[i] == s[i]);
        lemma_filter_none(s.drop_last(), p);
    }
}

/// A sequence whose entries all pass `p` filters to itself.
proof fn lemma_filter_all<A>(s: Seq<A>, p: spec_fn(A) -> bool)
    requires
        forall|i: int| 0 <= i < s.len() ==> p(#[trigger] s[i]),
    ensures
        s.filter(p) =~= s,
    decreases s.len(),
{
    reveal(Seq::filter);
    if s.len() > 0 {
        assert(forall|i: int| 0 <= i < s.len() - 1 ==> s.drop_last()[i] == s[i]);
        lemma_filter_all(s.drop_last(), p);
        assert(s.drop_last().push(s.last()) =~= s);
    }
}

/// Each entry of a filtered sequence passes the filter.
proof fn lemma_filter_entries<A>(s: Seq<A>, p: spec_fn(A) -> bool)
    ensures
        forall|i: int| 0 <= i < s.filter(p).len() ==> p(#[trigger] s.filter(p)[i]),
    decreases s.len(),
{
    reveal(Seq::filter);
    if s.len() > 0 {
        lemma_filter_entries(s.drop_last(), p);
    }
}

/// Coalescing a coalesced batch changes nothing: the pass is idempotent.
pub proof fn lemma_coalesce_idempotent(s: Seq<Reply>)
    ensures
        coalesce_spec(coalesce_spec(s)) =~= coalesce_spec(s),
{
    broadcast use vstd::seq::Seq::filter_distributes_over_add;

    let kept = s.filter(|r: Reply| is_kept(r));
    let t = last_of(s, |r: Reply| is_tracklike(r));
    let l = last_of(s, |r: Reply| is_length(r));
    let p = last_of(s, |r: Reply| is_pos(r));
    let pd = last_of(s, |r: Reply| is_paused(r));
    let c = coalesce_spec(s);
    lemma_filter_entries(s, |r: Reply| is_kept(r));
    lemma_filter_entries(s, |r: Reply| is_tracklike(r));
    lemma_filter_entries(s, |r: Reply| is_length(r));
    lemma_filter_entries(s, |r: Reply| is_pos(r));
    lemma_filter_entries(s, |r: Reply| is_paused(r));
    // each piece filters back to itself or to nothing
    lemma_filter_all(kept, |r: Reply| is_kept(r));
    lemma_filter_none(kept, |r: Reply| is_tracklike(r));
    lemma_filter_none(kept, |r: Reply| is_length(r));
    lemma_filter_none(kept, |r: Reply| is_pos(r));
    lemma_filter_none(kept, |r: Reply| is_paused(r));
    lemma_piece(t, |r: Reply| is_tracklike(r));
    lemma_piece(l, |r: Reply| is_length(r));
    lemma_piece(p, |r: Reply| is_pos(r));
    lemma_piece(pd, |r: Reply| is_paused(r));
    // a piece of one kind contributes nothing to the other buckets
    lemma_filter_none(t, |r: Reply| is_kept(r));
    lemma_filter_none(t, |r: Reply| is_length(r));
    lemma_filter_none(t, |r: Reply| is_pos(r));
    lemma_filter_none(t, |r: Reply| is_paused(r));
    lemma_filter_none(l, |r: Reply| is_kept(r));
    lemma_filter_none(l, |r: Reply| is_tracklike(r));
    lemma_filter_none(l, |r: Reply| is_pos(r));
    lemma_filter_none(l, |r: Reply| is_paused(r));
    lemma_filter_none(p, |r: Reply| is_kept(r));
    lemma_filter_none(p, |r: Reply| is_tracklike(r));
    lemma_filter_none(p, |r: Reply| is_length(r));
    lemma_filter_none(p, |r: Reply| is_paused(r));
    lemma_filter_none(pd, |r: Reply| is_kept(r));
    lemma_filter_none(pd, |r: Reply| is_tracklike(r));
    lemma_filter_none(pd, |r: Reply| is_length(r));
    lemma_filter_none(pd, |r: Reply| is_pos(r));
    assert(c.filter(|r: Reply| is_kept(r)) =~= kept);
    assert(c.filter(|r: Reply| is_tracklike(r)) =~= t);
    assert(c.filter(|r: Reply| is_length(r)) =~= l);
    assert(c.filter(|r: Reply| is_pos(r)) =~= p);
    assert(c.filter(|r: Reply| is_paused(r)) =~= pd);
    assert(last_of(c, |r: Reply| is_tracklike(r)) =~= t);
    assert(last_of(c, |r: Reply| is_length(r)) =~= l);
    assert(last_of(c, |r: Reply| is_pos(r)) =~= p);
    assert(last_of(c, |r: Reply| is_paused(r)) =~= pd);
}

/// An empty-or-single piece of its own kind filters to itself and holds
/// no entries of the other coalesced kinds.
proof fn lemma_piece(t: Seq<Reply>, p: spec_fn(Reply) -> bool)
    requires
        forall|i: int| 0 <= i < t.len() ==> p(#[trigger] t[i]),
        t.len() <= 1,
    ensures
        t.filter(p) =~= t,
        t.len() == 1 ==> last_of(t, p) =~= t,
        t.len() == 0 ==> last_of(t, p) =~= Seq::<Reply>::empty(),
{
    lemma_filter_all(t, p);
}

/// Two replies of one coalesced kind.
pub open spec fn same_kind(a: Reply, b: Reply) -> bool {
    ||| (is_tracklike(a) && is_tracklike(b))
    ||| (is_length(a) && is_length(b))
    ||| (is_pos(a) && is_pos(b))
    ||| (is_paused(a) && is_paused(b))
}

/// How one bucket reads a batch split around a single reply.
proof fn lemma_last_of_parts(a: Seq<Reply>, m: Seq<Reply>, b: Seq<Reply>, q: spec_fn(Reply) -> bool)
    requires
        m.len() == 1,
    ensures
        !q(m[0]) ==> (a + m + b).filter(q) =~= (a + b).filter(q),
        b.filter(q).len() > 0 ==> last_of(a + m + b, q) =~= last_of(a + b, q),
{
    broadcast use vstd::seq::Seq::filter_distributes_over_add;

    assert(m.filter(q) =~= if q(m[0]) {
        m
    } else {
        Seq::<Reply>::empty()
    }) by {
        reveal(Seq::filter);
        assert(m.drop_last() =~= Seq::<Reply>::empty());
        assert(Seq::<Reply>::empty().filter(q) =~= Seq::<Reply>::empty());
        assert(m.drop_last().filter(q) =~= Seq::<Reply>::empty());
        assert(m.last() == m[0]);
    }
    assert((a + m + b).filter(q) =~= a.filter(q) + m.filter(q) + b.filter(q));
    assert((a + b).filter(q) =~= a.filter(q) + b.filter(q));
    if b.filter(q).len() > 0 {
        let f1 = (a + m + b).filter(q);
        let f2 = (a + b).filter(q);
        assert(f1.len() > 0 && f2.len() > 0);
        assert(f1.last() == b.filter(q).last());
        assert(f2.last() == b.filter(q).last());
    }
}

/// Dropping a coalesced-kind reply that a later reply of the same kind
/// supersedes leaves the coalesced batch unchanged: only the last of
/// each kind influences the redraw.
pub proof fn lemma_coalesce_drops_superseded(s: Seq<Reply>, i: int)
    requires
        0 <= i < s.len(),
        !is_kept(s[i]),
        exists|j: int| i < j < s.len() && same_kind(#[trigger] s[j], s[i]),
    ensures
        coalesce_spec(s.remove(i)) =~= coalesce_spec(s),
{
    let a = s.subrange(0, i);
    let m = s.subrange(i, i + 1);
    let b = s.subrange(i + 1, s.len() as int);
    assert(s =~= a + m + b);
    assert(s.remove(i) =~= a + b);
    assert(m[0] == s[i]);
    let j = choose|j: int| i < j < s.len() && same_kind(#[trigger] s[j], s[i]);
    assert(b[j - i - 1] == s[j]);
    lemma_last_of_parts(a, m, b, |r: Reply| is_kept(r));
    lemma_last_of_parts(a, m, b, |r: Reply| is_tracklike(r));
    lemma_last_of_parts(a, m, b, |r: Reply| is_length(r));
    lemma_last_of_parts(a, m, b, |r: Reply| is_pos(r));
    lemma_last_of_parts(a, m, b, |r: Reply| is_paused(r));
    // the later reply of the same kind keeps that bucket populated
    if is_tracklike(s[i]) {
        b.lemma_filter_contains(|r: Reply| is_tracklike(r), j - i - 1);
    }
    if is_length(s[i]) {
        b.lemma_filter_contains(|r: Reply| is_length(r), j - i - 1);
    }
    if is_pos(s[i]) {
        b.lemma_filter_contains(|r: Reply| is_pos(r), j - i - 1);
    }
    if is_paused(s[i]) {
        b.lemma_filter_contains(|r: Reply| is_paused(r), j - i - 1);
    }
    assert(coalesce_spec(a + m + b) =~= coalesce_spec(a + b));
}

} // verus!
