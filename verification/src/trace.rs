use vstd::prelude::*;
use crate::rect::Rect;
use crate::widget::{Event, Widget};

verus! {

/// A change made to a widget from outside: an event handed to it with its
/// parent's rectangle, a move (see [`Widget::set_pos`]) or a resize (see
/// [`Widget::set_size`]).
pub enum Change {
    Event(Event, Rect),
    MoveTo(i32, i32),
    Resize(u32, u32),
}

/// `v` after the changes `ops`, made in turn, each by `f`.
pub open spec fn replay<V>(v: V, ops: Seq<Change>, f: spec_fn(V, Change) -> V) -> V
    decreases ops.len(),
{
    if ops.len() == 0 {
        v
    } else {
        replay(f(v, ops[0]), ops.drop_first(), f)
    }
}

/// Replaying `c` and then `ops` is replaying `ops` from what `c` made.
pub broadcast proof fn lemma_replay_first<V>(v: V, c: Change, ops: Seq<Change>, f: spec_fn(V, Change) -> V)
    ensures
        #[trigger] replay(v, seq![c] + ops, f) == replay(f(v, c), ops, f),
{
    assert((seq![c] + ops).drop_first() =~= ops);
}

/// A container's state after the changes `ops`, made in turn, each by `f`,
/// and the changes it made to its child meanwhile, in order.
pub open spec fn relay<V>(v: V, ops: Seq<Change>, f: spec_fn(V, Change) -> (V, Seq<Change>)) -> (V, Seq<Change>)
    decreases ops.len(),
{
    if ops.len() == 0 {
        (v, Seq::empty())
    } else {
        let (v1, c1) = f(v, ops[0]);
        let (v2, c2) = relay(v1, ops.drop_first(), f);
        (v2, c1 + c2)
    }
}

/// Relaying `c` and then `ops` is relaying `ops` from what `c` made, the
/// child's changes for `c` first.
pub broadcast proof fn lemma_relay_first<V>(v: V, c: Change, ops: Seq<Change>, f: spec_fn(V, Change) -> (V, Seq<Change>))
    ensures
        #[trigger] relay(v, seq![c] + ops, f) == ({
            let (v1, c1) = f(v, c);
            let (v2, c2) = relay(v1, ops, f);
            (v2, c1 + c2)
        }),
{
    assert((seq![c] + ops).drop_first() =~= ops);
}

/// Making no change first leaves a run of changes as it is.
pub broadcast proof fn lemma_nothing_first(ops: Seq<Change>)
    ensures
        #[trigger] (Seq::<Change>::empty() + ops) == ops,
{
    assert(Seq::<Change>::empty() + ops =~= ops);
}

/// The changes that lay a child out over `area`: a move to its top-left
/// corner, then a resize to its size.
pub open spec fn layout_changes(area: Rect) -> Seq<Change> {
    seq![Change::MoveTo(area.x, area.y), Change::Resize(area.w, area.h)]
}

/// What `child`, if there is one, paints over `pix` once the changes `cs`
/// have been made to it.
pub open spec fn child_painted_after(
    child: Option<Box<dyn Widget>>,
    cs: Seq<Change>,
    pix: Seq<u32>,
    w: int,
    h: int,
    font: Seq<u8>,
) -> Seq<u32> {
    match child {
        Some(c) => c.painted_after(cs, pix, w, h, font),
        None => pix,
    }
}

/// Whether the child `after` behaves, under any further changes, as the
/// child `before` does once the changes `cs` have been made to it: the
/// same bounds, the same painting and the same answers. There is a child
/// after exactly when there was one before.
pub open spec fn child_follows(after: Option<Box<dyn Widget>>, before: Option<Box<dyn Widget>>, cs: Seq<Change>) -> bool {
    match (before, after) {
        (Some(b), Some(a)) => {
            &&& forall|ops: Seq<Change>| #[trigger] a.bounds_after(ops) == b.bounds_after(cs + ops)
            &&& forall|ops: Seq<Change>, pix: Seq<u32>, cw: int, ch: int, font: Seq<u8>|
                #[trigger] a.painted_after(ops, pix, cw, ch, font) == b.painted_after(cs + ops, pix, cw, ch, font)
            &&& forall|ops: Seq<Change>, e: Event, p: Rect|
                #[trigger] a.answer_after(ops, e, p) == b.answer_after(cs + ops, e, p)
        },
        (None, None) => true,
        _ => false,
    }
}

/// The first of a run of changes made with `c` first is `c`, and the rest
/// are the run.
pub broadcast proof fn lemma_first_change(c: Change, ops: Seq<Change>)
    ensures
        #[trigger] (seq![c] + ops).drop_first() == ops,
        (seq![c] + ops).len() == ops.len() + 1,
        (seq![c] + ops)[0] == c,
{
    assert((seq![c] + ops).drop_first() =~= ops);
}

/// The bounds of `child`, if there is one, once the changes `cs` have been
/// made to it.
pub open spec fn child_bounds(child: Option<Box<dyn Widget>>, cs: Seq<Change>) -> Rect {
    match child {
        Some(c) => c.bounds_after(cs),
        None => Rect { x: 0, y: 0, w: 0, h: 0 },
    }
}

} // verus!
