use vstd::prelude::*;
use crate::color::Rgba;
use crate::canvas::{lemma_with_pixel, lemma_with_pixel_restore};
use crate::paint::{CanvasChange, PaintView, MAX_UNDO_STEPS, MAX_SAVED_COLORS, revert, inverse};

verus! {

/// A pixel write as pointer input hands it over: `(x, y, colour)`.
pub type PixelWrite = (usize, usize, Option<Rgba>);

/// The session after the first `k` writes of `ops`, each recorded and then
/// committed as a stroke of its own.
pub open spec fn record_each_upto(e: PaintView, ops: Seq<PixelWrite>, k: int) -> PaintView
    decreases k,
{
    if k <= 0 {
        e
    } else {
        let op = ops[k - 1];
        record_each_upto(e, ops, k - 1).record(op.0, op.1, op.2).commit()
    }
}

pub open spec fn record_each(e: PaintView, ops: Seq<PixelWrite>) -> PaintView {
    record_each_upto(e, ops, ops.len() as int)
}

/// Whether recording `op` on `e` changes a pixel (is not suppressed).
pub open spec fn takes_effect(e: PaintView, op: PixelWrite) -> bool {
    e.canvas.in_bounds(op.0 as int, op.1 as int) && e.canvas.active_pixel(op.0 as int, op.1 as int) != op.2
}

/// Whether every write of `ops` changes a pixel when its turn comes.
pub open spec fn all_take_effect(e: PaintView, ops: Seq<PixelWrite>) -> bool {
    forall|k: int| 0 <= k < ops.len() ==> takes_effect(#[trigger] record_each_upto(e, ops, k), ops[k])
}

pub open spec fn undo_times(e: PaintView, n: nat) -> PaintView
    decreases n,
{
    if n == 0 {
        e
    } else {
        undo_times(e, (n - 1) as nat).undo()
    }
}

pub open spec fn redo_times(e: PaintView, n: nat) -> PaintView
    decreases n,
{
    if n == 0 {
        e
    } else {
        redo_times(e, (n - 1) as nat).redo()
    }
}

/// The stroke that the `j`-th write (counting from 1) commits.
pub open spec fn stroke_of(e: PaintView, ops: Seq<PixelWrite>, j: int) -> Seq<CanvasChange> {
    let op = ops[j - 1];
    let before = record_each_upto(e, ops, j - 1);
    seq![CanvasChange {
        x: op.0,
        y: op.1,
        layer_index: e.canvas.active as usize,
        old_color: before.canvas.active_pixel(op.0 as int, op.1 as int),
        new_color: op.2,
    }]
}

proof fn lemma_record_each_shape(e: PaintView, ops: Seq<PixelWrite>, k: int)
    requires
        e.wf(),
        e.pending.len() == 0,
        0 <= k <= ops.len(),
        ops.len() <= MAX_UNDO_STEPS,
        all_take_effect(e, ops),
    ensures
        ({
            let s = record_each_upto(e, ops, k);
            &&& s.wf()
            &&& s.pending.len() == 0
            &&& s.canvas.active == e.canvas.active
            &&& s.canvas.layers.len() == e.canvas.layers.len()
            &&& k >= 1 ==> s.redo.len() == 0
            &&& k >= 1 ==> s.canvas == record_each_upto(e, ops, k - 1).canvas.with_pixel(
                e.canvas.active as int,
                ops[k - 1].0 as int,
                ops[k - 1].1 as int,
                ops[k - 1].2,
            )
            &&& s.undo.len() >= k
            &&& forall|j: int| 1 <= j <= k ==> s.undo[s.undo.len() - 1 - (k - j)] == #[trigger] stroke_of(e, ops, j)
        }),
    decreases k,
{
    if k > 0 {
        lemma_record_each_shape(e, ops, k - 1);
        let p = record_each_upto(e, ops, k - 1);
        let op = ops[k - 1];
        assert(takes_effect(record_each_upto(e, ops, k - 1), ops[k - 1]));
        let r = p.record(op.0, op.1, op.2);
        lemma_with_pixel(p.canvas, p.canvas.active as int, op.0 as int, op.1 as int, op.2);
        assert(r.pending =~= stroke_of(e, ops, k));
        let s = r.commit();
        assert(s == record_each_upto(e, ops, k));
        let u = p.undo.push(r.pending);
        assert forall|j: int| 1 <= j <= k implies s.undo[s.undo.len() - 1 - (k - j)] == #[trigger] stroke_of(e, ops, j) by {
            if j < k {
                assert(u[u.len() - 1 - (k - j)] == p.undo[p.undo.len() - 1 - (k - 1 - j)]);
            }
        }
    }
}

proof fn lemma_revert_single(c: crate::canvas::CanvasView, ch: CanvasChange)
    ensures
        revert(c, seq![ch]) == c.with_pixel(ch.layer_index as int, ch.x as int, ch.y as int, ch.old_color),
        inverse(c, seq![ch]) == seq![CanvasChange {
            old_color: c.pixel_in(ch.layer_index as int, ch.x as int, ch.y as int),
            new_color: ch.old_color,
            ..ch
        }],
{
    let s = seq![ch];
    assert(s.drop_last() =~= Seq::<CanvasChange>::empty());
    let c1 = c.with_pixel(ch.layer_index as int, ch.x as int, ch.y as int, ch.old_color);
    assert(revert(c1, Seq::<CanvasChange>::empty()) == c1);
    assert(inverse(c1, Seq::<CanvasChange>::empty()) == Seq::<CanvasChange>::empty());
    assert(inverse(c, s) =~= seq![CanvasChange {
            old_color: c.pixel_in(ch.layer_index as int, ch.x as int, ch.y as int),
            new_color: ch.old_color,
            ..ch
        }]);
}

/// The inverse that undoing the `k`-th write's stroke records.
pub open spec fn inverse_of(e: PaintView, ops: Seq<PixelWrite>, k: int) -> Seq<CanvasChange> {
    inverse(record_each_upto(e, ops, k).canvas, stroke_of(e, ops, k))
}

proof fn lemma_undo_steps(e: PaintView, ops: Seq<PixelWrite>, j: int)
    requires
        e.wf(),
        e.pending.len() == 0,
        1 <= ops.len() <= MAX_UNDO_STEPS,
        0 <= j <= ops.len(),
        all_take_effect(e, ops),
    ensures
        ({
            let n = ops.len() as int;
            let top = record_each(e, ops);
            let u = undo_times(top, j as nat);
            &&& u.canvas == record_each_upto(e, ops, n - j).canvas
            &&& u.undo == top.undo.take(top.undo.len() - j)
            &&& u.redo.len() == j
            &&& forall|i: int| 0 <= i < j ==> u.redo[i] == #[trigger] inverse_of(e, ops, n - i)
        }),
    decreases j,
{
    let n = ops.len() as int;
    let top = record_each(e, ops);
    lemma_record_each_shape(e, ops, n);
    if j == 0 {
        assert(top.undo.take(top.undo.len() as int) =~= top.undo);
    } else {
        lemma_undo_steps(e, ops, j - 1);
        let p = undo_times(top, (j - 1) as nat);
        let k = n - j + 1;
        lemma_record_each_shape(e, ops, k);
        let sk = record_each_upto(e, ops, k);
        let sk1 = record_each_upto(e, ops, k - 1);
        lemma_record_each_shape(e, ops, k - 1);
        assert(p.undo.last() == top.undo[top.undo.len() - 1 - (n - k)]);
        assert(p.undo.last() == stroke_of(e, ops, k));
        let st = stroke_of(e, ops, k);
        lemma_revert_single(sk.canvas, st[0]);
        assert(st =~= seq![st[0]]);
        lemma_with_pixel_restore(sk1.canvas, e.canvas.active as int, ops[k - 1].0 as int, ops[k - 1].1 as int, ops[k - 1].2);
        let u = p.undo();
        assert(u.undo =~= top.undo.take(top.undo.len() - j));
        assert forall|i: int| 0 <= i < j implies u.redo[i] == #[trigger] inverse_of(e, ops, n - i) by {
            if i < j - 1 {
                assert(u.redo[i] == p.redo[i]);
            }
        }
    }
}

proof fn lemma_redo_steps(e: PaintView, ops: Seq<PixelWrite>, i: int)
    requires
        e.wf(),
        e.pending.len() == 0,
        1 <= ops.len() <= MAX_UNDO_STEPS,
        0 <= i <= ops.len(),
        all_take_effect(e, ops),
    ensures
        ({
            let n = ops.len() as int;
            let bottom = undo_times(record_each(e, ops), n as nat);
            let r = redo_times(bottom, i as nat);
            &&& r.canvas == record_each_upto(e, ops, i).canvas
            &&& r.redo == bottom.redo.take(n - i)
        }),
    decreases i,
{
    let n = ops.len() as int;
    let bottom = undo_times(record_each(e, ops), n as nat);
    lemma_undo_steps(e, ops, n);
    if i == 0 {
        assert(bottom.redo.take(n) =~= bottom.redo);
    } else {
        lemma_redo_steps(e, ops, i - 1);
        let p = redo_times(bottom, (i - 1) as nat);
        lemma_record_each_shape(e, ops, i);
        lemma_record_each_shape(e, ops, i - 1);
        let si = record_each_upto(e, ops, i);
        let si1 = record_each_upto(e, ops, i - 1);
        assert(p.redo.last() == bottom.redo[n - i]);
        assert(bottom.redo[n - i] == inverse_of(e, ops, n - (n - i)));
        assert(p.redo.last() == inverse_of(e, ops, i));
        let st = stroke_of(e, ops, i);
        lemma_revert_single(si.canvas, st[0]);
        assert(st =~= seq![st[0]]);
        lemma_with_pixel(si1.canvas, e.canvas.active as int, ops[i - 1].0 as int, ops[i - 1].1 as int, ops[i - 1].2);
        let inv = inverse_of(e, ops, i);
        lemma_revert_single(si1.canvas, inv[0]);
        assert(inv =~= seq![inv[0]]);
        let r = p.redo();
        assert(r.redo =~= bottom.redo.take(n - i));
    }
}

/// Undo and redo are inverse: after `n` pixel writes that each change a pixel
/// and are each committed as a stroke (at most as many as the undo stack
/// keeps), `n` undos bring back the canvas from before the writes, and `n`
/// redos after them bring back the canvas from after the writes.
pub proof fn lemma_undo_redo_inverse(e: PaintView, ops: Seq<PixelWrite>)
    requires
        e.wf(),
        e.pending.len() == 0,
        ops.len() <= MAX_UNDO_STEPS,
        all_take_effect(e, ops),
    ensures
        undo_times(record_each(e, ops), ops.len()).canvas == e.canvas,
        redo_times(undo_times(record_each(e, ops), ops.len()), ops.len()).canvas == record_each(e, ops).canvas,
{
    if ops.len() > 0 {
        lemma_undo_steps(e, ops, ops.len() as int);
        lemma_redo_steps(e, ops, ops.len() as int);
    }
}

} // verus!

verus! {

/// Recording the colour a pixel of the active layer already has changes
/// nothing: no change is pending and the history is untouched.
pub proof fn lemma_record_same_color_is_noop(v: PaintView, x: usize, y: usize, c: Option<Rgba>)
    requires
        v.canvas.active_pixel(x as int, y as int) == c,
    ensures
        v.record(x, y, c) == v,
{
}

/// The last `m` items of `s`, or all of them when there are fewer.
pub open spec fn keep_last<T>(s: Seq<T>, m: nat) -> Seq<T> {
    if s.len() > m {
        s.subrange(s.len() - m, s.len() as int)
    } else {
        s
    }
}

/// The session after committing each of `strokes` in turn as the pending
/// changes.
pub open spec fn commit_each(v: PaintView, strokes: Seq<Seq<CanvasChange>>) -> PaintView
    decreases strokes.len(),
{
    if strokes.len() == 0 {
        v
    } else {
        let p = commit_each(v, strokes.drop_last());
        PaintView { pending: strokes.last(), ..p }.commit()
    }
}

/// The undo stack is bounded: after committing non-empty strokes in turn, it
/// holds the most recent `MAX_UNDO_STEPS` of all strokes committed so far,
/// oldest first, the older ones evicted.
pub proof fn lemma_bounded_history(v: PaintView, strokes: Seq<Seq<CanvasChange>>)
    requires
        v.undo.len() <= MAX_UNDO_STEPS,
        forall|i: int| 0 <= i < strokes.len() ==> #[trigger] strokes[i].len() > 0,
    ensures
        commit_each(v, strokes).undo == keep_last(v.undo + strokes, MAX_UNDO_STEPS as nat),
    decreases strokes.len(),
{
    if strokes.len() > 0 {
        let init = strokes.drop_last();
        lemma_bounded_history(v, init);
        let p = commit_each(v, init);
        let s = strokes.last();
        assert(strokes[strokes.len() - 1].len() > 0);
        let u = p.undo.push(s);
        let all = v.undo + strokes;
        assert(all =~= (v.undo + init).push(s));
        assert(keep_last(v.undo + strokes, MAX_UNDO_STEPS as nat) =~= keep_last(u, MAX_UNDO_STEPS as nat));
        assert(PaintView { pending: s, ..p }.commit().undo =~= keep_last(u, MAX_UNDO_STEPS as nat));
    }
}

/// The palette after offering each of `colors` in turn.
pub open spec fn offer_each(saved: Seq<Rgba>, colors: Seq<Rgba>) -> Seq<Rgba>
    decreases colors.len(),
{
    if colors.len() == 0 {
        saved
    } else {
        PaintView::palette_with(offer_each(saved, colors.drop_last()), colors.last())
    }
}

/// The saved palette is bounded: offering colours that are all new, in turn,
/// keeps the most recent `MAX_SAVED_COLORS` of the palette and the offered
/// colours, oldest first.
pub proof fn lemma_palette_bound(saved: Seq<Rgba>, colors: Seq<Rgba>)
    requires
        saved.len() <= MAX_SAVED_COLORS,
        (saved + colors).no_duplicates(),
    ensures
        offer_each(saved, colors) == keep_last(saved + colors, MAX_SAVED_COLORS as nat),
    decreases colors.len(),
{
    if colors.len() > 0 {
        let init = colors.drop_last();
        let c = colors.last();
        let all = saved + colors;
        assert((saved + init) =~= all.drop_last());
        assert forall|i: int, j: int| 0 <= i < (saved + init).len() && 0 <= j < (saved + init).len() && i != j
            implies (saved + init)[i] != (saved + init)[j] by {
            assert((saved + init)[i] == all[i] && (saved + init)[j] == all[j]);
        }
        lemma_palette_bound(saved, init);
        let p = offer_each(saved, init);
        assert(all[all.len() - 1] == c);
        assert(!p.contains(c)) by {
            if p.contains(c) {
                let k = choose|k: int| 0 <= k < p.len() && p[k] == c;
                let m = MAX_SAVED_COLORS as nat;
                let base = saved + init;
                let off = if base.len() > m { base.len() - m } else { 0 };
                assert(p[k] == base[k + off]);
                assert(all[k + off] == all[all.len() - 1]);
            }
        }
        assert(all =~= (saved + init).push(c));
        assert(keep_last(all, MAX_SAVED_COLORS as nat) =~= keep_last(p.push(c), MAX_SAVED_COLORS as nat));
        assert(PaintView::palette_with(p, c) =~= keep_last(p.push(c), MAX_SAVED_COLORS as nat));
    }
}

} // verus!
