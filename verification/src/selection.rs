//! Text selection by dragging the mouse over the pieces of the data
//! buffer, and the selected text that goes to the clipboard.

use vstd::prelude::*;
use crate::board::views;
use crate::data::{RichData, RichDataView};
use crate::geometry::{ClickPoint, spec_span};
use crate::piece::{LinePieceView, selected_chars};

verus! {

/// A selected piece: segment index, piece index and the selected range.
pub type Step = (int, int, (usize, usize));

/// The number of pieces of segment `k`, or none past the buffer.
pub open spec fn piece_count(bufs: Seq<RichDataView>, k: int) -> int {
    if 0 <= k < bufs.len() { bufs[k].line_pieces.len() as int } else { 0 }
}

/// The whole range of piece `j` of segment `k`.
pub open spec fn full_range(bufs: Seq<RichDataView>, k: int, j: int) -> (usize, usize) {
    (0usize, bufs[k].line_pieces[j].line.len() as usize)
}

/// Pieces `lo` up to `hi` of segment `k`, where they exist, each selected
/// whole.
pub open spec fn span_steps(bufs: Seq<RichDataView>, k: int, lo: int, hi: int) -> Seq<Step>
    decreases hi - lo,
{
    if lo >= hi || lo >= piece_count(bufs, k) || lo < 0 {
        Seq::empty()
    } else {
        seq![(k, lo, full_range(bufs, k, lo))] + span_steps(bufs, k, lo + 1, hi)
    }
}

/// All pieces of segments `lo` up to `hi`, where they exist, each selected
/// whole.
pub open spec fn rows_steps(bufs: Seq<RichDataView>, lo: int, hi: int) -> Seq<Step>
    decreases hi - lo,
{
    if lo >= hi {
        Seq::empty()
    } else {
        span_steps(bufs, lo, 0, piece_count(bufs, lo)) + rows_steps(bufs, lo + 1, hi)
    }
}

/// Piece `j` of segment `k` selected over `range`, where it exists.
pub open spec fn one_step(bufs: Seq<RichDataView>, k: int, j: int, range: (usize, usize)) -> Seq<Step> {
    if 0 <= j < piece_count(bufs, k) { seq![(k, j, range)] } else { Seq::empty() }
}

/// Piece `j` of segment `k` selected from character `pos` to its end.
pub open spec fn from_step(bufs: Seq<RichDataView>, k: int, j: int, pos: usize) -> Seq<Step> {
    if 0 <= j < piece_count(bufs, k) {
        seq![(k, j, (pos, bufs[k].line_pieces[j].line.len() as usize))]
    } else {
        Seq::empty()
    }
}

/// Whether the drag starts at the lower corner, so that the points swap:
/// the start is the bottom right or the bottom left corner of the dragged
/// rectangle.
pub open spec fn swaps(from: ClickPoint, to: ClickPoint) -> bool {
    let (x0, y0, w, h) = spec_span(from.x as int, from.y as int, to.x as int, to.y as int);
    (x0 + w == from.x && y0 + h == from.y) || (x0 == from.x && y0 + h == from.y)
}

/// The pieces a drag from `from` to `to` over segments `r_start` to
/// `r_end` selects, in order: from the upper point to the end of the
/// first segment, every piece of the segments between, and the last
/// segment up to the lower point; within one segment, from the upper
/// point to the lower one.
pub open spec fn selection_steps(bufs: Seq<RichDataView>, from: ClickPoint, to: ClickPoint, r_start: int, r_end: int) -> Seq<Step> {
    let (lt, br) = if swaps(from, to) { (to, from) } else { (from, to) };
    let (f, t) = (lt.p_i as int, br.p_i as int);
    if r_end - r_start > 0 {
        from_step(bufs, r_start, f, lt.c_i)
            + span_steps(bufs, r_start, f + 1, piece_count(bufs, r_start))
            + rows_steps(bufs, r_start + 1, r_end)
            + span_steps(bufs, r_end, 0, t)
            + one_step(bufs, r_end, t, (0usize, (br.c_i + 1) as usize))
    } else if 0 <= r_start < bufs.len() {
        if t > f {
            from_step(bufs, r_start, f, lt.c_i)
                + span_steps(bufs, r_start, f + 1, t)
                + one_step(bufs, r_start, t, (0usize, (br.c_i + 1) as usize))
        } else {
            let (fci, tci) = if lt.c_i >= br.c_i + 1 { (br.c_i as int, lt.c_i + 1) } else { (lt.c_i as int, br.c_i + 1) };
            one_step(bufs, r_start, f, (fci as usize, tci as usize))
        }
    } else {
        Seq::empty()
    }
}

/// The buffer with the pieces at `sel` deselected.
pub open spec fn deselected(bufs: Seq<RichDataView>, sel: Seq<(usize, usize)>) -> Seq<RichDataView>
    decreases sel.len(),
{
    if sel.len() == 0 {
        bufs
    } else {
        let rest = deselected(bufs, sel.drop_last());
        let (k, j) = sel.last();
        set_range(rest, k as int, j as int, None)
    }
}

/// The buffer with the selection of piece `j` of segment `k` set to `r`,
/// where that piece exists.
pub open spec fn set_range(bufs: Seq<RichDataView>, k: int, j: int, r: Option<(usize, usize)>) -> Seq<RichDataView> {
    if 0 <= k < bufs.len() && 0 <= j < bufs[k].line_pieces.len() {
        bufs.update(k, RichDataView {
            line_pieces: bufs[k].line_pieces.update(j, LinePieceView { selected_range: r, ..bufs[k].line_pieces[j] }),
            ..bufs[k]
        })
    } else {
        bufs
    }
}

/// The buffer with the selections of `steps` applied in order.
pub open spec fn apply_steps(bufs: Seq<RichDataView>, steps: Seq<Step>) -> Seq<RichDataView>
    decreases steps.len(),
{
    if steps.len() == 0 {
        bufs
    } else {
        let (k, j, r) = steps.last();
        set_range(apply_steps(bufs, steps.drop_last()), k, j, Some(r))
    }
}

/// The text the selected pieces `sel` hold, in order.
pub open spec fn selection_text(bufs: Seq<RichDataView>, sel: Seq<(usize, usize)>) -> Seq<char>
    decreases sel.len(),
{
    if sel.len() == 0 {
        Seq::empty()
    } else {
        let (k, j) = sel.last();
        selection_text(bufs, sel.drop_last()) + if k < bufs.len() && j < bufs[k as int].line_pieces.len() {
            let p = bufs[k as int].line_pieces[j as int];
            match p.selected_range {
                Some((a, b)) => selected_chars(p.line, a as nat, b as nat),
                None => Seq::<char>::empty(),
            }
        } else {
            Seq::<char>::empty()
        }
    }
}

/// The locations of the selected pieces.
pub open spec fn step_places(steps: Seq<Step>) -> Seq<(usize, usize)> {
    steps.map_values(|s: Step| (s.0 as usize, s.1 as usize))
}

/// Sets the selection of piece `j` of segment `k`, where it exists.
fn set_piece_range(buffer: &mut Vec<RichData>, k: usize, j: usize, r: Option<(usize, usize)>)
    ensures
        views(final(buffer)@) == set_range(views(old(buffer)@), k as int, j as int, r),
        final(buffer)@.len() == old(buffer)@.len(),
{
    if k < buffer.len() && j < buffer[k].line_pieces.len() {
        buffer[k].line_pieces[j].selected_range = r;
        proof {
            let b0 = views(old(buffer)@);
            let nv = RichDataView {
                line_pieces: b0[k as int].line_pieces.update(j as int, LinePieceView { selected_range: r, ..b0[k as int].line_pieces[j as int] }),
                ..b0[k as int]
            };
            assert(buffer@[k as int]@ =~= nv);
            assert(views(buffer@) =~= b0.update(k as int, nv));
        }
    } else {
        assert(views(buffer@) =~= set_range(views(old(buffer)@), k as int, j as int, r));
    }
}

/// Deselects the pieces at `selected` and empties the list.
pub fn clear_selected_pieces(buffer: &mut Vec<RichData>, selected: &mut Vec<(usize, usize)>)
    ensures
        views(final(buffer)@) == deselected(views(old(buffer)@), old(selected)@),
        final(selected)@.len() == 0,
{
    let mut i: usize = 0;
    assert(old(selected)@.take(0) =~= Seq::<(usize, usize)>::empty());
    while i < selected.len()
        invariant
            i <= selected@.len(),
            selected@ == old(selected)@,
            views(buffer@) == deselected(views(old(buffer)@), selected@.take(i as int)),
        decreases selected@.len() - i,
    {
        let (k, j) = selected[i];
        set_piece_range(buffer, k, j, None);
        proof {
            let t = selected@.take(i + 1);
            assert(t.drop_last() =~= selected@.take(i as int));
            assert(t.last() == (k, j));
        }
        i = i + 1;
    }
    assert(selected@.take(selected@.len() as int) =~= selected@);
    selected.clear();
}

/// The text of the selected pieces at `selected`, in order.
pub fn copy_pieces(buffer: &Vec<RichData>, selected: &Vec<(usize, usize)>) -> (s: String)
    ensures
        s@ == selection_text(views(buffer@), selected@),
{
    let mut s = String::new();
    let mut i: usize = 0;
    assert(selected@.take(0) =~= Seq::<(usize, usize)>::empty());
    while i < selected.len()
        invariant
            i <= selected@.len(),
            s@ == selection_text(views(buffer@), selected@.take(i as int)),
        decreases selected@.len() - i,
    {
        let (k, j) = selected[i];
        let ghost before = s@;
        if k < buffer.len() && j < buffer[k].line_pieces.len() {
            buffer[k].line_pieces[j].copy_selection(&mut s);
            assert(views(buffer@)[k as int].line_pieces[j as int] == buffer@[k as int].line_pieces@[j as int]@);
        } else {
            assert(s@ =~= before + Seq::<char>::empty());
        }
        proof {
            let t = selected@.take(i + 1);
            assert(t.drop_last() =~= selected@.take(i as int));
            assert(t.last() == (k, j));
        }
        i = i + 1;
    }
    assert(selected@.take(selected@.len() as int) =~= selected@);
    s
}

/// Whether two buffers have the same segments and pieces with the same
/// lines; selections may differ.
pub open spec fn same_shape(a: Seq<RichDataView>, b: Seq<RichDataView>) -> bool {
    &&& a.len() == b.len()
    &&& forall|k: int| 0 <= k < a.len() ==> (#[trigger] a[k]).line_pieces.len() == b[k].line_pieces.len()
    &&& forall|k: int, j: int| 0 <= k < a.len() && 0 <= j < a[k].line_pieces.len()
        ==> (#[trigger] a[k].line_pieces[j]).line == b[k].line_pieces[j].line
}

/// Setting a selection keeps the shape.
proof fn lemma_set_range_shape(b: Seq<RichDataView>, k: int, j: int, r: Option<(usize, usize)>)
    ensures
        same_shape(set_range(b, k, j, r), b),
{
    let a = set_range(b, k, j, r);
    assert forall|kk: int, jj: int| 0 <= kk < a.len() && 0 <= jj < a[kk].line_pieces.len()
        implies (#[trigger] a[kk].line_pieces[jj]).line == b[kk].line_pieces[jj].line by {
        if kk == k && 0 <= k < b.len() && 0 <= j < b[k].line_pieces.len() && jj == j {
        }
    }
}

/// The selection steps depend on the shape alone.
proof fn lemma_span_shape(a: Seq<RichDataView>, b: Seq<RichDataView>, k: int, lo: int, hi: int)
    requires
        same_shape(a, b),
    ensures
        span_steps(a, k, lo, hi) == span_steps(b, k, lo, hi),
    decreases hi - lo,
{
    if !(lo >= hi || lo >= piece_count(a, k) || lo < 0) {
        lemma_span_shape(a, b, k, lo + 1, hi);
        assert(a[k].line_pieces[lo].line == b[k].line_pieces[lo].line);
    }
}

/// Whether `done` is what the selection did so far: the buffer is `b1`
/// with these selections, the list records them, and the shape is that of
/// `b0`.
pub open spec fn progress(buf: Seq<RichDataView>, sel: Seq<(usize, usize)>, b0: Seq<RichDataView>, b1: Seq<RichDataView>, done: Seq<Step>) -> bool {
    &&& buf == apply_steps(b1, done)
    &&& sel == step_places(done)
    &&& same_shape(buf, b0)
}

/// Selects piece `j` of segment `k` over `r` and records it.
fn add_step(buffer: &mut Vec<RichData>, selected: &mut Vec<(usize, usize)>, k: usize, j: usize, r: (usize, usize),
    Ghost(b0): Ghost<Seq<RichDataView>>, Ghost(b1): Ghost<Seq<RichDataView>>, Ghost(done): Ghost<Seq<Step>>)
    requires
        progress(views(old(buffer)@), old(selected)@, b0, b1, done),
        k < b0.len(),
        j < b0[k as int].line_pieces.len(),
    ensures
        progress(views(final(buffer)@), final(selected)@, b0, b1, done.push((k as int, j as int, r))),
{
    set_piece_range(buffer, k, j, Some(r));
    selected.push((k, j));
    proof {
        let d1 = done.push((k as int, j as int, r));
        assert(d1.drop_last() =~= done);
        assert(step_places(d1) =~= step_places(done).push((k, j)));
        lemma_set_range_shape(views(old(buffer)@), k as int, j as int, Some(r));
    }
}

/// Selects pieces `lo` up to `hi` of segment `k` whole, where they exist,
/// and records them.
fn select_span(buffer: &mut Vec<RichData>, selected: &mut Vec<(usize, usize)>, k: usize, lo: usize, hi: usize,
    Ghost(b0): Ghost<Seq<RichDataView>>, Ghost(b1): Ghost<Seq<RichDataView>>, Ghost(done): Ghost<Seq<Step>>)
    requires
        progress(views(old(buffer)@), old(selected)@, b0, b1, done),
    ensures
        progress(views(final(buffer)@), final(selected)@, b0, b1, done + span_steps(b0, k as int, lo as int, hi as int)),
{
    let ghost mut now = done;
    assert(done + span_steps(b0, k as int, lo as int, hi as int) =~= now + span_steps(b0, k as int, lo as int, hi as int));
    let count = if k < buffer.len() { buffer[k].line_pieces.len() } else { 0 };
    proof {
        if k < buffer@.len() {
            assert(views(buffer@)[k as int] == buffer@[k as int]@);
        }
    }
    let mut j = lo;
    while j < hi && j < count
        invariant
            lo <= j,
            count == piece_count(b0, k as int),
            progress(views(buffer@), selected@, b0, b1, now),
            done + span_steps(b0, k as int, lo as int, hi as int) == now + span_steps(b0, k as int, j as int, hi as int),
        decreases count - j,
    {
        assert(views(buffer@)[k as int] == buffer@[k as int]@);
        let len = buffer[k].line_pieces[j].line.len();
        assert(buffer@[k as int].line_pieces@[j as int]@.line.len() == len);
        assert(views(buffer@)[k as int].line_pieces[j as int] == buffer@[k as int].line_pieces@[j as int]@);
        assert(views(buffer@)[k as int].line_pieces[j as int].line == b0[k as int].line_pieces[j as int].line);
        assert(full_range(b0, k as int, j as int) == (0usize, len));
        add_step(buffer, selected, k, j, (0, len), Ghost(b0), Ghost(b1), Ghost(now));
        proof {
            let s = (k as int, j as int, (0usize, len));
            assert(span_steps(b0, k as int, j as int, hi as int) == seq![s] + span_steps(b0, k as int, j + 1, hi as int));
            assert(now + span_steps(b0, k as int, j as int, hi as int) =~= now.push(s) + span_steps(b0, k as int, j + 1, hi as int));
            now = now.push(s);
        }
        j = j + 1;
    }
    assert(span_steps(b0, k as int, j as int, hi as int) =~= Seq::<Step>::empty());
    assert(now + Seq::<Step>::empty() =~= now);
}

/// Selects every piece of segments `lo` up to `hi` and records them.
fn select_rows(buffer: &mut Vec<RichData>, selected: &mut Vec<(usize, usize)>, lo: usize, hi: usize,
    Ghost(b0): Ghost<Seq<RichDataView>>, Ghost(b1): Ghost<Seq<RichDataView>>, Ghost(done): Ghost<Seq<Step>>)
    requires
        progress(views(old(buffer)@), old(selected)@, b0, b1, done),
    ensures
        progress(views(final(buffer)@), final(selected)@, b0, b1, done + rows_steps(b0, lo as int, hi as int)),
{
    let ghost mut now = done;
    assert(done + rows_steps(b0, lo as int, hi as int) =~= now + rows_steps(b0, lo as int, hi as int));
    let mut i = lo;
    while i < hi
        invariant
            lo <= i,
            progress(views(buffer@), selected@, b0, b1, now),
            done + rows_steps(b0, lo as int, hi as int) == now + rows_steps(b0, i as int, hi as int),
        decreases hi - i,
    {
        let count = if i < buffer.len() { buffer[i].line_pieces.len() } else { 0 };
        proof {
            if i < buffer@.len() {
                assert(views(buffer@)[i as int] == buffer@[i as int]@);
            }
            assert(count == piece_count(b0, i as int));
        }
        select_span(buffer, selected, i, 0, count, Ghost(b0), Ghost(b1), Ghost(now));
        proof {
            let sp = span_steps(b0, i as int, 0, count as int);
            assert(rows_steps(b0, i as int, hi as int) == sp + rows_steps(b0, i + 1, hi as int));
            assert(now + rows_steps(b0, i as int, hi as int) =~= (now + sp) + rows_steps(b0, i + 1, hi as int));
            now = now + sp;
        }
        i = i + 1;
    }
    assert(rows_steps(b0, i as int, hi as int) =~= Seq::<Step>::empty());
    assert(now + Seq::<Step>::empty() =~= now);
}

/// Selects piece `j` of segment `k` over `r`, where it exists, and records
/// it.
fn select_one(buffer: &mut Vec<RichData>, selected: &mut Vec<(usize, usize)>, k: usize, j: usize, r: (usize, usize),
    Ghost(b0): Ghost<Seq<RichDataView>>, Ghost(b1): Ghost<Seq<RichDataView>>, Ghost(done): Ghost<Seq<Step>>)
    requires
        progress(views(old(buffer)@), old(selected)@, b0, b1, done),
    ensures
        progress(views(final(buffer)@), final(selected)@, b0, b1, done + one_step(b0, k as int, j as int, r)),
{
    if k < buffer.len() && j < buffer[k].line_pieces.len() {
        assert(views(buffer@)[k as int] == buffer@[k as int]@);
        add_step(buffer, selected, k, j, r, Ghost(b0), Ghost(b1), Ghost(done));
        assert(done + one_step(b0, k as int, j as int, r) =~= done.push((k as int, j as int, r)));
    } else {
        proof {
            if k < buffer@.len() {
                assert(views(buffer@)[k as int] == buffer@[k as int]@);
            }
        }
        assert(done + one_step(b0, k as int, j as int, r) =~= done);
    }
}

/// Selects piece `j` of segment `k` from character `pos` to its end,
/// where it exists, and records it.
fn select_from(buffer: &mut Vec<RichData>, selected: &mut Vec<(usize, usize)>, k: usize, j: usize, pos: usize,
    Ghost(b0): Ghost<Seq<RichDataView>>, Ghost(b1): Ghost<Seq<RichDataView>>, Ghost(done): Ghost<Seq<Step>>)
    requires
        progress(views(old(buffer)@), old(selected)@, b0, b1, done),
    ensures
        progress(views(final(buffer)@), final(selected)@, b0, b1, done + from_step(b0, k as int, j as int, pos)),
{
    if k < buffer.len() && j < buffer[k].line_pieces.len() {
        assert(views(buffer@)[k as int] == buffer@[k as int]@);
        let len = buffer[k].line_pieces[j].line.len();
        assert(buffer@[k as int].line_pieces@[j as int]@.line.len() == len);
        assert(views(buffer@)[k as int].line_pieces[j as int] == buffer@[k as int].line_pieces@[j as int]@);
        assert(views(buffer@)[k as int].line_pieces[j as int].line == b0[k as int].line_pieces[j as int].line);
        add_step(buffer, selected, k, j, (pos, len), Ghost(b0), Ghost(b1), Ghost(done));
        assert(done + from_step(b0, k as int, j as int, pos) =~= done.push((k as int, j as int, (pos, len))));
    } else {
        proof {
            if k < buffer@.len() {
                assert(views(buffer@)[k as int] == buffer@[k as int]@);
            }
        }
        assert(done + from_step(b0, k as int, j as int, pos) =~= done);
    }
}

/// Selects the text dragged over from `from_point` to `to_point`, which
/// lie in segments `r_start` and `r_end`: the earlier selection is dropped,
/// the pieces `selection_steps` gives are selected and recorded in order,
/// and their selected text is returned for the clipboard.
pub fn select_text(from_point: &ClickPoint, to_point: &ClickPoint, buffer: &mut Vec<RichData>, r_start: usize, r_end: usize, selected: &mut Vec<(usize, usize)>) -> (s: String)
    requires
        r_start <= r_end,
        from_point.p_i < usize::MAX && to_point.p_i < usize::MAX,
        from_point.c_i < usize::MAX && to_point.c_i < usize::MAX,
        r_start < usize::MAX,
    ensures
        ({
            let b1 = deselected(views(old(buffer)@), old(selected)@);
            let steps = selection_steps(views(old(buffer)@), *from_point, *to_point, r_start as int, r_end as int);
            &&& views(final(buffer)@) == apply_steps(b1, steps)
            &&& final(selected)@ == step_places(steps)
            &&& s@ == selection_text(views(final(buffer)@), final(selected)@)
        }),
{
    let swap = from_point.y >= to_point.y;
    assert(swap == swaps(*from_point, *to_point));
    let (lt_p, br_p) = if swap { (to_point, from_point) } else { (from_point, to_point) };
    let (f_p_i, t_p_i) = (lt_p.p_i, br_p.p_i);
    let ghost b0 = views(buffer@);
    clear_selected_pieces(buffer, selected);
    let ghost b1 = views(buffer@);
    proof {
        lemma_deselected_shape(b0, old(selected)@);
        assert(apply_steps(b1, Seq::empty()) == b1);
        assert(step_places(Seq::<Step>::empty()) =~= selected@);
        lemma_same_shape_sym(b1, b0);
    }
    let ghost d0: Seq<Step> = Seq::empty();
    if r_end - r_start > 0 {
        select_from(buffer, selected, r_start, f_p_i, lt_p.c_i, Ghost(b0), Ghost(b1), Ghost(d0));
        let ghost d1 = d0 + from_step(b0, r_start as int, f_p_i as int, lt_p.c_i);
        let count = if r_start < buffer.len() { buffer[r_start].line_pieces.len() } else { 0 };
        proof {
            if r_start < buffer@.len() {
                assert(views(buffer@)[r_start as int] == buffer@[r_start as int]@);
            }
            assert(count == piece_count(b0, r_start as int));
        }
        select_span(buffer, selected, r_start, f_p_i + 1, count, Ghost(b0), Ghost(b1), Ghost(d1));
        let ghost d2 = d1 + span_steps(b0, r_start as int, f_p_i + 1, count as int);
        select_rows(buffer, selected, r_start + 1, r_end, Ghost(b0), Ghost(b1), Ghost(d2));
        let ghost d3 = d2 + rows_steps(b0, r_start + 1, r_end as int);
        select_span(buffer, selected, r_end, 0, t_p_i, Ghost(b0), Ghost(b1), Ghost(d3));
        let ghost d4 = d3 + span_steps(b0, r_end as int, 0, t_p_i as int);
        select_one(buffer, selected, r_end, t_p_i, (0, br_p.c_i + 1), Ghost(b0), Ghost(b1), Ghost(d4));
        proof {
            let steps = selection_steps(b0, *from_point, *to_point, r_start as int, r_end as int);
            assert(d4 + one_step(b0, r_end as int, t_p_i as int, (0usize, (br_p.c_i + 1) as usize)) =~= steps);
        }
    } else if r_start < buffer.len() {
        let across_pieces = if t_p_i > f_p_i { t_p_i - f_p_i } else { 0 };
        if across_pieces > 0 {
            select_from(buffer, selected, r_start, f_p_i, lt_p.c_i, Ghost(b0), Ghost(b1), Ghost(d0));
            let ghost d1 = d0 + from_step(b0, r_start as int, f_p_i as int, lt_p.c_i);
            select_span(buffer, selected, r_start, f_p_i + 1, t_p_i, Ghost(b0), Ghost(b1), Ghost(d1));
            let ghost d2 = d1 + span_steps(b0, r_start as int, f_p_i + 1, t_p_i as int);
            select_one(buffer, selected, r_start, t_p_i, (0, br_p.c_i + 1), Ghost(b0), Ghost(b1), Ghost(d2));
            proof {
                let steps = selection_steps(b0, *from_point, *to_point, r_start as int, r_end as int);
                assert(d2 + one_step(b0, r_start as int, t_p_i as int, (0usize, (br_p.c_i + 1) as usize)) =~= steps);
            }
        } else {
            let (mut fci, mut tci) = (lt_p.c_i, br_p.c_i + 1);
            if fci >= tci {
                fci = br_p.c_i;
                tci = lt_p.c_i + 1;
            }
            select_one(buffer, selected, r_start, f_p_i, (fci, tci), Ghost(b0), Ghost(b1), Ghost(d0));
            proof {
                let steps = selection_steps(b0, *from_point, *to_point, r_start as int, r_end as int);
                assert(d0 + one_step(b0, r_start as int, f_p_i as int, (fci, tci)) =~= steps);
            }
        }
    } else {
        proof {
            let steps = selection_steps(b0, *from_point, *to_point, r_start as int, r_end as int);
            assert(steps =~= d0);
        }
    }
    copy_pieces(buffer, selected)
}

/// Deselecting keeps the shape.
proof fn lemma_deselected_shape(b: Seq<RichDataView>, sel: Seq<(usize, usize)>)
    ensures
        same_shape(deselected(b, sel), b),
    decreases sel.len(),
{
    if sel.len() > 0 {
        lemma_deselected_shape(b, sel.drop_last());
        let rest = deselected(b, sel.drop_last());
        let (k, j) = sel.last();
        lemma_set_range_shape(rest, k as int, j as int, None);
        lemma_same_shape_trans(deselected(b, sel), rest, b);
    }
}

/// The same shape is symmetric.
proof fn lemma_same_shape_sym(a: Seq<RichDataView>, b: Seq<RichDataView>)
    requires
        same_shape(a, b),
    ensures
        same_shape(b, a),
{
    assert forall|k: int, j: int| 0 <= k < b.len() && 0 <= j < b[k].line_pieces.len()
        implies (#[trigger] b[k].line_pieces[j]).line == a[k].line_pieces[j].line by {
        assert(a[k].line_pieces.len() == b[k].line_pieces.len());
        assert(a[k].line_pieces[j].line == b[k].line_pieces[j].line);
    }
}

/// The same shape is transitive.
proof fn lemma_same_shape_trans(a: Seq<RichDataView>, b: Seq<RichDataView>, c: Seq<RichDataView>)
    requires
        same_shape(a, b),
        same_shape(b, c),
    ensures
        same_shape(a, c),
{
    assert forall|k: int, j: int| 0 <= k < a.len() && 0 <= j < a[k].line_pieces.len()
        implies (#[trigger] a[k].line_pieces[j]).line == c[k].line_pieces[j].line by {
        assert(a[k].line_pieces[j].line == b[k].line_pieces[j].line);
        assert(b[k].line_pieces.len() == a[k].line_pieces.len());
        assert(b[k].line_pieces[j].line == c[k].line_pieces[j].line);
    }
    assert forall|k: int| 0 <= k < a.len() implies (#[trigger] a[k]).line_pieces.len() == c[k].line_pieces.len() by {
        assert(a[k].line_pieces.len() == b[k].line_pieces.len());
        assert(b[k].line_pieces.len() == c[k].line_pieces.len());
    }
}

/// Clearing a selection leaves no piece of it selected.
pub proof fn law_clear_deselects(bufs: Seq<RichDataView>, sel: Seq<(usize, usize)>, idx: int)
    requires
        0 <= idx < sel.len(),
        sel[idx].0 < bufs.len(),
        sel[idx].1 < bufs[sel[idx].0 as int].line_pieces.len(),
    ensures
        deselected(bufs, sel)[sel[idx].0 as int].line_pieces[sel[idx].1 as int].selected_range is None,
    decreases sel.len(),
{
    let (k, j) = sel[idx];
    let rest = deselected(bufs, sel.drop_last());
    lemma_deselected_shape(bufs, sel.drop_last());
    if idx < sel.len() - 1 {
        law_clear_deselects(bufs, sel.drop_last(), idx);
        let (k2, j2) = sel.last();
        assert(rest[k as int].line_pieces.len() == bufs[k as int].line_pieces.len());
    }
}

/// Applying steps one list after another is applying them together.
proof fn lemma_apply_concat(b: Seq<RichDataView>, s1: Seq<Step>, s2: Seq<Step>)
    ensures
        apply_steps(b, s1 + s2) == apply_steps(apply_steps(b, s1), s2),
    decreases s2.len(),
{
    if s2.len() == 0 {
        assert(s1 + s2 =~= s1);
    } else {
        assert((s1 + s2).drop_last() =~= s1 + s2.drop_last());
        assert((s1 + s2).last() == s2.last());
        lemma_apply_concat(b, s1, s2.drop_last());
    }
}

/// Applying steps keeps the shape.
proof fn lemma_apply_shape(b: Seq<RichDataView>, s: Seq<Step>)
    ensures
        same_shape(apply_steps(b, s), b),
    decreases s.len(),
{
    if s.len() > 0 {
        lemma_apply_shape(b, s.drop_last());
        let (k, j, r) = s.last();
        let a = apply_steps(b, s.drop_last());
        lemma_set_range_shape(a, k, j, Some(r));
        lemma_same_shape_trans(set_range(a, k, j, Some(r)), a, b);
    }
}

/// Steps that never name piece `j` of segment `k` leave it as it was.
proof fn lemma_apply_untouched(b: Seq<RichDataView>, s: Seq<Step>, k: int, j: int)
    requires
        0 <= k < b.len(),
        0 <= j < b[k].line_pieces.len(),
        forall|n: int| 0 <= n < s.len() ==> !((#[trigger] s[n]).0 == k && s[n].1 == j),
    ensures
        apply_steps(b, s)[k].line_pieces[j] == b[k].line_pieces[j],
    decreases s.len(),
{
    if s.len() > 0 {
        assert forall|n: int| 0 <= n < s.drop_last().len() implies !((#[trigger] s.drop_last()[n]).0 == k && s.drop_last()[n].1 == j) by {
            assert(s.drop_last()[n] == s[n]);
        }
        lemma_apply_untouched(b, s.drop_last(), k, j);
        lemma_apply_shape(b, s.drop_last());
        let a = apply_steps(b, s.drop_last());
        assert(s.last() == s[s.len() - 1]);
        assert(a[k].line_pieces.len() == b[k].line_pieces.len());
    }
}

/// The steps of a span of segment `k` name pieces of that segment within
/// the span, in order, each whole; piece `j` of it is the `j - lo`-th.
proof fn lemma_span_entries(bufs: Seq<RichDataView>, k: int, lo: int, hi: int)
    ensures
        forall|n: int| 0 <= n < span_steps(bufs, k, lo, hi).len() ==> {
            let st = #[trigger] span_steps(bufs, k, lo, hi)[n];
            &&& st.0 == k
            &&& st.1 == lo + n
            &&& lo <= st.1 < hi
            &&& st.2 == full_range(bufs, k, st.1)
        },
        0 <= lo ==> span_steps(bufs, k, lo, hi).len() == if lo < hi && lo < piece_count(bufs, k) {
            (if hi < piece_count(bufs, k) { hi } else { piece_count(bufs, k) }) - lo
        } else {
            0
        },
    decreases hi - lo,
{
    if !(lo >= hi || lo >= piece_count(bufs, k) || lo < 0) {
        lemma_span_entries(bufs, k, lo + 1, hi);
        let s = span_steps(bufs, k, lo, hi);
        let t = span_steps(bufs, k, lo + 1, hi);
        assert forall|n: int| 0 <= n < s.len() implies {
            let st = #[trigger] s[n];
            &&& st.0 == k
            &&& st.1 == lo + n
            &&& lo <= st.1 < hi
            &&& st.2 == full_range(bufs, k, st.1)
        } by {
            if n > 0 {
                assert(s[n] == t[n - 1]);
            }
        }
    }
}

/// The steps of segments `lo` up to `hi` name pieces of those segments.
proof fn lemma_rows_entries(bufs: Seq<RichDataView>, lo: int, hi: int)
    ensures
        forall|n: int| 0 <= n < rows_steps(bufs, lo, hi).len() ==> lo <= (#[trigger] rows_steps(bufs, lo, hi)[n]).0 < hi,
    decreases hi - lo,
{
    if lo < hi {
        lemma_rows_entries(bufs, lo + 1, hi);
        lemma_span_entries(bufs, lo, 0, piece_count(bufs, lo));
        let a = span_steps(bufs, lo, 0, piece_count(bufs, lo));
        let r = rows_steps(bufs, lo + 1, hi);
        assert forall|n: int| 0 <= n < rows_steps(bufs, lo, hi).len() implies lo <= (#[trigger] rows_steps(bufs, lo, hi)[n]).0 < hi by {
            if n < a.len() {
                assert(rows_steps(bufs, lo, hi)[n] == a[n]);
            } else {
                assert(rows_steps(bufs, lo, hi)[n] == r[n - a.len()]);
            }
        }
    }
}

/// The steps of segments `lo` up to `hi` are those before `k`, those of
/// `k`, and those after it.
proof fn lemma_rows_split(bufs: Seq<RichDataView>, lo: int, k: int, hi: int)
    requires
        lo <= k < hi,
    ensures
        rows_steps(bufs, lo, hi) == rows_steps(bufs, lo, k) + span_steps(bufs, k, 0, piece_count(bufs, k)) + rows_steps(bufs, k + 1, hi),
    decreases k - lo,
{
    if lo < k {
        lemma_rows_split(bufs, lo + 1, k, hi);
        assert(rows_steps(bufs, lo, hi) =~= rows_steps(bufs, lo, k) + span_steps(bufs, k, 0, piece_count(bufs, k)) + rows_steps(bufs, k + 1, hi));
    } else {
        assert(rows_steps(bufs, lo, k) =~= Seq::<Step>::empty());
        assert(rows_steps(bufs, lo, hi) =~= rows_steps(bufs, lo, k) + span_steps(bufs, k, 0, piece_count(bufs, k)) + rows_steps(bufs, k + 1, hi));
    }
}

/// Applying the span of pieces `lo` up to `hi` of segment `k` to a buffer
/// of the same shape selects each of those pieces whole.
proof fn lemma_span_selects(c: Seq<RichDataView>, bufs: Seq<RichDataView>, k: int, lo: int, hi: int, j: int)
    requires
        same_shape(c, bufs),
        0 <= k < bufs.len(),
        0 <= lo <= j < hi,
        j < bufs[k].line_pieces.len(),
    ensures
        apply_steps(c, span_steps(bufs, k, lo, hi))[k].line_pieces[j].selected_range == Some(full_range(bufs, k, j)),
{
    let s = span_steps(bufs, k, lo, hi);
    lemma_span_entries(bufs, k, lo, hi);
    let n = j - lo;
    assert(n < s.len());
    let head = s.take(n + 1);
    let tail = s.skip(n + 1);
    assert(s =~= head + tail);
    lemma_apply_concat(c, head, tail);
    assert(head.drop_last() =~= s.take(n));
    assert(head.last() == s[n]);
    let a = apply_steps(c, s.take(n));
    lemma_apply_shape(c, s.take(n));
    assert(a[k].line_pieces.len() == bufs[k].line_pieces.len());
    let d = apply_steps(c, head);
    assert(d == set_range(a, k, j, Some(full_range(bufs, k, j))));
    lemma_apply_shape(c, head);
    assert(d[k].line_pieces[j].selected_range == Some(full_range(bufs, k, j)));
    assert forall|m: int| 0 <= m < tail.len() implies !((#[trigger] tail[m]).0 == k && tail[m].1 == j) by {
        assert(tail[m] == s[m + n + 1]);
    }
    lemma_apply_untouched(d, tail, k, j);
}

/// A drag over segments `r_start` to `r_end` selects every piece of every
/// segment strictly between them, whole: the selection names each such
/// piece with its whole range, and after the earlier selection `sel` is
/// dropped and the new one applied, the piece is selected from its first
/// character to its last.
pub proof fn law_drag_selects_between(bufs: Seq<RichDataView>, sel: Seq<(usize, usize)>, from: ClickPoint, to: ClickPoint,
    r_start: int, r_end: int, k: int, j: int)
    requires
        0 <= r_start < k < r_end,
        k < bufs.len(),
        0 <= j < bufs[k].line_pieces.len(),
    ensures
        ({
            let steps = selection_steps(bufs, from, to, r_start, r_end);
            let whole = (0usize, bufs[k].line_pieces[j].line.len() as usize);
            &&& exists|n: int| 0 <= n < steps.len() && steps[n] == (k, j, whole)
            &&& apply_steps(deselected(bufs, sel), steps)[k].line_pieces[j].selected_range == Some(whole)
        }),
{
    let steps = selection_steps(bufs, from, to, r_start, r_end);
    let (lt, br) = if swaps(from, to) { (to, from) } else { (from, to) };
    let (f, t) = (lt.p_i as int, br.p_i as int);
    let a = from_step(bufs, r_start, f, lt.c_i) + span_steps(bufs, r_start, f + 1, piece_count(bufs, r_start));
    let r = rows_steps(bufs, r_start + 1, r_end);
    let q = span_steps(bufs, r_end, 0, t) + one_step(bufs, r_end, t, (0usize, (br.c_i + 1) as usize));
    assert(steps =~= a + r + q);
    lemma_rows_split(bufs, r_start + 1, k, r_end);
    let r1 = rows_steps(bufs, r_start + 1, k);
    let sk = span_steps(bufs, k, 0, piece_count(bufs, k));
    let r2 = rows_steps(bufs, k + 1, r_end);
    // the piece is named whole
    lemma_span_entries(bufs, k, 0, piece_count(bufs, k));
    let n = a.len() + r1.len() + j;
    assert(steps[n] == sk[j]);
    // and selected whole
    let b1 = deselected(bufs, sel);
    lemma_deselected_shape(bufs, sel);
    lemma_apply_concat(b1, a + r1, sk);
    lemma_apply_concat(b1, a + r1 + sk, r2);
    lemma_apply_concat(b1, a + r1 + sk + r2, q);
    assert(a + r =~= a + r1 + sk + r2);
    assert(steps =~= a + r1 + sk + r2 + q);
    lemma_apply_concat(b1, a, r1);
    assert(a + r1 =~= a + r1);
    let c = apply_steps(b1, a + r1);
    lemma_apply_shape(b1, a + r1);
    lemma_same_shape_trans(c, b1, bufs);
    lemma_span_selects(c, bufs, k, 0, piece_count(bufs, k), j);
    let d = apply_steps(c, sk);
    assert(apply_steps(b1, a + r1 + sk) == d);
    lemma_apply_shape(c, sk);
    lemma_same_shape_trans(d, c, bufs);
    lemma_rows_entries(bufs, k + 1, r_end);
    lemma_apply_untouched(d, r2, k, j);
    let e = apply_steps(d, r2);
    lemma_apply_shape(d, r2);
    lemma_same_shape_trans(e, d, bufs);
    lemma_span_entries(bufs, r_end, 0, t);
    assert forall|m: int| 0 <= m < q.len() implies !((#[trigger] q[m]).0 == k && q[m].1 == j) by {
        let q1 = span_steps(bufs, r_end, 0, t);
        if m < q1.len() {
            assert(q[m] == q1[m]);
        } else {
            assert(q[m] == one_step(bufs, r_end, t, (0usize, (br.c_i + 1) as usize))[m - q1.len()]);
        }
    }
    lemma_apply_untouched(e, q, k, j);
}

/// The text of two lists of selected places is the text of the first
/// followed by that of the second.
proof fn lemma_text_concat(b: Seq<RichDataView>, s1: Seq<(usize, usize)>, s2: Seq<(usize, usize)>)
    ensures
        selection_text(b, s1 + s2) == selection_text(b, s1) + selection_text(b, s2),
    decreases s2.len(),
{
    if s2.len() == 0 {
        assert(s1 + s2 =~= s1);
        assert(selection_text(b, s1) + selection_text(b, s2) =~= selection_text(b, s1));
    } else {
        assert((s1 + s2).drop_last() =~= s1 + s2.drop_last());
        assert((s1 + s2).last() == s2.last());
        lemma_text_concat(b, s1, s2.drop_last());
        let (k, j) = s2.last();
        let extra = if k < b.len() && j < b[k as int].line_pieces.len() {
            let p = b[k as int].line_pieces[j as int];
            match p.selected_range {
                Some((x, y)) => selected_chars(p.line, x as nat, y as nat),
                None => Seq::<char>::empty(),
            }
        } else {
            Seq::<char>::empty()
        };
        assert(selection_text(b, s1 + s2) == selection_text(b, s1 + s2.drop_last()) + extra);
        assert(selection_text(b, s2) == selection_text(b, s2.drop_last()) + extra);
        assert(selection_text(b, s1 + s2) =~= selection_text(b, s1) + selection_text(b, s2));
    }
}

/// The text copied after a drag over segments `r_start` to `r_end` holds
/// the whole line of every piece of every segment strictly between them,
/// at the place of that piece in the selection: the text of the places
/// before it, the piece's line, then the text of the places after it.
pub proof fn law_drag_copies_between(bufs: Seq<RichDataView>, sel: Seq<(usize, usize)>, from: ClickPoint, to: ClickPoint,
    r_start: int, r_end: int, k: int, j: int)
    requires
        0 <= r_start < k < r_end,
        k < bufs.len(),
        0 <= j < bufs[k].line_pieces.len(),
        bufs.len() <= usize::MAX,
        bufs[k].line_pieces.len() <= usize::MAX,
        bufs[k].line_pieces[j].line.len() <= usize::MAX,
    ensures
        ({
            let steps = selection_steps(bufs, from, to, r_start, r_end);
            let b = apply_steps(deselected(bufs, sel), steps);
            let places = step_places(steps);
            exists|n: int| 0 <= n < places.len() && places[n] == (k as usize, j as usize)
                && selection_text(b, places) == selection_text(b, places.take(n)) + bufs[k].line_pieces[j].line
                    + selection_text(b, places.skip(n + 1))
        }),
{
    law_drag_selects_between(bufs, sel, from, to, r_start, r_end, k, j);
    let steps = selection_steps(bufs, from, to, r_start, r_end);
    let whole = (0usize, bufs[k].line_pieces[j].line.len() as usize);
    let n = choose|n: int| 0 <= n < steps.len() && steps[n] == (k, j, whole);
    let b1 = deselected(bufs, sel);
    let b = apply_steps(b1, steps);
    let places = step_places(steps);
    lemma_deselected_shape(bufs, sel);
    lemma_apply_shape(b1, steps);
    lemma_same_shape_trans(b, b1, bufs);
    assert(places[n] == (k as usize, j as usize));
    assert(places =~= places.take(n) + seq![places[n]] + places.skip(n + 1));
    lemma_text_concat(b, places.take(n) + seq![places[n]], places.skip(n + 1));
    lemma_text_concat(b, places.take(n), seq![places[n]]);
    let p = b[k].line_pieces[j];
    assert(p.line == bufs[k].line_pieces[j].line);
    assert(p.selected_range == Some(whole));
    assert(seq![places[n]].drop_last() =~= Seq::<(usize, usize)>::empty());
    assert(selected_chars(p.line, 0, p.line.len()) =~= p.line);
    assert(selection_text(b, Seq::<(usize, usize)>::empty()) =~= Seq::<char>::empty());
    assert(selection_text(b, seq![places[n]]) == selection_text(b, Seq::<(usize, usize)>::empty()) + selected_chars(p.line, 0, p.line.len()));
    assert(selection_text(b, seq![places[n]]) =~= p.line);
}

/// A drag over segments `r_start` to `r_end`, where they differ, selects
/// whole every piece of the first segment after the one it starts in, and
/// every piece of the last segment before the one it ends in.
pub proof fn law_drag_selects_ends(bufs: Seq<RichDataView>, sel: Seq<(usize, usize)>, from: ClickPoint, to: ClickPoint,
    r_start: int, r_end: int, j: int)
    requires
        0 <= r_start < r_end < bufs.len(),
    ensures
        ({
            let steps = selection_steps(bufs, from, to, r_start, r_end);
            let b = apply_steps(deselected(bufs, sel), steps);
            let (lt, br) = if swaps(from, to) { (to, from) } else { (from, to) };
            &&& (lt.p_i < j < bufs[r_start].line_pieces.len() ==>
                b[r_start].line_pieces[j].selected_range == Some((0usize, bufs[r_start].line_pieces[j].line.len() as usize)))
            &&& (0 <= j < br.p_i && j < bufs[r_end].line_pieces.len() ==>
                b[r_end].line_pieces[j].selected_range == Some((0usize, bufs[r_end].line_pieces[j].line.len() as usize)))
        }),
{
    let steps = selection_steps(bufs, from, to, r_start, r_end);
    let (lt, br) = if swaps(from, to) { (to, from) } else { (from, to) };
    let (f, t) = (lt.p_i as int, br.p_i as int);
    let a1 = from_step(bufs, r_start, f, lt.c_i);
    let a2 = span_steps(bufs, r_start, f + 1, piece_count(bufs, r_start));
    let r = rows_steps(bufs, r_start + 1, r_end);
    let q1 = span_steps(bufs, r_end, 0, t);
    let q2 = one_step(bufs, r_end, t, (0usize, (br.c_i + 1) as usize));
    assert(steps =~= a1 + a2 + r + q1 + q2);
    let b1 = deselected(bufs, sel);
    lemma_deselected_shape(bufs, sel);
    lemma_apply_concat(b1, a1, a2);
    lemma_apply_concat(b1, a1 + a2, r);
    lemma_apply_concat(b1, a1 + a2 + r, q1);
    lemma_apply_concat(b1, a1 + a2 + r + q1, q2);
    let c0 = apply_steps(b1, a1);
    lemma_apply_shape(b1, a1);
    lemma_same_shape_trans(c0, b1, bufs);
    let c1 = apply_steps(c0, a2);
    lemma_apply_shape(c0, a2);
    lemma_same_shape_trans(c1, c0, bufs);
    let c2 = apply_steps(c1, r);
    lemma_apply_shape(c1, r);
    lemma_same_shape_trans(c2, c1, bufs);
    let c3 = apply_steps(c2, q1);
    lemma_apply_shape(c2, q1);
    lemma_same_shape_trans(c3, c2, bufs);
    lemma_rows_entries(bufs, r_start + 1, r_end);
    lemma_span_entries(bufs, r_end, 0, t);
    if f < j < bufs[r_start].line_pieces.len() {
        lemma_span_selects(c0, bufs, r_start, f + 1, piece_count(bufs, r_start), j);
        lemma_apply_untouched(c1, r, r_start, j);
        lemma_apply_untouched(c2, q1, r_start, j);
        assert forall|m: int| 0 <= m < q2.len() implies !((#[trigger] q2[m]).0 == r_start && q2[m].1 == j) by {}
        lemma_apply_untouched(c3, q2, r_start, j);
    }
    if 0 <= j < t && j < bufs[r_end].line_pieces.len() {
        lemma_span_selects(c2, bufs, r_end, 0, t, j);
        assert forall|m: int| 0 <= m < q2.len() implies !((#[trigger] q2[m]).0 == r_end && q2[m].1 == j) by {}
        lemma_apply_untouched(c3, q2, r_end, j);
    }
}

} // verus!
