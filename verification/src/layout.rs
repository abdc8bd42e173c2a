//! Laying a data segment out on the panel: cutting it into pieces that fit
//! the width, line by line, after the virtual cursor. Text measurement is
//! the caller's: each step takes the widths and heights it needs as
//! arguments, and says when it needs more.

use vstd::prelude::*;
use crate::board::views;
use crate::data::{RichData, RichDataView, DataType};
use crate::geometry::{half_toward_zero, fits_i32};
use crate::piece::{LinePiece, LinePieceView};
use crate::text::{Font, spec_line_height, line_height_of};
use crate::{IMAGE_PADDING_H, IMAGE_PADDING_V, PADDING_LEFT};

verus! {

/// Whether a whole number fits an `i32`.
pub open spec fn fits(v: int) -> bool {
    i32::MIN <= v <= i32::MAX
}

/// The panel line a new piece belongs to, as (identifier, height, whether
/// it holds an image).
pub type LineInfo = (u64, i32, bool);

/// The identifiers handed to new panel lines.
#[derive(Debug, Clone, Copy, PartialEq, Eq, Structural)]
pub struct LayoutContext {
    /// The identifier the next new line gets.
    pub next_line_id: u64,
}

impl LayoutContext {
    /// Identifiers start after 0, which the first cursor's line has.
    pub fn new() -> (c: LayoutContext)
        ensures
            c.next_line_id == 1,
    {
        LayoutContext { next_line_id: 1 }
    }
}

/// The line a piece starting at `start_x` belongs to: a new line of height
/// `h` where it starts at `x_ref`, else the line of `last`, which then
/// holds an image if the piece is one.
pub open spec fn line_for(ctx: LayoutContext, x_ref: int, start_x: int, h: i32, last: LinePieceView, image: bool) -> (LineInfo, LayoutContext) {
    if start_x == x_ref {
        ((ctx.next_line_id, h, image), LayoutContext { next_line_id: (ctx.next_line_id + 1) as u64 })
    } else {
        ((last.line_id, last.line_max_h, last.line_has_image || image), ctx)
    }
}

/// Picks the line of a new piece, as `line_for` says.
fn create_or_update(ctx: &mut LayoutContext, x_ref: i32, start_x: i32, h: i32, last: &LinePiece, image: bool) -> (l: LineInfo)
    requires
        old(ctx).next_line_id < u64::MAX,
    ensures
        (l, *final(ctx)) == line_for(*old(ctx), x_ref as int, start_x as int, h, last@, image),
{
    if start_x == x_ref {
        let id = ctx.next_line_id;
        ctx.next_line_id = id + 1;
        (id, h, image)
    } else {
        (last.line_id, last.line_max_h, last.line_has_image || image)
    }
}

/// A new piece of segment `rd` with the given text and place, on line `l`.
pub open spec fn new_piece(line: Seq<char>, x: int, y: int, w: int, h: int, top_y: int, spacing: int,
    next_x: int, next_y: int, font_height: int, rd: RichDataView, l: LineInfo) -> LinePieceView
{
    LinePieceView {
        line,
        x: x as i32,
        y: y as i32,
        w: w as i32,
        h: h as i32,
        top_y: top_y as i32,
        spacing: spacing as i32,
        next_x: next_x as i32,
        next_y: next_y as i32,
        font_height: font_height as i32,
        selected_range: None,
        font: rd.font,
        font_size: rd.font_size,
        rd_bounds: rd.v_bounds,
        line_id: l.0,
        line_max_h: l.1,
        line_has_image: l.2,
    }
}

/// Whether every place of a new piece fits an `i32`.
pub open spec fn piece_fits(x: int, y: int, w: int, h: int, top_y: int, next_x: int, next_y: int) -> bool {
    fits(x) && fits(y) && fits(w) && fits(h) && fits(top_y) && fits(next_x) && fits(next_y)
}

/// Builds a piece of `rd`.
fn make_piece(line: Vec<char>, x: i64, y: i64, w: i64, h: i64, top_y: i64, spacing: i32, next_x: i64, next_y: i64,
    font_height: i32, rd: &RichData, l: LineInfo) -> (p: LinePiece)
    requires
        piece_fits(x as int, y as int, w as int, h as int, top_y as int, next_x as int, next_y as int),
    ensures
        p@ == new_piece(line@, x as int, y as int, w as int, h as int, top_y as int, spacing as int,
            next_x as int, next_y as int, font_height as int, rd@, l),
{
    LinePiece {
        line,
        x: x as i32,
        y: y as i32,
        w: w as i32,
        h: h as i32,
        top_y: top_y as i32,
        spacing,
        next_x: next_x as i32,
        next_y: next_y as i32,
        font_height,
        selected_range: None,
        font: rd.font,
        font_size: rd.font_size,
        rd_bounds: rd.v_bounds,
        line_id: l.0,
        line_max_h: l.1,
        line_has_image: l.2,
    }
}

/// Whether a piece's text ends in a line feed.
pub open spec fn ends_with_newline(s: Seq<char>) -> bool {
    s.len() > 0 && s.last() == '\n'
}

/// Whether a text ends in a line feed.
fn ends_nl(s: &Vec<char>) -> (b: bool)
    ensures
        b == ends_with_newline(s@),
{
    let n = s.len();
    n > 0 && s[n - 1] == '\n'
}

/// The piece of an image segment `rd` of `tw` × `th`, placed after the
/// cursor `last`, with `piece_spacing` after it, in a panel `max_width`
/// wide, and its line. An image wider than the rest of the line goes to
/// the start of the next line; after a line feed it starts the line; else
/// it joins the line, centered on it where the line is taller.
pub open spec fn image_piece(rd: RichDataView, last: LinePieceView, max_width: int, ctx: LayoutContext)
    -> Option<(LinePieceView, LayoutContext)>
{
    let (tw, th) = (rd.image_target_width as int, rd.image_target_height as int);
    let (top_y, start_x) = (last.next_y as int, last.next_x as int);
    let h = th + IMAGE_PADDING_V * 2;
    let line_h = th * IMAGE_PADDING_V * 2;
    if !fits(line_h) || !fits(h) {
        None
    } else if start_x + tw > max_width {
        let x = PADDING_LEFT + IMAGE_PADDING_H;
        let y = top_y + last.line_max_h + IMAGE_PADDING_V;
        let next_x = x + tw + IMAGE_PADDING_H;
        let next_y = y - IMAGE_PADDING_V;
        let l: LineInfo = (ctx.next_line_id, line_h as i32, true);
        if piece_fits(x, y, tw, th, y - IMAGE_PADDING_V, next_x, next_y) {
            Some((new_piece(Seq::empty(), x, y, tw, th, y - IMAGE_PADDING_V, last.spacing as int, next_x, next_y, 1, rd, l),
                LayoutContext { next_line_id: (ctx.next_line_id + 1) as u64 }))
        } else {
            None
        }
    } else {
        let x = start_x + IMAGE_PADDING_H;
        let next_x = start_x + tw + IMAGE_PADDING_H * 2 + rd.piece_spacing;
        if ends_with_newline(last.line) {
            let y = top_y + IMAGE_PADDING_V;
            let l: LineInfo = (ctx.next_line_id, line_h as i32, true);
            if piece_fits(x, y, tw, th, y - IMAGE_PADDING_V, next_x, top_y) {
                Some((new_piece(Seq::empty(), x, y, tw, th, y - IMAGE_PADDING_V, last.spacing as int, next_x, top_y, 1, rd, l),
                    LayoutContext { next_line_id: (ctx.next_line_id + 1) as u64 }))
            } else {
                None
            }
        } else {
            let current_line_height = if last.h > h { last.h as int } else { h };
            let raw_y = if current_line_height > last.h {
                top_y + IMAGE_PADDING_V
            } else {
                top_y + IMAGE_PADDING_V + half_toward_zero(current_line_height - h)
            };
            let (l, ctx2) = line_for(ctx, PADDING_LEFT + IMAGE_PADDING_H, x, line_h as i32, last, true);
            if piece_fits(x, raw_y, tw, th, raw_y - IMAGE_PADDING_V, next_x, top_y + IMAGE_PADDING_V) {
                Some((new_piece(Seq::empty(), x, raw_y, tw, th, raw_y - IMAGE_PADDING_V, last.spacing as int, next_x, top_y + IMAGE_PADDING_V, 1, rd, l), ctx2))
            } else {
                None
            }
        }
    }
}

/// Whether every place of a new piece fits an `i32`.
fn piece_fits_exec(x: i64, y: i64, w: i64, h: i64, top_y: i64, next_x: i64, next_y: i64) -> (b: bool)
    ensures
        b == piece_fits(x as int, y as int, w as int, h as int, top_y as int, next_x as int, next_y as int),
{
    let lo = i32::MIN as i64;
    let hi = i32::MAX as i64;
    lo <= x && x <= hi && lo <= y && y <= hi && lo <= w && w <= hi && lo <= h && h <= hi
        && lo <= top_y && top_y <= hi && lo <= next_x && next_x <= hi && lo <= next_y && next_y <= hi
}

/// Whether a whole number fits an `i32`, and the `i32`.
fn narrow(v: i64) -> (r: Option<i32>)
    ensures
        r == if fits(v as int) { Some(v as i32) } else { None::<i32> },
{
    if v >= i32::MIN as i64 && v <= i32::MAX as i64 {
        Some(v as i32)
    } else {
        None
    }
}

/// Places an image segment after the cursor `last`, as `image_piece`
/// says; none where a place leaves the range of `i32`.
pub fn place_image(ctx: &mut LayoutContext, rd: &RichData, last: &LinePiece, max_width: i32) -> (r: Option<LinePiece>)
    requires
        old(ctx).next_line_id < u64::MAX,
    ensures
        match image_piece(rd@, last@, max_width as int, *old(ctx)) {
            Some((p, c)) => r is Some && r->0@ == p && *final(ctx) == c,
            None => r is None && *final(ctx) == *old(ctx),
        },
{
    let (tw, th) = (rd.image_target_width as i64, rd.image_target_height as i64);
    let (top_y, start_x) = (last.next_y as i64, last.next_x as i64);
    let h = th + IMAGE_PADDING_V as i64 * 2;
    let line_h = th * IMAGE_PADDING_V as i64 * 2;
    let line_h32 = match narrow(line_h) { Some(v) => v, None => { return None; } };
    if narrow(h).is_none() {
        return None;
    }
    let ipv = IMAGE_PADDING_V as i64;
    let iph = IMAGE_PADDING_H as i64;
    if start_x + tw > max_width as i64 {
        let x = PADDING_LEFT as i64 + iph;
        let y = top_y + last.line_max_h as i64 + ipv;
        let next_x = x + tw + iph;
        let next_y = y - ipv;
        if !piece_fits_exec(x, y, tw, th, y - ipv, next_x, next_y) {
            return None;
        }
        let l: LineInfo = (ctx.next_line_id, line_h32, true);
        ctx.next_line_id = ctx.next_line_id + 1;
        Some(make_piece(Vec::new(), x, y, tw, th, y - ipv, last.spacing, next_x, next_y, 1, rd, l))
    } else {
        let x = start_x + iph;
        let next_x = start_x + tw + iph * 2 + rd.piece_spacing as i64;
        if ends_nl(&last.line) {
            let y = top_y + ipv;
            if !piece_fits_exec(x, y, tw, th, y - ipv, next_x, top_y) {
                return None;
            }
            let l: LineInfo = (ctx.next_line_id, line_h32, true);
            ctx.next_line_id = ctx.next_line_id + 1;
            Some(make_piece(Vec::new(), x, y, tw, th, y - ipv, last.spacing, next_x, top_y, 1, rd, l))
        } else {
            let current_line_height: i64 = if last.h as i64 > h { last.h as i64 } else { h };
            let raw_y = if current_line_height > last.h as i64 {
                top_y + ipv
            } else {
                let d = current_line_height - h;
                top_y + ipv + d / 2
            };
            if !piece_fits_exec(x, raw_y, tw, th, raw_y - ipv, next_x, top_y + ipv) {
                return None;
            }
            let l = create_or_update(ctx, PADDING_LEFT + IMAGE_PADDING_H, x as i32, line_h32, last, true);
            Some(make_piece(Vec::new(), x, raw_y, tw, th, raw_y - ipv, last.spacing, next_x, top_y + ipv, 1, rd, l))
        }
    }
}

/// The height of line `l` given by pieces `ps`: the tallest of them on
/// it, at least 1.
pub open spec fn max_h_on(ps: Seq<LinePieceView>, l: u64) -> int
    decreases ps.len(),
{
    if ps.len() == 0 {
        1
    } else if ps.last().line_id == l && ps.last().h > max_h_on(ps.drop_last(), l) {
        ps.last().h as int
    } else {
        max_h_on(ps.drop_last(), l)
    }
}

/// The height of line `l` over all segments of a buffer.
pub open spec fn max_h_in(bufs: Seq<RichDataView>, l: u64) -> int
    decreases bufs.len(),
{
    if bufs.len() == 0 {
        1
    } else {
        let a = max_h_in(bufs.drop_last(), l);
        let b = max_h_on(bufs.last().line_pieces, l);
        if a > b { a } else { b }
    }
}

/// Whether a piece of `ps` on line `l` holds or joins an image.
pub open spec fn image_on(ps: Seq<LinePieceView>, l: u64) -> bool {
    exists|j: int| 0 <= j < ps.len() && ps[j].line_id == l && ps[j].line_has_image
}

/// Whether a piece on line `l` in a buffer holds or joins an image.
pub open spec fn image_in(bufs: Seq<RichDataView>, l: u64) -> bool {
    exists|k: int| 0 <= k < bufs.len() && image_on(bufs[k].line_pieces, l)
}

/// How many of the pieces `ps` lie on line `l`.
pub open spec fn count_on(ps: Seq<LinePieceView>, l: u64) -> int
    decreases ps.len(),
{
    if ps.len() == 0 { 0 } else { count_on(ps.drop_last(), l) + if ps.last().line_id == l { 1int } else { 0int } }
}

/// What the layout knows of line `l` once a segment with pieces `own` is
/// laid out after the buffer: its height, how many of the segment's pieces
/// lie on it, and whether it holds an image.
pub open spec fn line_stats(bufs: Seq<RichDataView>, own: Seq<LinePieceView>, l: u64) -> (int, int, bool) {
    let a = max_h_in(bufs, l);
    let b = max_h_on(own, l);
    (if a > b { a } else { b }, count_on(own, l), image_in(bufs, l) || image_on(own, l))
}

/// A piece on a line the new segment reaches, once the segment is laid
/// out: a piece lower than the line is centered on it, and, where it ends
/// in a line feed, the next piece goes below the line (counted from its
/// old top where the segment has a single piece on that line, else from
/// its new top, plus the image padding on a line with an image); the
/// piece learns the line's height and image mark.
pub open spec fn settled(q: LinePieceView, st: (int, int, bool)) -> LinePieceView {
    let (maxh, cnt, img) = st;
    let moved = q.h < maxh;
    let y = if moved { q.top_y + half_toward_zero(maxh - q.h) } else { q.y as int };
    let next_y = if moved && ends_with_newline(q.line) {
        (if cnt == 1 { q.y as int } else { y }) + maxh + if img { IMAGE_PADDING_V as int } else { 0 }
    } else {
        q.next_y as int
    };
    LinePieceView { y: y as i32, next_y: next_y as i32, line_max_h: maxh as i32, line_has_image: img, ..q }
}

/// Whether a line id is the line of one of the pieces `own`.
pub open spec fn reached(own: Seq<LinePieceView>, l: u64) -> bool {
    exists|a: int| 0 <= a < own.len() && own[a].line_id == l
}

/// A piece after the segment with pieces `own` was laid out after the
/// buffer: settled where its line is one the segment reaches.
pub open spec fn after_layout(q: LinePieceView, bufs: Seq<RichDataView>, own: Seq<LinePieceView>) -> LinePieceView {
    if reached(own, q.line_id) { settled(q, line_stats(bufs, own, q.line_id)) } else { q }
}

/// The bottom a piece of a buffer segment gives its segment when it is
/// centered on a line of height `maxh`, if it moves.
pub open spec fn moved_bottom(q: LinePieceView, maxh: int) -> Option<int> {
    if q.h < maxh { Some(q.top_y + half_toward_zero(maxh - q.h) + q.h) } else { None }
}

/// Among the pieces `ps` of a buffer segment before `j`, on line `l`, the
/// bottom given by the last one that moves.
pub open spec fn last_moved_on(ps: Seq<LinePieceView>, l: u64, maxh: int, j: int) -> Option<int>
    decreases j,
{
    if j <= 0 {
        None
    } else if ps[j - 1].line_id == l && moved_bottom(ps[j - 1], maxh) is Some {
        moved_bottom(ps[j - 1], maxh)
    } else {
        last_moved_on(ps, l, maxh, j - 1)
    }
}

/// The bottom a buffer segment with pieces `ps` gets last, as the pieces
/// of the new segment (`own`, the first `a` of them) visit their lines in
/// order: the last visit that moves one of its pieces decides.
pub open spec fn last_bottom(ps: Seq<LinePieceView>, bufs: Seq<RichDataView>, own: Seq<LinePieceView>, a: int) -> Option<int>
    decreases a,
{
    if a <= 0 {
        None
    } else {
        let l = own[a - 1].line_id;
        match last_moved_on(ps, l, line_stats(bufs, own, l).0, ps.len() as int) {
            Some(v) => Some(v),
            None => last_bottom(ps, bufs, own, a - 1),
        }
    }
}

/// The pieces of a buffer segment after the new segment was laid out.
pub open spec fn settled_pieces(ps: Seq<LinePieceView>, bufs: Seq<RichDataView>, own: Seq<LinePieceView>) -> Seq<LinePieceView> {
    ps.map_values(|q: LinePieceView| after_layout(q, bufs, own))
}

/// Whether a piece that moves on a line of height `maxh` has its new top,
/// and the bottom it gives its segment, within `i32`.
pub open spec fn moved_fits(q: LinePieceView, maxh: int) -> bool {
    q.h < maxh ==> {
        let d = maxh - q.h;
        let y = q.top_y + half_toward_zero(d);
        &&& fits_i32(d)
        &&& fits_i32(y)
        &&& fits_i32(y + q.h)
    }
}

/// Whether settling piece `q` on a line with stats `st` computes only
/// values within `i32`.
pub open spec fn settle_fits(q: LinePieceView, st: (int, int, bool)) -> bool {
    let (maxh, cnt, img) = st;
    &&& moved_fits(q, maxh)
    &&& (q.h < maxh && ends_with_newline(q.line)) ==> {
        let y = q.top_y + half_toward_zero(maxh - q.h);
        let base = if cnt == 1 { q.y as int } else { y };
        &&& fits_i32(base + maxh)
        &&& fits_i32(base + maxh + if img { IMAGE_PADDING_V as int } else { 0 })
    }
}

/// Whether laying out the segment with pieces `own` after the buffer
/// computes only values within `i32` for the pieces `ps`.
pub open spec fn pieces_fit(ps: Seq<LinePieceView>, bufs: Seq<RichDataView>, own: Seq<LinePieceView>) -> bool {
    forall|j: int| 0 <= j < ps.len() && reached(own, #[trigger] ps[j].line_id)
        ==> settle_fits(ps[j], line_stats(bufs, own, ps[j].line_id))
}

/// Whether laying out the segment with pieces `own` after the buffer
/// computes only values within `i32`: in settling the pieces of the buffer
/// and of the segment, and in the segment's bounds.
pub open spec fn layout_fits(bufs: Seq<RichDataView>, own: Seq<LinePieceView>) -> bool {
    &&& forall|k: int| 0 <= k < bufs.len() ==> pieces_fit(#[trigger] bufs[k].line_pieces, bufs, own)
    &&& pieces_fit(own, bufs, own)
    &&& own.len() > 0 ==> {
        let q = own.last();
        &&& fits_i32(q.top_y + line_stats(bufs, own, q.line_id).0)
        &&& fits_i32(q.x + q.w)
    }
}

/// Pieces that carry the bounds `vb` of their segment.
pub open spec fn with_bounds(ps: Seq<LinePieceView>, vb: (i32, i32, i32, i32)) -> Seq<LinePieceView> {
    ps.map_values(|q: LinePieceView| LinePieceView { rd_bounds: vb, ..q })
}

/// A buffer segment after the new segment with pieces `own` was laid out:
/// its pieces settled, and its bottom where one of them moved; its pieces
/// carry its bounds.
pub open spec fn segment_after(r: RichDataView, bufs: Seq<RichDataView>, own: Seq<LinePieceView>) -> RichDataView {
    let vb = match last_bottom(r.line_pieces, bufs, own, own.len() as int) {
        Some(b) => (r.v_bounds.0, b as i32, r.v_bounds.2, r.v_bounds.3),
        None => r.v_bounds,
    };
    let ps = settled_pieces(r.line_pieces, bufs, own);
    RichDataView {
        v_bounds: vb,
        line_pieces: if last_bottom(r.line_pieces, bufs, own, own.len() as int) is None { ps } else { with_bounds(ps, vb) },
        ..r
    }
}

/// The bounds of the new segment with settled pieces `ps`, starting at
/// `top_y` where it has none: from the top of its first piece to the bottom
/// of the line of its last, from the left of its first piece to the right
/// of its last.
pub open spec fn own_bounds(ps: Seq<LinePieceView>, top_y: i32) -> (i32, i32, i32, i32) {
    if ps.len() == 0 {
        (top_y, top_y, 0, 0)
    } else {
        (ps[0].top_y, (ps.last().top_y + ps.last().line_max_h) as i32, ps[0].x, (ps.last().x + ps.last().w) as i32)
    }
}

/// Line heights stay between 1 and the largest `i32`.
proof fn lemma_max_h_on_bounds(ps: Seq<LinePieceView>, l: u64)
    ensures
        1 <= max_h_on(ps, l) <= i32::MAX,
    decreases ps.len(),
{
    if ps.len() > 0 {
        lemma_max_h_on_bounds(ps.drop_last(), l);
    }
}

/// Line heights over a buffer stay between 1 and the largest `i32`.
proof fn lemma_max_h_in_bounds(bufs: Seq<RichDataView>, l: u64)
    ensures
        1 <= max_h_in(bufs, l) <= i32::MAX,
    decreases bufs.len(),
{
    if bufs.len() > 0 {
        lemma_max_h_in_bounds(bufs.drop_last(), l);
        lemma_max_h_on_bounds(bufs.last().line_pieces, l);
    }
}

/// The views of pieces.
pub open spec fn piece_views(ps: Seq<LinePiece>) -> Seq<LinePieceView> {
    ps.map_values(|p: LinePiece| p@)
}

/// The height of line `l` given by pieces `ps`.
fn max_h_on_exec(ps: &Vec<LinePiece>, l: u64) -> (h: i32)
    ensures
        h as int == max_h_on(piece_views(ps@), l),
{
    let ghost v = piece_views(ps@);
    let mut h: i32 = 1;
    let mut j: usize = 0;
    assert(v.take(0) =~= Seq::<LinePieceView>::empty());
    while j < ps.len()
        invariant
            j <= ps@.len(),
            v == piece_views(ps@),
            h as int == max_h_on(v.take(j as int), l),
        decreases ps@.len() - j,
    {
        let q = &ps[j];
        proof {
            let t = v.take(j + 1);
            assert(t.drop_last() =~= v.take(j as int));
            assert(t.last() == q@);
        }
        if q.line_id == l && q.h > h {
            h = q.h;
        }
        j = j + 1;
    }
    assert(v.take(ps@.len() as int) =~= v);
    h
}

/// The height of line `l` over a buffer.
fn max_h_in_exec(bufs: &Vec<RichData>, l: u64) -> (h: i32)
    ensures
        h as int == max_h_in(views(bufs@), l),
{
    let ghost v = views(bufs@);
    let mut h: i32 = 1;
    let mut k: usize = 0;
    assert(v.take(0) =~= Seq::<RichDataView>::empty());
    while k < bufs.len()
        invariant
            k <= bufs@.len(),
            v == views(bufs@),
            h as int == max_h_in(v.take(k as int), l),
        decreases bufs@.len() - k,
    {
        proof {
            let t = v.take(k + 1);
            assert(t.drop_last() =~= v.take(k as int));
            assert(t.last() == bufs@[k as int]@);
            assert(v[k as int].line_pieces == piece_views(bufs@[k as int].line_pieces@));
        }
        let b = max_h_on_exec(&bufs[k].line_pieces, l);
        if b > h {
            h = b;
        }
        k = k + 1;
    }
    assert(v.take(bufs@.len() as int) =~= v);
    h
}

/// Whether a piece of `ps` on line `l` holds or joins an image.
fn image_on_exec(ps: &Vec<LinePiece>, l: u64) -> (b: bool)
    ensures
        b == image_on(piece_views(ps@), l),
{
    let ghost v = piece_views(ps@);
    let mut j: usize = 0;
    while j < ps.len()
        invariant
            j <= ps@.len(),
            v == piece_views(ps@),
            forall|i: int| 0 <= i < j ==> !(v[i].line_id == l && v[i].line_has_image),
        decreases ps@.len() - j,
    {
        assert(v[j as int] == ps@[j as int]@);
        if ps[j].line_id == l && ps[j].line_has_image {
            return true;
        }
        j = j + 1;
    }
    false
}

/// Whether a piece on line `l` in a buffer holds or joins an image.
fn image_in_exec(bufs: &Vec<RichData>, l: u64) -> (b: bool)
    ensures
        b == image_in(views(bufs@), l),
{
    let ghost v = views(bufs@);
    let mut k: usize = 0;
    while k < bufs.len()
        invariant
            k <= bufs@.len(),
            v == views(bufs@),
            forall|i: int| 0 <= i < k ==> !image_on(v[i].line_pieces, l),
        decreases bufs@.len() - k,
    {
        assert(v[k as int].line_pieces == piece_views(bufs@[k as int].line_pieces@));
        if image_on_exec(&bufs[k].line_pieces, l) {
            return true;
        }
        k = k + 1;
    }
    false
}

/// How many of the pieces `ps` lie on line `l`.
fn count_on_exec(ps: &Vec<LinePiece>, l: u64) -> (c: usize)
    ensures
        c as int == count_on(piece_views(ps@), l),
{
    let ghost v = piece_views(ps@);
    let mut c: usize = 0;
    let mut j: usize = 0;
    assert(v.take(0) =~= Seq::<LinePieceView>::empty());
    while j < ps.len()
        invariant
            j <= ps@.len(),
            v == piece_views(ps@),
            c as int == count_on(v.take(j as int), l),
            c <= j,
        decreases ps@.len() - j,
    {
        proof {
            let t = v.take(j + 1);
            assert(t.drop_last() =~= v.take(j as int));
            assert(t.last() == ps@[j as int]@);
        }
        if ps[j].line_id == l {
            c = c + 1;
        }
        j = j + 1;
    }
    assert(v.take(ps@.len() as int) =~= v);
    c
}

/// What the layout knows of line `l`, as `line_stats` says.
fn line_stats_exec(bufs: &Vec<RichData>, own: &Vec<LinePiece>, l: u64) -> (st: (i32, usize, bool))
    ensures
        (st.0 as int, st.1 as int, st.2) == line_stats(views(bufs@), piece_views(own@), l),
        1 <= st.0,
{
    proof {
        lemma_max_h_in_bounds(views(bufs@), l);
        lemma_max_h_on_bounds(piece_views(own@), l);
    }
    let a = max_h_in_exec(bufs, l);
    let b = max_h_on_exec(own, l);
    let c = count_on_exec(own, l);
    let img = image_in_exec(bufs, l) || image_on_exec(own, l);
    (if a > b { a } else { b }, c, img)
}

/// Whether a value fits in `i32`.
fn fits_i32_exec(v: i64) -> (b: bool)
    ensures
        b == fits_i32(v as int),
{
    i32::MIN as i64 <= v && v <= i32::MAX as i64
}

/// Whether settling `q` with stats `st` stays within `i32`, as
/// `settle_fits` says.
fn settle_fits_exec(q: &LinePiece, st: (i32, usize, bool)) -> (b: bool)
    requires
        st.0 >= 1,
    ensures
        b == settle_fits(q@, (st.0 as int, st.1 as int, st.2)),
{
    let (maxh, cnt, img) = st;
    if q.h >= maxh {
        return true;
    }
    let d: i64 = maxh as i64 - q.h as i64;
    let y: i64 = q.top_y as i64 + d / 2;
    assert(d / 2 == half_toward_zero(d as int));
    if !(fits_i32_exec(d) && fits_i32_exec(y) && fits_i32_exec(y + q.h as i64)) {
        return false;
    }
    if ends_nl(&q.line) {
        let base: i64 = if cnt == 1 { q.y as i64 } else { y };
        let pad: i64 = if img { IMAGE_PADDING_V as i64 } else { 0 };
        fits_i32_exec(base + maxh as i64) && fits_i32_exec(base + maxh as i64 + pad)
    } else {
        true
    }
}

/// Settles a piece on a line with the given height, count and image mark.
fn settle_piece(q: &mut LinePiece, st: (i32, usize, bool))
    requires
        settle_fits(old(q)@, (st.0 as int, st.1 as int, st.2)),
        1 <= st.0,
    ensures
        final(q)@ == settled(old(q)@, (st.0 as int, st.1 as int, st.2)),
{
    let (maxh, cnt, img) = st;
    let moved = q.h < maxh;
    let old_y = q.y;
    if moved {
        let d = maxh - q.h;
        let y = q.top_y + d / 2;
        if ends_nl(&q.line) {
            let base = if cnt == 1 { old_y } else { y };
            let b = base + maxh;
            q.next_y = b + if img { IMAGE_PADDING_V } else { 0 };
        }
        q.y = y;
    }
    q.line_max_h = maxh;
    q.line_has_image = img;
}

/// The bottom given by the last piece before `j` on line `l` that moves.
fn last_moved_on_exec(ps: &Vec<LinePiece>, l: u64, maxh: i32) -> (r: Option<i32>)
    requires
        forall|j: int| 0 <= j < ps@.len() && #[trigger] piece_views(ps@)[j].line_id == l
            ==> moved_fits(piece_views(ps@)[j], maxh as int),
    ensures
        match r {
            Some(v) => last_moved_on(piece_views(ps@), l, maxh as int, ps@.len() as int) == Some(v as int),
            None => last_moved_on(piece_views(ps@), l, maxh as int, ps@.len() as int) is None,
        },
{
    let ghost v = piece_views(ps@);
    let mut j = ps.len();
    while j > 0
        invariant
            j <= ps@.len(),
            v == piece_views(ps@),
            forall|i: int| 0 <= i < ps@.len() && #[trigger] v[i].line_id == l ==> moved_fits(v[i], maxh as int),
            last_moved_on(v, l, maxh as int, ps@.len() as int) == last_moved_on(v, l, maxh as int, j as int),
        decreases j,
    {
        let q = &ps[j - 1];
        assert(v[j - 1] == q@);
        if q.line_id == l && q.h < maxh {
            assert(moved_fits(v[j - 1], maxh as int));
            let d = maxh - q.h;
            let y = q.top_y + d / 2;
            return Some(y + q.h);
        }
        j = j - 1;
    }
    None
}

/// The stats of line `l` among those of the pieces `own`, where one of
/// them lies on it.
fn find_stats(own: &Vec<LinePiece>, stats: &Vec<(i32, usize, bool)>, l: u64,
    Ghost(bufs): Ghost<Seq<RichDataView>>) -> (r: Option<(i32, usize, bool)>)
    requires
        stats@.len() == own@.len(),
        forall|a: int| 0 <= a < own@.len() ==> {
            let st = #[trigger] stats@[a];
            &&& (st.0 as int, st.1 as int, st.2) == line_stats(bufs, piece_views(own@), own@[a].line_id)
            &&& 1 <= st.0
        },
    ensures
        match r {
            Some(st) => reached(piece_views(own@), l)
                && (st.0 as int, st.1 as int, st.2) == line_stats(bufs, piece_views(own@), l)
                && 1 <= st.0,
            None => !reached(piece_views(own@), l),
        },
{
    let mut a: usize = 0;
    while a < own.len()
        invariant
            a <= own@.len(),
            stats@.len() == own@.len(),
            forall|i: int| 0 <= i < a ==> own@[i].line_id != l,
            forall|i: int| 0 <= i < own@.len() ==> {
                let st = #[trigger] stats@[i];
                &&& (st.0 as int, st.1 as int, st.2) == line_stats(bufs, piece_views(own@), own@[i].line_id)
                &&& 1 <= st.0
            },
        decreases own@.len() - a,
    {
        if own[a].line_id == l {
            assert(piece_views(own@)[a as int].line_id == l);
            assert(reached(piece_views(own@), l));
            let st = stats[a];
            assert((st.0 as int, st.1 as int, st.2) == line_stats(bufs, piece_views(own@), own@[a as int].line_id));
            return Some(st);
        }
        a = a + 1;
    }
    proof {
        if reached(piece_views(own@), l) {
            let w = choose|w: int| 0 <= w < piece_views(own@).len() && piece_views(own@)[w].line_id == l;
            assert(own@[w].line_id == l);
        }
    }
    None
}

/// Whether settling the pieces `ps` stays within `i32`, as `pieces_fit`
/// says.
fn pieces_fit_exec(ps: &Vec<LinePiece>, own: &Vec<LinePiece>, stats: &Vec<(i32, usize, bool)>,
    Ghost(bufs): Ghost<Seq<RichDataView>>) -> (b: bool)
    requires
        stats@.len() == own@.len(),
        forall|a: int| 0 <= a < own@.len() ==> {
            let st = #[trigger] stats@[a];
            &&& (st.0 as int, st.1 as int, st.2) == line_stats(bufs, piece_views(own@), own@[a].line_id)
            &&& 1 <= st.0
        },
    ensures
        b == pieces_fit(piece_views(ps@), bufs, piece_views(own@)),
{
    let ghost v = piece_views(ps@);
    let ghost ov = piece_views(own@);
    let mut j: usize = 0;
    while j < ps.len()
        invariant
            j <= ps@.len(),
            v == piece_views(ps@),
            ov == piece_views(own@),
            stats@.len() == own@.len(),
            forall|a: int| 0 <= a < own@.len() ==> {
                let st = #[trigger] stats@[a];
                &&& (st.0 as int, st.1 as int, st.2) == line_stats(bufs, ov, own@[a].line_id)
                &&& 1 <= st.0
            },
            forall|i: int| 0 <= i < j && reached(ov, #[trigger] v[i].line_id)
                ==> settle_fits(v[i], line_stats(bufs, ov, v[i].line_id)),
        decreases ps@.len() - j,
    {
        assert(v[j as int] == ps@[j as int]@);
        match find_stats(own, stats, ps[j].line_id, Ghost(bufs)) {
            Some(st) => {
                if !settle_fits_exec(&ps[j], st) {
                    proof {
                        assert(reached(ov, v[j as int].line_id));
                        assert(!settle_fits(v[j as int], line_stats(bufs, ov, v[j as int].line_id)));
                    }
                    return false;
                }
            },
            None => {},
        }
        j = j + 1;
    }
    true
}

/// Settles the pieces of a list whose lines the new segment reaches.
fn settle_all(ps: &mut Vec<LinePiece>, own: &Vec<LinePiece>, stats: &Vec<(i32, usize, bool)>,
    Ghost(bufs): Ghost<Seq<RichDataView>>, Ghost(own_v): Ghost<Seq<LinePieceView>>)
    requires
        pieces_fit(piece_views(old(ps)@), bufs, own_v),
        own_v == piece_views(own@),
        stats@.len() == own@.len(),
        forall|a: int| 0 <= a < own@.len() ==> {
            let st = #[trigger] stats@[a];
            &&& (st.0 as int, st.1 as int, st.2) == line_stats(bufs, own_v, own@[a].line_id)
            &&& 1 <= st.0
        },
    ensures
        final(ps)@.len() == old(ps)@.len(),
        piece_views(final(ps)@) == settled_pieces(piece_views(old(ps)@), bufs, own_v),
{
    let ghost v0 = piece_views(ps@);
    let mut j: usize = 0;
    while j < ps.len()
        invariant
            j <= ps@.len(),
            ps@.len() == v0.len(),
            v0 == piece_views(old(ps)@),
            pieces_fit(v0, bufs, own_v),
            own_v == piece_views(own@),
            stats@.len() == own@.len(),
            forall|a: int| 0 <= a < own@.len() ==> {
                let st = #[trigger] stats@[a];
                &&& (st.0 as int, st.1 as int, st.2) == line_stats(bufs, own_v, own@[a].line_id)
                &&& 1 <= st.0
            },
            forall|i: int| 0 <= i < j ==> #[trigger] ps@[i]@ == after_layout(v0[i], bufs, own_v),
            forall|i: int| j <= i < ps@.len() ==> #[trigger] ps@[i]@ == v0[i],
        decreases ps@.len() - j,
    {
        let l = ps[j].line_id;
        assert(ps@[j as int]@ == v0[j as int]);
        match find_stats(own, stats, l, Ghost(bufs)) {
            Some(st) => {
                assert(v0[j as int].line_id == l);
                settle_piece(&mut ps[j], st);
            },
            None => {},
        }
        j = j + 1;
    }
    assert(piece_views(ps@) =~= settled_pieces(v0, bufs, own_v));
}

/// Makes every piece of a list carry the bounds `vb`.
fn set_bounds(ps: &mut Vec<LinePiece>, vb: (i32, i32, i32, i32))
    ensures
        final(ps)@.len() == old(ps)@.len(),
        piece_views(final(ps)@) == with_bounds(piece_views(old(ps)@), vb),
{
    let mut j: usize = 0;
    while j < ps.len()
        invariant
            j <= ps@.len(),
            ps@.len() == old(ps)@.len(),
            forall|i: int| 0 <= i < j ==> #[trigger] ps@[i]@ == (LinePieceView { rd_bounds: vb, ..old(ps)@[i]@ }),
            forall|i: int| j <= i < ps@.len() ==> #[trigger] ps@[i] == old(ps)@[i],
        decreases ps@.len() - j,
    {
        ps[j].rd_bounds = vb;
        j = j + 1;
    }
    assert(piece_views(ps@) =~= with_bounds(piece_views(old(ps)@), vb));
}

/// Whether laying out the segment with pieces `own` after the buffer stays
/// within `i32`, as `layout_fits` says.
fn layout_fits_exec(buffer: &Vec<RichData>, own: &Vec<LinePiece>, stats: &Vec<(i32, usize, bool)>,
    Ghost(bufs): Ghost<Seq<RichDataView>>) -> (b: bool)
    requires
        bufs == views(buffer@),
        stats@.len() == own@.len(),
        forall|i: int| 0 <= i < own@.len() ==> {
            let st = #[trigger] stats@[i];
            &&& (st.0 as int, st.1 as int, st.2) == line_stats(bufs, piece_views(own@), own@[i].line_id)
            &&& 1 <= st.0
        },
    ensures
        b == layout_fits(bufs, piece_views(own@)),
{
    let ghost own_v = piece_views(own@);
    let n = buffer.len();
    let mut k: usize = 0;
    while k < n
        invariant
            k <= n,
            n == buffer@.len(),
            bufs == views(buffer@),
            own_v == piece_views(own@),
            stats@.len() == own@.len(),
            forall|i: int| 0 <= i < own@.len() ==> {
                let st = #[trigger] stats@[i];
                &&& (st.0 as int, st.1 as int, st.2) == line_stats(bufs, own_v, own@[i].line_id)
                &&& 1 <= st.0
            },
            forall|i: int| 0 <= i < k ==> pieces_fit(#[trigger] bufs[i].line_pieces, bufs, own_v),
        decreases n - k,
    {
        assert(bufs[k as int].line_pieces == piece_views(buffer@[k as int].line_pieces@));
        if !pieces_fit_exec(&buffer[k].line_pieces, own, stats, Ghost(bufs)) {
            return false;
        }
        k = k + 1;
    }
    if !pieces_fit_exec(own, own, stats, Ghost(bufs)) {
        return false;
    }
    let np = own.len();
    if np > 0 {
        let q = &own[np - 1];
        let st = stats[np - 1];
        assert(own_v.last() == q@);
        if !(fits_i32_exec(q.top_y as i64 + st.0 as i64) && fits_i32_exec(q.x as i64 + q.w as i64)) {
            return false;
        }
    }
    true
}

/// Finishes the layout of a segment `rd`, whose pieces were placed after
/// the buffer starting at `top_y` with `ret` the last piece placed: the
/// pieces on the lines it reaches settle, in the buffer too (see
/// `segment_after`), and the segment gets its bounds. Returns the last
/// piece, from which the cursor goes on; none, with nothing changed, where
/// a value it computes does not fit in `i32`.
pub fn finish_layout(buffer: &mut Vec<RichData>, rd: &mut RichData, top_y: i32, ret: LinePiece) -> (r: Option<LinePiece>)
    ensures
        ({
            let bufs = views(old(buffer)@);
            let own = old(rd)@.line_pieces;
            match r {
                None => {
                    &&& !layout_fits(bufs, own)
                    &&& final(buffer)@ == old(buffer)@
                    &&& final(rd)@ == old(rd)@
                },
                Some(c) => {
                    let settled_own = settled_pieces(own, bufs, own);
                    let vb = own_bounds(settled_own, top_y);
                    &&& layout_fits(bufs, own)
                    &&& views(final(buffer)@) == Seq::new(bufs.len(), |k: int| segment_after(bufs[k], bufs, own))
                    &&& final(rd)@ == (RichDataView { line_pieces: with_bounds(settled_own, vb), v_bounds: vb, ..old(rd)@ })
                    &&& c@ == if own.len() > 0 { with_bounds(settled_own, vb).last() } else { ret@ }
                },
            }
        }),
{
    let ghost bufs = views(buffer@);
    let ghost own_v = rd@.line_pieces;
    assert(own_v == piece_views(rd.line_pieces@));
    let mut stats: Vec<(i32, usize, bool)> = Vec::new();
    let mut a: usize = 0;
    while a < rd.line_pieces.len()
        invariant
            a <= rd.line_pieces@.len(),
            stats@.len() == a,
            bufs == views(buffer@),
            own_v == piece_views(rd.line_pieces@),
            forall|i: int| 0 <= i < a ==> {
                let st = #[trigger] stats@[i];
                &&& (st.0 as int, st.1 as int, st.2) == line_stats(bufs, own_v, rd.line_pieces@[i].line_id)
                &&& 1 <= st.0
            },
        decreases rd.line_pieces@.len() - a,
    {
        let st = line_stats_exec(buffer, &rd.line_pieces, rd.line_pieces[a].line_id);
        stats.push(st);
        a = a + 1;
    }
    if !layout_fits_exec(buffer, &rd.line_pieces, &stats, Ghost(bufs)) {
        return None;
    }
    let n = buffer.len();
    assert(layout_fits(bufs, own_v));
    let mut k: usize = 0;
    while k < n
        invariant
            k <= n,
            n == buffer@.len(),
            bufs.len() == n,
            layout_fits(bufs, own_v),
            own_v == piece_views(rd.line_pieces@),
            stats@.len() == rd.line_pieces@.len(),
            forall|i: int| 0 <= i < rd.line_pieces@.len() ==> {
                let st = #[trigger] stats@[i];
                &&& (st.0 as int, st.1 as int, st.2) == line_stats(bufs, own_v, rd.line_pieces@[i].line_id)
                &&& 1 <= st.0
            },
            forall|i: int| 0 <= i < k ==> #[trigger] buffer@[i]@ == segment_after(bufs[i], bufs, own_v),
            forall|i: int| k <= i < n ==> #[trigger] buffer@[i]@ == bufs[i],
            rd@ == old(rd)@,
        decreases n - k,
    {
        assert(buffer@[k as int]@ == bufs[k as int]);
        let ghost ps0 = bufs[k as int].line_pieces;
        assert(pieces_fit(ps0, bufs, own_v));
        let mut bottom: Option<i32> = None;
        let mut a: usize = 0;
        while a < rd.line_pieces.len()
            invariant
                a <= rd.line_pieces@.len(),
                stats@.len() == rd.line_pieces@.len(),
                own_v == piece_views(rd.line_pieces@),
                k < buffer@.len(),
                ps0 == piece_views(buffer@[k as int].line_pieces@),
                pieces_fit(ps0, bufs, own_v),
                forall|i: int| 0 <= i < rd.line_pieces@.len() ==> {
                    let st = #[trigger] stats@[i];
                    &&& (st.0 as int, st.1 as int, st.2) == line_stats(bufs, own_v, rd.line_pieces@[i].line_id)
                    &&& 1 <= st.0
                },
                match bottom {
                    Some(b) => last_bottom(ps0, bufs, own_v, a as int) == Some(b as int),
                    None => last_bottom(ps0, bufs, own_v, a as int) is None,
                },
            decreases rd.line_pieces@.len() - a,
        {
            let l = rd.line_pieces[a].line_id;
            let maxh = stats[a].0;
            assert(own_v[a as int].line_id == l);
            proof {
                assert(reached(own_v, l));
                assert forall|j: int| 0 <= j < ps0.len() && #[trigger] ps0[j].line_id == l
                    implies moved_fits(ps0[j], maxh as int) by {
                    assert(settle_fits(ps0[j], line_stats(bufs, own_v, ps0[j].line_id)));
                }
            }
            match last_moved_on_exec(&buffer[k].line_pieces, l, maxh) {
                Some(b) => { bottom = Some(b); },
                None => {},
            }
            a = a + 1;
        }
        assert(own_v.len() == rd.line_pieces@.len());
        settle_all(&mut buffer[k].line_pieces, &rd.line_pieces, &stats, Ghost(bufs), Ghost(own_v));
        match bottom {
            Some(b) => {
                buffer[k].v_bounds.1 = b;
                let vb = buffer[k].v_bounds;
                set_bounds(&mut buffer[k].line_pieces, vb);
            },
            None => {},
        }
        proof {
            assert(buffer@[k as int]@ =~= segment_after(bufs[k as int], bufs, own_v));
        }
        k = k + 1;
    }
    let ghost b_final = views(buffer@);
    assert(b_final =~= Seq::new(bufs.len(), |i: int| segment_after(bufs[i], bufs, own_v)));
    let stats_copy = stats;
    let mut own_pieces = Vec::new();
    std::mem::swap(&mut own_pieces, &mut rd.line_pieces);
    let own_ref = copy_piece_list(&own_pieces);
    proof {
        assert(piece_views(own_ref@) == own_v);
        assert forall|a: int| 0 <= a < own_ref@.len() implies {
            let st = #[trigger] stats_copy@[a];
            &&& (st.0 as int, st.1 as int, st.2) == line_stats(bufs, own_v, own_ref@[a].line_id)
            &&& 1 <= st.0
        } by {
            assert(own_ref@[a]@ == own_v[a]);
            assert(own_pieces@[a]@ == own_v[a]);
        }
    }
    settle_all(&mut own_pieces, &own_ref, &stats_copy, Ghost(bufs), Ghost(own_v));
    let np = own_pieces.len();
    let vb = if np == 0 {
        (top_y, top_y, 0, 0)
    } else {
        let first = &own_pieces[0];
        let last = &own_pieces[np - 1];
        proof {
            let j = np - 1;
            assert(reached(own_v, own_v[j as int].line_id));
            assert(settled_pieces(own_v, bufs, own_v)[j as int] == after_layout(own_v[j as int], bufs, own_v));
            assert(own_v.last() == own_v[j as int]);
            lemma_max_h_in_bounds(bufs, own_v[j as int].line_id);
            lemma_max_h_on_bounds(own_v, own_v[j as int].line_id);
        }
        (first.top_y, last.top_y + last.line_max_h, first.x, last.x + last.w)
    };
    assert(vb == own_bounds(settled_pieces(own_v, bufs, own_v), top_y));
    set_bounds(&mut own_pieces, vb);
    let result = if np == 0 { ret } else { own_pieces[np - 1].duplicate() };
    rd.line_pieces = own_pieces;
    rd.v_bounds = vb;
    assert(rd@ =~= RichDataView { line_pieces: with_bounds(settled_pieces(own_v, bufs, own_v), vb), v_bounds: vb, ..old(rd)@ });
    Some(result)
}

/// A copy of a list of pieces.
fn copy_piece_list(ps: &Vec<LinePiece>) -> (r: Vec<LinePiece>)
    ensures
        piece_views(r@) == piece_views(ps@),
{
    let r = crate::data::copy_pieces(ps);
    r
}

/// Where a wrap stands: the text still to place, the last piece placed,
/// the measured width of the text, and the font height.
#[derive(Debug)]
pub struct WrapState {
    pub text: Vec<char>,
    pub last: LinePiece,
    pub measure_width: i32,
    pub font_height: i32,
}

/// The contents of a wrap state.
pub struct WrapView {
    pub text: Seq<char>,
    pub last: LinePieceView,
    pub measure_width: i32,
    pub font_height: i32,
}

impl View for WrapState {
    type V = WrapView;

    open spec fn view(&self) -> WrapView {
        WrapView { text: self.text@, last: self.last@, measure_width: self.measure_width, font_height: self.font_height }
    }
}

/// What placing text did.
#[derive(Debug)]
pub enum Placement {
    /// A piece was placed; it is the new last piece.
    Placed(LinePiece),
    /// The text does not fit the rest of the line and wraps from here.
    Wrap(WrapState),
    /// A place would leave the range of `i32`; nothing was placed.
    Overflow,
}

/// What placing text does, in spec terms.
pub enum PlacementView {
    Placed(LinePieceView),
    Wrap(WrapView),
}

/// The view of a placement that did not overflow.
pub open spec fn placement_view(p: Placement) -> Option<PlacementView> {
    match p {
        Placement::Placed(q) => Some(PlacementView::Placed(q@)),
        Placement::Wrap(w) => Some(PlacementView::Wrap(w@)),
        Placement::Overflow => None,
    }
}

/// The line height for the font size of a segment.
pub open spec fn ref_height(rd: RichDataView) -> int {
    spec_line_height(rd.font_size as int)
}

/// Placing `line`, `tw` wide and `clh` high, at the place `(ax, ay)` with
/// spacing `asp` that the anchor piece leaves, on the line of `ret` or a
/// new line of height `hl`; a line feed at its end sends the next piece to
/// the start of the panel line below, `hl` lower.
pub open spec fn anchored_step(ctx: LayoutContext, rd: RichDataView, ret: LinePieceView, line: Seq<char>, tw: int, clh: int, rf: int,
    next_x: int, ax: int, ay: int, asp: int, hl: int) -> Option<(PlacementView, RichDataView, LayoutContext)>
{
    let rd1 = RichDataView { line_height: clh as i32, ..rd };
    let ends = ends_with_newline(line);
    let nx = if ends { PADDING_LEFT as int } else { next_x };
    let ny = ay + if ends { hl } else { 0 };
    let (li, ctx1) = line_for(ctx, PADDING_LEFT as int, ax, hl as i32, ret, false);
    if piece_fits(ax, ay, tw, clh, ay, nx, ny) {
        let p = new_piece(line, ax, ay, tw, clh, ay, asp, nx, ny, rf, rd1, li);
        Some((PlacementView::Placed(p), RichDataView { line_pieces: rd.line_pieces.push(p), ..rd1 }, ctx1))
    } else {
        None
    }
}

/// Placing one line `line` of a text with line feeds, measured `tw` wide
/// and `th` high, after the last piece `ret`, in a panel `max_width` wide:
/// the segment's line height becomes the larger of `th` and the font's
/// line height; a line wider than the rest of the panel line wraps; else
/// it follows the segment's last piece, or `ret` where the segment has
/// none (then a line feed makes the panel line at least as high as `ret`
/// unless `ret` ended a line itself), and a line ending in a line feed
/// sends the next piece to the start of the next panel line. Returns the
/// outcome, the segment and the identifiers; none where a place leaves the
/// range of `i32`.
pub open spec fn text_line_step(ctx: LayoutContext, rd: RichDataView, ret: LinePieceView, line: Seq<char>, tw: int, th: int, max_width: int)
    -> Option<(PlacementView, RichDataView, LayoutContext)>
{
    let rf = ref_height(rd);
    let clh = if rf > th { rf } else { th };
    let next_x = ret.next_x + tw;
    if !fits(next_x) {
        None
    } else if next_x > max_width {
        Some((PlacementView::Wrap(WrapView { text: line, last: ret, measure_width: tw as i32, font_height: rf as i32 }),
            RichDataView { line_height: clh as i32, ..rd }, ctx))
    } else if rd.line_pieces.len() > 0 {
        let lp = rd.line_pieces.last();
        anchored_step(ctx, rd, ret, line, tw, clh, rf, next_x, lp.next_x as int, lp.next_y as int, lp.spacing as int, clh)
    } else {
        let h2 = if ends_with_newline(line) && !ends_with_newline(ret.line) && ret.h > clh { ret.h as int } else { clh };
        anchored_step(ctx, rd, ret, line, tw, clh, rf, next_x, ret.next_x as int, ret.next_y as int, ret.spacing as int, h2)
    }
}

/// Places `line` at an anchor, as `anchored_step` says.
#[verifier::spinoff_prover]
#[verifier::rlimit(40)]
fn place_anchored(ctx: &mut LayoutContext, rd: &mut RichData, ret: &LinePiece, line: Vec<char>, tw: i32, clh: i32, rf: i32,
    next_x: i64, ax: i32, ay: i32, asp: i32, hl: i32) -> (r: Placement)
    requires
        old(ctx).next_line_id < u64::MAX,
        fits(next_x as int),
    ensures
        match anchored_step(*old(ctx), old(rd)@, ret@, line@, tw as int, clh as int, rf as int, next_x as int, ax as int, ay as int, asp as int, hl as int) {
            Some((pv, rdv, c)) => placement_view(r) == Some(pv) && final(rd)@ == rdv && *final(ctx) == c,
            None => r is Overflow && final(rd)@ == old(rd)@ && *final(ctx) == *old(ctx),
        },
{
    let ends = ends_nl(&line);
    let nx: i64 = if ends { PADDING_LEFT as i64 } else { next_x };
    let ny: i64 = ay as i64 + if ends { hl as i64 } else { 0 };
    if !piece_fits_exec(ax as i64, ay as i64, tw as i64, clh as i64, ay as i64, nx, ny) {
        return Placement::Overflow;
    }
    rd.line_height = clh;
    let li = create_or_update(ctx, PADDING_LEFT, ax, hl, ret, false);
    let p = make_piece(line, ax as i64, ay as i64, tw as i64, clh as i64, ay as i64, asp, nx, ny, rf, rd, li);
    let q = p.duplicate();
    rd.line_pieces.push(p);
    assert(rd@.line_pieces =~= old(rd)@.line_pieces.push(q@));
    Placement::Placed(q)
}

/// Places one line of a text with line feeds, as `text_line_step` says.
#[verifier::spinoff_prover]
#[verifier::rlimit(40)]
pub fn place_text_line(ctx: &mut LayoutContext, rd: &mut RichData, ret: &LinePiece, line: Vec<char>, tw: i32, th: i32, max_width: i32) -> (r: Placement)
    requires
        old(ctx).next_line_id < u64::MAX,
    ensures
        match text_line_step(*old(ctx), old(rd)@, ret@, line@, tw as int, th as int, max_width as int) {
            Some((pv, rdv, c)) => placement_view(r) == Some(pv) && final(rd)@ == rdv && *final(ctx) == c,
            None => r is Overflow && final(rd)@ == old(rd)@ && *final(ctx) == *old(ctx),
        },
{
    let rf = line_height_of(rd.font_size);
    let clh = if rf > th { rf } else { th };
    let next_x = ret.next_x as i64 + tw as i64;
    if narrow(next_x).is_none() {
        return Placement::Overflow;
    }
    if next_x > max_width as i64 {
        rd.line_height = clh;
        let last = ret.duplicate();
        return Placement::Wrap(WrapState { text: line, last, measure_width: tw, font_height: rf });
    }
    let np = rd.line_pieces.len();
    if np > 0 {
        let (ax, ay, asp) = (rd.line_pieces[np - 1].next_x, rd.line_pieces[np - 1].next_y, rd.line_pieces[np - 1].spacing);
        assert(rd@.line_pieces.last() == rd.line_pieces@[np - 1]@);
        place_anchored(ctx, rd, ret, line, tw, clh, rf, next_x, ax, ay, asp, clh)
    } else {
        let h2: i32 = if ends_nl(&line) && !ends_nl(&ret.line) && ret.h > clh { ret.h } else { clh };
        place_anchored(ctx, rd, ret, line, tw, clh, rf, next_x, ret.next_x, ret.next_y, ret.spacing, h2)
    }
}

/// Placing a text without line feeds, measured `tw` wide, whose basic
/// character is `th` high, after `ret`, with `descent` below the font's
/// base line: the segment's line height becomes the larger of `th` and the
/// font's line height; a text wider than the rest of the panel line wraps;
/// else it follows `ret` on its line, with the smaller of `ret`'s spacing
/// and the descent as its spacing and the segment's piece spacing after it.
pub open spec fn single_text_step(ctx: LayoutContext, rd: RichDataView, ret: LinePieceView, tw: int, th: int, descent: int, max_width: int)
    -> Option<(PlacementView, RichDataView, LayoutContext)>
{
    let rf = ref_height(rd);
    let spacing = if ret.spacing < descent { ret.spacing as int } else { descent };
    let rd1 = RichDataView { line_height: (if rf > th { rf } else { th }) as i32, ..rd };
    let (start_x, top_y) = (ret.next_x as int, ret.next_y as int);
    let next_x = start_x + tw + rd.piece_spacing;
    if !fits(next_x) {
        None
    } else if next_x > max_width {
        Some((PlacementView::Wrap(WrapView { text: rd.text, last: ret, measure_width: tw as i32, font_height: rf as i32 }), rd1, ctx))
    } else {
        let (li, ctx1) = line_for(ctx, PADDING_LEFT as int, start_x, rf as i32, ret, false);
        if piece_fits(start_x, top_y, tw, rf, top_y, next_x, top_y) {
            let p = new_piece(rd.text, start_x, top_y, tw, rf, top_y, spacing, next_x, top_y, rf, rd1, li);
            Some((PlacementView::Placed(p), RichDataView { line_pieces: rd.line_pieces.push(p), ..rd1 }, ctx1))
        } else {
            None
        }
    }
}

/// Places a text without line feeds, as `single_text_step` says.
#[verifier::spinoff_prover]
#[verifier::rlimit(40)]
pub fn place_single_text(ctx: &mut LayoutContext, rd: &mut RichData, ret: &LinePiece, tw: i32, th: i32, descent: i32, max_width: i32) -> (r: Placement)
    requires
        old(ctx).next_line_id < u64::MAX,
    ensures
        match single_text_step(*old(ctx), old(rd)@, ret@, tw as int, th as int, descent as int, max_width as int) {
            Some((pv, rdv, c)) => placement_view(r) == Some(pv) && final(rd)@ == rdv && *final(ctx) == c,
            None => r is Overflow && final(rd)@ == old(rd)@ && *final(ctx) == *old(ctx),
        },
{
    let rf = line_height_of(rd.font_size);
    let spacing = if ret.spacing < descent { ret.spacing } else { descent };
    let lh = if rf > th { rf } else { th };
    let (start_x, top_y) = (ret.next_x as i64, ret.next_y as i64);
    let next_x = start_x + tw as i64 + rd.piece_spacing as i64;
    if narrow(next_x).is_none() {
        return Placement::Overflow;
    }
    if next_x > max_width as i64 {
        rd.line_height = lh;
        let text = rd.text.clone();
        assert(text@ =~= rd.text@);
        let last = ret.duplicate();
        return Placement::Wrap(WrapState { text, last, measure_width: tw, font_height: rf });
    }
    if !piece_fits_exec(start_x, top_y, tw as i64, rf as i64, top_y, next_x, top_y) {
        return Placement::Overflow;
    }
    rd.line_height = lh;
    let li = create_or_update(ctx, PADDING_LEFT, ret.next_x, rf, ret, false);
    let text = rd.text.clone();
    assert(text@ =~= rd.text@);
    let p = make_piece(text, start_x, top_y, tw as i64, rf as i64, top_y, spacing, next_x, top_y, rf, rd, li);
    let q = p.duplicate();
    rd.line_pieces.push(p);
    assert(rd@.line_pieces =~= old(rd)@.line_pieces.push(q@));
    Placement::Placed(q)
}

/// What a wrap step did.
#[derive(Debug)]
pub enum WrapNext {
    /// The text is placed; this is the last piece.
    Done(LinePiece),
    /// More text is left, from this state.
    Again(WrapState),
    /// A place would leave the range of `i32`; nothing was placed.
    Overflow,
}

/// What a wrap step does, in spec terms.
pub enum WrapNextView {
    Done(LinePieceView),
    Again(WrapView),
}

/// The view of a wrap step that did not overflow.
pub open spec fn wrap_next_view(w: WrapNext) -> Option<WrapNextView> {
    match w {
        WrapNext::Done(p) => Some(WrapNextView::Done(p@)),
        WrapNext::Again(st) => Some(WrapNextView::Again(st@)),
        WrapNext::Overflow => None,
    }
}

/// The longest prefix among the first `hi` that fits from `x` within
/// `max_width`, where `widths[i]` is the width of the first `i`
/// characters.
pub open spec fn stop_position(widths: Seq<i32>, x: int, max_width: int, hi: int) -> Option<int>
    decreases hi,
{
    if hi <= 0 {
        None
    } else if x + widths[hi - 1] <= max_width {
        Some(hi - 1)
    } else {
        stop_position(widths, x, max_width, hi - 1)
    }
}

/// The rest of a cut text, `rw` wide, placed at the start of the panel
/// line at `ny`, after the first part `p1` was added to `rd1`; a rest that
/// ends in a line feed sends the next piece to the line below.
pub open spec fn rest_step(ctx1: LayoutContext, rd: RichDataView, rd1: RichDataView, last: LinePieceView, rest: Seq<char>,
    rw: int, fh: int, ny: int) -> Option<(WrapNextView, RichDataView, LayoutContext)>
{
    let pl = PADDING_LEFT as int;
    let ends = ends_with_newline(rest);
    let rnx = if ends { pl } else { pl + rw + rd.piece_spacing };
    let rny = if ends { ny + fh + last.spacing } else { ny };
    let (li2, ctx2) = line_for(ctx1, pl, pl, fh as i32, last, false);
    if piece_fits(pl, ny, rw, fh, ny, rnx, rny) {
        let p2 = new_piece(rest, pl, ny, rw, fh, ny, last.spacing as int, rnx, rny, fh, rd, li2);
        Some((WrapNextView::Done(p2), RichDataView { line_pieces: rd1.line_pieces.push(p2), ..rd }, ctx2))
    } else {
        None
    }
}

/// Cutting the text of `st` after its first `stop` characters, `w` wide:
/// they stay on the panel line after `st.last` and the rest goes to the
/// start of the next panel line, below the tallest piece of the line; it
/// wraps again while it is wider than the panel, else it is placed there.
pub open spec fn cut_step(ctx: LayoutContext, rd: RichDataView, st: WrapView, stop: int, w: int, max_width: int)
    -> Option<(WrapNextView, RichDataView, LayoutContext)>
{
    let last = st.last;
    let fh = st.font_height as int;
    let pl = PADDING_LEFT as int;
    let (li, ctx1) = line_for(ctx, pl, last.next_x as int, fh as i32, last, false);
    let maxh = if li.1 > fh { li.1 as int } else { fh };
    let ny = last.next_y + maxh + last.spacing + if li.2 { IMAGE_PADDING_V * 2 } else { 0 };
    let rw = st.measure_width - w;
    let rest = st.text.skip(stop);
    if !piece_fits(last.next_x as int, last.next_y as int, w, fh, last.next_y as int, pl, ny) || !fits(rw) {
        None
    } else {
        let p1 = new_piece(st.text.take(stop), last.next_x as int, last.next_y as int, w, fh, last.next_y as int,
            last.spacing as int, pl, ny, fh, rd, li);
        let rd1 = RichDataView { line_pieces: rd.line_pieces.push(p1), ..rd };
        if rw > max_width {
            Some((WrapNextView::Again(WrapView { text: rest, last: p1, measure_width: rw as i32, font_height: fh as i32 }), rd1, ctx1))
        } else {
            rest_step(ctx1, rd, rd1, last, rest, rw, fh, ny)
        }
    }
}

/// Where no prefix fits the rest of the panel line: the text starts a new
/// panel line below the line of `st.last`, and wraps from there; the
/// segment is not changed yet.
pub open spec fn restart_step(ctx: LayoutContext, rd: RichDataView, st: WrapView) -> Option<(WrapNextView, RichDataView, LayoutContext)> {
    let last = st.last;
    let pl = PADDING_LEFT as int;
    let lh = rd.line_height as int;
    let (li, ctx1) = line_for(ctx, pl, pl, lh as i32, last, false);
    let y = last.next_y + last.line_max_h + last.spacing;
    if piece_fits(pl, y, st.measure_width as int, lh, y, pl, y) {
        let temp = new_piece(st.text, pl, y, st.measure_width as int, lh, y, last.spacing as int, pl, y, st.font_height as int, rd, li);
        Some((WrapNextView::Again(WrapView { text: st.text, last: temp, measure_width: st.measure_width, font_height: st.font_height }), rd, ctx1))
    } else {
        None
    }
}

/// One step of wrapping the text of `st` in a panel `max_width` wide,
/// where `widths[i]` is the width of the first `i` characters of the
/// text. Where a prefix fits the rest of the panel line, the longest one is
/// placed there and the rest goes to the next panel line (`cut_step`).
/// Where none fits, the text starts a new panel line below and wraps from
/// there (`restart_step`).
pub open spec fn wrap_spec(ctx: LayoutContext, rd: RichDataView, st: WrapView, widths: Seq<i32>, max_width: int)
    -> Option<(WrapNextView, RichDataView, LayoutContext)>
{
    let x = st.last.next_x + rd.piece_spacing;
    if !fits(x) {
        None
    } else {
        match stop_position(widths, x, max_width, st.text.len() as int) {
            Some(stop) => cut_step(ctx, rd, st, stop, widths[stop] as int, max_width),
            None => restart_step(ctx, rd, st),
        }
    }
}

/// The longest prefix that fits, as `stop_position` says.
fn find_stop(widths: &Vec<i32>, x: i64, max_width: i32) -> (r: Option<usize>)
    requires
        i32::MIN <= x <= i32::MAX,
    ensures
        match r {
            Some(i) => stop_position(widths@, x as int, max_width as int, widths@.len() as int) == Some(i as int) && i < widths@.len(),
            None => stop_position(widths@, x as int, max_width as int, widths@.len() as int) is None,
        },
{
    let mut hi = widths.len();
    while hi > 0
        invariant
            hi <= widths@.len(),
            i32::MIN <= x <= i32::MAX,
            stop_position(widths@, x as int, max_width as int, widths@.len() as int) == stop_position(widths@, x as int, max_width as int, hi as int),
        decreases hi,
    {
        if x + widths[hi - 1] as i64 <= max_width as i64 {
            return Some(hi - 1);
        }
        hi = hi - 1;
    }
    None
}

/// The first `n` characters of a text.
fn prefix_of(t: &Vec<char>, n: usize) -> (r: Vec<char>)
    requires
        n <= t@.len(),
    ensures
        r@ == t@.take(n as int),
{
    let mut r: Vec<char> = Vec::new();
    let mut i: usize = 0;
    while i < n
        invariant
            i <= n <= t@.len(),
            r@ == t@.take(i as int),
        decreases n - i,
    {
        r.push(t[i]);
        i = i + 1;
        assert(r@ =~= t@.take(i as int));
    }
    r
}

/// The characters of a text from `n` on.
fn suffix_of(t: &Vec<char>, n: usize) -> (r: Vec<char>)
    requires
        n <= t@.len(),
    ensures
        r@ == t@.skip(n as int),
{
    let mut r: Vec<char> = Vec::new();
    let mut i: usize = n;
    while i < t.len()
        invariant
            n <= i <= t@.len(),
            r@ == t@.subrange(n as int, i as int),
        decreases t@.len() - i,
    {
        r.push(t[i]);
        i = i + 1;
        assert(r@ =~= t@.subrange(n as int, i as int));
    }
    assert(r@ =~= t@.skip(n as int));
    r
}

/// Places the rest of a cut text, as `rest_step` says.
#[verifier::spinoff_prover]
#[verifier::rlimit(40)]
fn place_rest(ctx: &mut LayoutContext, rd: &mut RichData, last: &LinePiece, rest: Vec<char>, rw: i64, fh: i32, ny: i64)
    -> (r: WrapNext)
    requires
        old(ctx).next_line_id < u64::MAX,
        fits(rw as int),
        fits(ny as int),
    ensures
        match rest_step(*old(ctx), old(rd)@, old(rd)@, last@, rest@, rw as int, fh as int, ny as int) {
            Some((nv, rdv, c)) => wrap_next_view(r) == Some(nv) && final(rd)@ == rdv && *final(ctx) == c,
            None => r is Overflow && final(rd)@ == old(rd)@ && *final(ctx) == *old(ctx),
        },
{
    let pl = PADDING_LEFT as i64;
    let ends = ends_nl(&rest);
    let rnx: i64 = if ends { pl } else { pl + rw + rd.piece_spacing as i64 };
    let rny: i64 = if ends { ny + fh as i64 + last.spacing as i64 } else { ny };
    if !piece_fits_exec(pl, ny, rw, fh as i64, ny, rnx, rny) {
        return WrapNext::Overflow;
    }
    let li2 = create_or_update(ctx, PADDING_LEFT, PADDING_LEFT, fh, last, false);
    let p2 = make_piece(rest, pl, ny, rw, fh as i64, ny, last.spacing, rnx, rny, fh, rd, li2);
    let q2 = p2.duplicate();
    rd.line_pieces.push(p2);
    assert(rd@.line_pieces =~= old(rd)@.line_pieces.push(q2@));
    WrapNext::Done(q2)
}

/// Places the first `stop` characters of `text`, `w` wide, after `last`
/// on its panel line, with the next piece going to the start of the panel
/// line at `ny`.
#[verifier::spinoff_prover]
#[verifier::rlimit(40)]
fn place_head(ctx: &mut LayoutContext, rd: &mut RichData, last: &LinePiece, text: &Vec<char>, stop: usize, w: i32, fh: i32, ny: i64)
    -> (q: LinePiece)
    requires
        old(ctx).next_line_id < u64::MAX,
        stop <= text@.len(),
        piece_fits(last.next_x as int, last.next_y as int, w as int, fh as int, last.next_y as int, PADDING_LEFT as int, ny as int),
    ensures
        ({
            let (li, c1) = line_for(*old(ctx), PADDING_LEFT as int, last.next_x as int, fh, last@, false);
            &&& *final(ctx) == c1
            &&& q@ == new_piece(text@.take(stop as int), last.next_x as int, last.next_y as int, w as int, fh as int,
                    last.next_y as int, last.spacing as int, PADDING_LEFT as int, ny as int, fh as int, old(rd)@, li)
            &&& final(rd)@ == (RichDataView { line_pieces: old(rd)@.line_pieces.push(q@), ..old(rd)@ })
        }),
{
    let li = create_or_update(ctx, PADDING_LEFT, last.next_x, fh, last, false);
    let head = prefix_of(text, stop);
    let p1 = make_piece(head, last.next_x as i64, last.next_y as i64, w as i64, fh as i64, last.next_y as i64, last.spacing,
        PADDING_LEFT as i64, ny, fh, rd, li);
    let q1 = p1.duplicate();
    rd.line_pieces.push(p1);
    assert(rd@.line_pieces =~= old(rd)@.line_pieces.push(q1@));
    q1
}

/// Cuts the text of `st` after `stop` characters, as `cut_step` says.
#[verifier::spinoff_prover]
#[verifier::rlimit(40)]
fn cut_text(ctx: &mut LayoutContext, rd: &mut RichData, st: WrapState, stop: usize, w: i32, max_width: i32) -> (r: WrapNext)
    requires
        old(ctx).next_line_id < u64::MAX - 1,
        stop <= st.text@.len(),
    ensures
        match cut_step(*old(ctx), old(rd)@, st@, stop as int, w as int, max_width as int) {
            Some((nv, rdv, c)) => wrap_next_view(r) == Some(nv) && final(rd)@ == rdv && *final(ctx) == c,
            None => r is Overflow && final(rd)@ == old(rd)@ && *final(ctx) == *old(ctx),
        },
{
    let fh = st.font_height;
    let pl = PADDING_LEFT as i64;
    let ghost (li_s, ctx1_s) = line_for(*ctx, pl as int, st.last.next_x as int, fh, st.last@, false);
    let li_max: i32 = if st.last.next_x as i64 == pl { fh } else { st.last.line_max_h };
    let li_img: bool = if st.last.next_x as i64 == pl { false } else { st.last.line_has_image };
    assert(li_max == li_s.1 && li_img == li_s.2);
    let maxh: i64 = if li_max as i64 > fh as i64 { li_max as i64 } else { fh as i64 };
    let ny = st.last.next_y as i64 + maxh + st.last.spacing as i64 + if li_img { IMAGE_PADDING_V as i64 * 2 } else { 0 };
    let rw = st.measure_width as i64 - w as i64;
    if !piece_fits_exec(st.last.next_x as i64, st.last.next_y as i64, w as i64, fh as i64, st.last.next_y as i64, pl, ny)
        || narrow(rw).is_none() {
        return WrapNext::Overflow;
    }
    let rest = suffix_of(&st.text, stop);
    if rw > max_width as i64 {
        let q1 = place_head(ctx, rd, &st.last, &st.text, stop, w, fh, ny);
        WrapNext::Again(WrapState { text: rest, last: q1, measure_width: rw as i32, font_height: fh })
    } else {
        let ends = ends_nl(&rest);
        let rnx: i64 = if ends { pl } else { pl + rw + rd.piece_spacing as i64 };
        let rny: i64 = if ends { ny + fh as i64 + st.last.spacing as i64 } else { ny };
        if !piece_fits_exec(pl, ny, rw, fh as i64, ny, rnx, rny) {
            return WrapNext::Overflow;
        }
        let _ = place_head(ctx, rd, &st.last, &st.text, stop, w, fh, ny);
        place_rest(ctx, rd, &st.last, rest, rw, fh, ny)
    }
}

/// Starts the text of `st` on a new panel line, as `restart_step` says.
fn restart_line(ctx: &mut LayoutContext, rd: &RichData, st: WrapState) -> (r: WrapNext)
    requires
        old(ctx).next_line_id < u64::MAX,
    ensures
        match restart_step(*old(ctx), rd@, st@) {
            Some((nv, rdv, c)) => wrap_next_view(r) == Some(nv) && rdv == rd@ && *final(ctx) == c,
            None => r is Overflow && *final(ctx) == *old(ctx),
        },
{
    let last = &st.last;
    let pl = PADDING_LEFT as i64;
    let lh = rd.line_height;
    let y = last.next_y as i64 + last.line_max_h as i64 + last.spacing as i64;
    if !piece_fits_exec(pl, y, st.measure_width as i64, lh as i64, y, pl, y) {
        return WrapNext::Overflow;
    }
    let li = create_or_update(ctx, PADDING_LEFT, PADDING_LEFT, lh, last, false);
    let text = st.text.clone();
    assert(text@ =~= st.text@);
    let temp = make_piece(text, pl, y, st.measure_width as i64, lh as i64, y, last.spacing, pl, y, st.font_height, rd, li);
    WrapNext::Again(WrapState { text: st.text, last: temp, measure_width: st.measure_width, font_height: st.font_height })
}

/// One step of wrapping text, as `wrap_spec` says.
pub fn wrap_step(ctx: &mut LayoutContext, rd: &mut RichData, st: WrapState, widths: &Vec<i32>, max_width: i32) -> (r: WrapNext)
    requires
        old(ctx).next_line_id < u64::MAX - 1,
        widths@.len() == st.text@.len(),
    ensures
        match wrap_spec(*old(ctx), old(rd)@, st@, widths@, max_width as int) {
            Some((nv, rdv, c)) => wrap_next_view(r) == Some(nv) && final(rd)@ == rdv && *final(ctx) == c,
            None => r is Overflow && final(rd)@ == old(rd)@ && *final(ctx) == *old(ctx),
        },
{
    let x = st.last.next_x as i64 + rd.piece_spacing as i64;
    if narrow(x).is_none() {
        return WrapNext::Overflow;
    }
    match find_stop(widths, x, max_width) {
        Some(stop) => {
            let w = widths[stop];
            cut_text(ctx, rd, st, stop, w, max_width)
        },
        None => restart_line(ctx, rd, st),
    }
}

/// A text cut after each line feed: every part but the last ends in a
/// line feed, and the parts make up the text.
pub open spec fn lines_inclusive(s: Seq<char>) -> Seq<Seq<char>>
    decreases s.len(),
{
    if s.len() == 0 {
        Seq::empty()
    } else {
        let r = lines_inclusive(s.drop_last());
        if r.len() > 0 && !ends_with_newline(r.last()) {
            r.update(r.len() - 1, r.last().push(s.last()))
        } else {
            r.push(seq![s.last()])
        }
    }
}

/// The lines a text is laid out by: none for a text without line feeds,
/// which is placed whole; else the text cut after each line feed.
pub fn text_lines(text: &Vec<char>) -> (r: Option<Vec<Vec<char>>>)
    ensures
        match r {
            None => !text@.contains('\n'),
            Some(parts) => text@.contains('\n') && parts@.map_values(|t: Vec<char>| t@) == lines_inclusive(text@),
        },
{
    let mut parts: Vec<Vec<char>> = Vec::new();
    let mut seen = false;
    let mut i: usize = 0;
    assert(text@.take(0) =~= Seq::<char>::empty());
    assert(parts@.map_values(|t: Vec<char>| t@) =~= lines_inclusive(text@.take(0)));
    while i < text.len()
        invariant
            i <= text@.len(),
            parts@.map_values(|t: Vec<char>| t@) == lines_inclusive(text@.take(i as int)),
            seen == text@.take(i as int).contains('\n'),
        decreases text@.len() - i,
    {
        let c = text[i];
        let ghost t = text@.take(i + 1);
        let ghost prev = parts@.map_values(|t: Vec<char>| t@);
        assert(t.drop_last() =~= text@.take(i as int));
        assert(t.last() == c);
        let n = parts.len();
        let open = n > 0 && {
            let m = parts[n - 1].len();
            !(m > 0 && parts[n - 1][m - 1] == '\n')
        };
        if open {
            assert(prev.last() == parts@[n - 1]@);
            let mut last = parts.pop().unwrap();
            last.push(c);
            parts.push(last);
            assert(parts@.map_values(|t: Vec<char>| t@) =~= prev.update(prev.len() - 1, prev.last().push(c)));
        } else {
            if n > 0 {
                assert(prev.last() == parts@[n - 1]@);
            }
            let mut fresh: Vec<char> = Vec::new();
            fresh.push(c);
            parts.push(fresh);
            assert(parts@.map_values(|t: Vec<char>| t@) =~= prev.push(seq![c]));
        }
        proof {
            if c == '\n' {
                assert(t[i as int] == '\n');
            }
            if t.contains('\n') {
                let k = choose|k: int| 0 <= k < t.len() && t[k] == '\n';
                if k < i {
                    assert(text@.take(i as int)[k] == '\n');
                }
            }
            if text@.take(i as int).contains('\n') {
                let k = choose|k: int| 0 <= k < i && text@.take(i as int)[k] == '\n';
                assert(t[k] == '\n');
            }
        }
        seen = seen || c == '\n';
        i = i + 1;
    }
    assert(text@.take(text@.len() as int) =~= text@);
    if seen { Some(parts) } else { None }
}

/// Laying a text out line by line loses no character and adds none: its
/// lines put together give the text back, every line holds a character,
/// and every line but the last ends in a line feed.
pub proof fn law_lines_make_the_text(s: Seq<char>)
    ensures
        lines_inclusive(s).flatten() == s,
        forall|i: int| 0 <= i < lines_inclusive(s).len() ==> #[trigger] lines_inclusive(s)[i].len() > 0,
        forall|i: int| 0 <= i < lines_inclusive(s).len() - 1 ==> ends_with_newline(#[trigger] lines_inclusive(s)[i]),
    decreases s.len(),
{
    lemma_lines_flatten_alt(s);
    lines_inclusive(s).lemma_flatten_and_flatten_alt_are_equivalent();
}

/// The lines of a text, put together from the last one, give the text,
/// and are shaped as `law_lines_make_the_text` says.
proof fn lemma_lines_flatten_alt(s: Seq<char>)
    ensures
        lines_inclusive(s).flatten_alt() == s,
        forall|i: int| 0 <= i < lines_inclusive(s).len() ==> #[trigger] lines_inclusive(s)[i].len() > 0,
        forall|i: int| 0 <= i < lines_inclusive(s).len() - 1 ==> ends_with_newline(#[trigger] lines_inclusive(s)[i]),
    decreases s.len(),
{
    if s.len() > 0 {
        let r = lines_inclusive(s.drop_last());
        lemma_lines_flatten_alt(s.drop_last());
        let c = s.last();
        if r.len() > 0 && !ends_with_newline(r.last()) {
            let u = r.update(r.len() - 1, r.last().push(c));
            assert(u.drop_last() =~= r.drop_last());
            assert(u.last() == r.last().push(c));
            assert(r.flatten_alt() == r.drop_last().flatten_alt() + r.last());
            assert(u.flatten_alt() =~= r.flatten_alt().push(c));
            assert(s =~= s.drop_last().push(c));
            assert forall|i: int| 0 <= i < u.len() - 1 implies ends_with_newline(#[trigger] u[i]) by {
                assert(u[i] == r[i]);
            }
        } else {
            let u = r.push(seq![c]);
            assert(u.drop_last() =~= r);
            assert(u.flatten_alt() =~= r.flatten_alt() + seq![c]);
            assert(s =~= s.drop_last().push(c));
            assert forall|i: int| 0 <= i < u.len() - 1 implies ends_with_newline(#[trigger] u[i]) by {
                assert(u[i] == r[i]);
            }
            assert forall|i: int| 0 <= i < u.len() implies #[trigger] u[i].len() > 0 by {
                if i < r.len() {
                    assert(u[i] == r[i]);
                }
            }
        }
    }
}

/// Wrapping keeps on the panel line the longest prefix that fits: where a
/// prefix is found, it fits within the width, and every longer one among
/// those looked at does not.
pub proof fn law_wrap_takes_longest_fit(widths: Seq<i32>, x: int, max_width: int, hi: int)
    ensures
        match stop_position(widths, x, max_width, hi) {
            Some(s) => 0 <= s < hi && x + widths[s] <= max_width
                && forall|j: int| s < j < hi ==> x + #[trigger] widths[j] > max_width,
            None => forall|j: int| 0 <= j < hi ==> x + #[trigger] widths[j] > max_width,
        },
    decreases hi,
{
    if hi > 0 {
        law_wrap_takes_longest_fit(widths, x, max_width, hi - 1);
    }
}

/// A wrap step that finishes a text places its rest at the start of a new
/// panel line, as wide as the measured width less the part kept before the
/// cut, and leaves the cursor after it: where the rest ends in a line feed,
/// at the start of the next panel line, one font height and the spacing
/// lower; else on the same line, after the rest and the piece spacing.
pub proof fn law_wrap_rest_leaves_cursor(ctx: LayoutContext, rd: RichDataView, st: WrapView, widths: Seq<i32>, max_width: int)
    ensures
        match wrap_spec(ctx, rd, st, widths, max_width) {
            Some((WrapNextView::Done(p), _, _)) => {
                &&& p.x == PADDING_LEFT
                &&& st.text.len() >= p.line.len()
                &&& p.line == st.text.skip(st.text.len() - p.line.len())
                &&& ends_with_newline(p.line) ==> {
                    &&& p.next_x == PADDING_LEFT
                    &&& p.next_y as int == p.y + st.font_height + st.last.spacing
                }
                &&& !ends_with_newline(p.line) ==> {
                    &&& p.next_x as int == PADDING_LEFT + p.w + rd.piece_spacing
                    &&& p.next_y == p.y
                }
            },
            _ => true,
        },
{
    let x = st.last.next_x + rd.piece_spacing;
    if fits(x) {
        match stop_position(widths, x, max_width, st.text.len() as int) {
            Some(stop) => {
                law_wrap_takes_longest_fit(widths, x, max_width, st.text.len() as int);
                let rest = st.text.skip(stop);
                assert(rest.len() == st.text.len() - stop);
            },
            None => {},
        }
    }
}

/// Lines center their lower pieces: once settled on a line `st.0` high, a
/// piece lower than the line lies within it, and a piece knows the line's
/// height.
pub proof fn law_settled_within_line(q: LinePieceView, st: (int, int, bool))
    requires
        0 <= q.h,
        q.h < st.0 <= i32::MAX,
        settle_fits(q, st),
    ensures
        q.top_y <= settled(q, st).y,
        settled(q, st).y + q.h <= q.top_y + st.0,
        settled(q, st).line_max_h == st.0,
        settled(q, st).h == q.h,
{
}

/// Text that fits the rest of its panel line is placed there, ending
/// within the panel width; text that does not fit wraps.
pub proof fn law_text_fits_or_wraps(ctx: LayoutContext, rd: RichDataView, ret: LinePieceView, tw: int, th: int, descent: int, max_width: int)
    ensures
        match single_text_step(ctx, rd, ret, tw, th, descent, max_width) {
            Some((PlacementView::Placed(p), _, _)) => p.next_x <= max_width && p.x == ret.next_x && p.w == tw,
            Some((PlacementView::Wrap(w), _, _)) => ret.next_x + tw + rd.piece_spacing > max_width && w.text == rd.text,
            None => true,
        },
{
}

/// A line of a text with line feeds that fits the rest of its panel line
/// is placed there within the panel width; a line that does not fit wraps.
pub proof fn law_line_fits_or_wraps(ctx: LayoutContext, rd: RichDataView, ret: LinePieceView, line: Seq<char>, tw: int, th: int, max_width: int)
    ensures
        match text_line_step(ctx, rd, ret, line, tw, th, max_width) {
            Some((PlacementView::Placed(p), _, _)) => ret.next_x + tw <= max_width && p.line == line && p.w == tw,
            Some((PlacementView::Wrap(w), _, _)) => ret.next_x + tw > max_width && w.text == line,
            None => true,
        },
{
}

} // verus!
