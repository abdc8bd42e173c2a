//! Finding what lies under the mouse: the data segment and the piece a
//! point falls on, the character under it, and the rows a drag selects.
//! Text widths are measured by the caller and handed in.

use vstd::prelude::*;
use crate::board::views;
use crate::data::{RichData, RichDataView, DataType};
use crate::geometry::{ClickPoint, Rectangle, normalized};
use crate::piece::{LinePiece, LinePieceView};

verus! {

/// A box as whole numbers: left, top, width, height.
pub type Area = (int, int, int, int);

/// Whether two boxes touch or overlap, borders included.
pub open spec fn touches(a: Area, b: Area) -> bool {
    &&& a.0 <= b.0 + b.2
    &&& a.0 + a.2 >= b.0
    &&& a.1 <= b.1 + b.3
    &&& a.1 + a.3 >= b.1
}

/// The box of a piece.
pub open spec fn piece_area(p: LinePieceView) -> Area {
    normalized(p.x as int, p.y as int, p.w as int, p.h as int)
}

/// The empty box at a point.
pub open spec fn point_area(pt: ClickPoint) -> Area {
    (pt.x as int, pt.y as int, 0, 0)
}

/// The box of a segment widened to the whole panel width.
pub open spec fn row_area(rd: RichDataView, panel_width: int) -> Area {
    (0, rd.v_bounds.0 as int, panel_width, rd.v_bounds.1 - rd.v_bounds.0)
}

/// The first piece from `j` on that the point touches.
pub open spec fn first_hit_from(ps: Seq<LinePieceView>, pt: ClickPoint, j: int) -> Option<int>
    decreases ps.len() - j,
{
    if j < 0 || j >= ps.len() {
        None
    } else if touches(piece_area(ps[j]), point_area(pt)) {
        Some(j)
    } else {
        first_hit_from(ps, pt, j + 1)
    }
}

/// The first piece that the point touches.
pub open spec fn first_hit(ps: Seq<LinePieceView>, pt: ClickPoint) -> Option<int> {
    first_hit_from(ps, pt, 0)
}

/// Where a segment lies relative to a point looked for, as a search over
/// the segments in order sees it.
#[derive(Debug, Clone, Copy, PartialEq, Eq, Structural)]
pub enum RowOrder {
    /// The point lies after the segment.
    Less,
    /// The point lies on a piece of the segment.
    Equal,
    /// The point lies before the segment.
    Greater,
}

/// Where segment `rd` lies relative to point `pt`, with `drag` the dragged
/// area: a segment whose panel-wide box touches the dragged area holds the
/// point where one of its pieces touches it, and else lies after the point
/// where the point is left of its first piece and above the bottom of that
/// piece's line; a segment apart from the dragged area lies after the point
/// where it starts below the area.
pub open spec fn row_order(rd: RichDataView, pt: ClickPoint, drag: Rectangle, panel_width: int) -> RowOrder {
    if touches(row_area(rd, panel_width), drag.spec_tup()) {
        if first_hit(rd.line_pieces, pt) is Some {
            RowOrder::Equal
        } else if rd.line_pieces.len() > 0 && pt.x < rd.line_pieces[0].x
            && pt.y < rd.line_pieces[0].top_y + rd.line_pieces[0].line_max_h {
            RowOrder::Greater
        } else {
            RowOrder::Less
        }
    } else if rd.v_bounds.0 > drag.1 + drag.3 {
        RowOrder::Greater
    } else {
        RowOrder::Less
    }
}

/// The rank of an order, for sortedness.
pub open spec fn rank(o: RowOrder) -> int {
    match o {
        RowOrder::Less => 0,
        RowOrder::Equal => 1,
        RowOrder::Greater => 2,
    }
}

/// The order of the segment that entry `i` of `index_vec` names.
pub open spec fn order_at(bufs: Seq<RichDataView>, index_vec: Seq<usize>, i: int, pt: ClickPoint, drag: Rectangle, panel_width: int) -> RowOrder {
    row_order(bufs[index_vec[i] as int], pt, drag, panel_width)
}

/// Whether the segments that `index_vec` names come in order: those before
/// the point, then those that hold it, then those after it. A search by
/// halving finds the point only then.
pub open spec fn orders_sorted(bufs: Seq<RichDataView>, index_vec: Seq<usize>, pt: ClickPoint, drag: Rectangle, panel_width: int) -> bool {
    forall|i: int, j: int| 0 <= i <= j < index_vec.len()
        ==> rank(#[trigger] order_at(bufs, index_vec, i, pt, drag, panel_width)) <= rank(#[trigger] order_at(bufs, index_vec, j, pt, drag, panel_width))
}

/// Whether two boxes touch or overlap, borders included.
fn touches_exec(a: (i64, i64, i64, i64), b: (i64, i64, i64, i64)) -> (r: bool)
    requires
        -0x4_0000_0000 <= a.0 <= 0x4_0000_0000 && -0x4_0000_0000 <= a.1 <= 0x4_0000_0000,
        -0x4_0000_0000 <= a.2 <= 0x4_0000_0000 && -0x4_0000_0000 <= a.3 <= 0x4_0000_0000,
        -0x4_0000_0000 <= b.0 <= 0x4_0000_0000 && -0x4_0000_0000 <= b.1 <= 0x4_0000_0000,
        -0x4_0000_0000 <= b.2 <= 0x4_0000_0000 && -0x4_0000_0000 <= b.3 <= 0x4_0000_0000,
    ensures
        r == touches((a.0 as int, a.1 as int, a.2 as int, a.3 as int), (b.0 as int, b.1 as int, b.2 as int, b.3 as int)),
{
    a.0 <= b.0 + b.2 && a.0 + a.2 >= b.0 && a.1 <= b.1 + b.3 && a.1 + a.3 >= b.1
}

/// The box of a piece.
fn piece_area_exec(p: &LinePiece) -> (r: (i64, i64, i64, i64))
    ensures
        (r.0 as int, r.1 as int, r.2 as int, r.3 as int) == piece_area(p@),
        -0x4_0000_0000 <= r.0 <= 0x4_0000_0000 && -0x4_0000_0000 <= r.1 <= 0x4_0000_0000,
        -0x4_0000_0000 <= r.2 <= 0x4_0000_0000 && -0x4_0000_0000 <= r.3 <= 0x4_0000_0000,
{
    let (x, y, w, h) = (p.x as i64, p.y as i64, p.w as i64, p.h as i64);
    (
        if w < 0 { x + w } else { x },
        if h < 0 { y + h } else { y },
        if w < 0 { -w } else { w },
        if h < 0 { -h } else { h },
    )
}

/// The first piece of `ps` that the point touches, as `first_hit` says.
fn first_hit_exec(ps: &Vec<LinePiece>, pt: &ClickPoint) -> (r: Option<usize>)
    ensures
        match first_hit(crate::layout::piece_views(ps@), *pt) {
            Some(j) => r == Some(j as usize) && j < ps@.len(),
            None => r is None,
        },
{
    let ghost v = crate::layout::piece_views(ps@);
    let pa = (pt.x as i64, pt.y as i64, 0i64, 0i64);
    let mut j: usize = 0;
    while j < ps.len()
        invariant
            j <= ps@.len(),
            v == crate::layout::piece_views(ps@),
            pa == (pt.x as i64, pt.y as i64, 0i64, 0i64),
            first_hit(v, *pt) == first_hit_from(v, *pt, j as int),
        decreases ps@.len() - j,
    {
        assert(v[j as int] == ps@[j as int]@);
        if touches_exec(piece_area_exec(&ps[j]), pa) {
            return Some(j);
        }
        j = j + 1;
    }
    None
}

/// Where segment `rd` lies relative to point `pt`, as `row_order` says.
fn compare_row(rd: &RichData, pt: &ClickPoint, drag: &Rectangle, panel_width: i32) -> (o: RowOrder)
    ensures
        o == row_order(rd@, *pt, *drag, panel_width as int),
{
    let (top, bottom) = (rd.v_bounds.0 as i64, rd.v_bounds.1 as i64);
    let ra = (0i64, top, panel_width as i64, bottom - top);
    let da = (drag.0 as i64, drag.1 as i64, drag.2 as i64, drag.3 as i64);
    if touches_exec(ra, da) {
        match first_hit_exec(&rd.line_pieces, pt) {
            Some(_) => RowOrder::Equal,
            None => {
                if rd.line_pieces.len() > 0 {
                    let p = &rd.line_pieces[0];
                    assert(rd@.line_pieces[0] == p@);
                    if (pt.x as i64) < p.x as i64 && (pt.y as i64) < p.top_y as i64 + p.line_max_h as i64 {
                        RowOrder::Greater
                    } else {
                        RowOrder::Less
                    }
                } else {
                    RowOrder::Less
                }
            },
        }
    } else if top > drag.1 as i64 + drag.3 as i64 {
        RowOrder::Greater
    } else {
        RowOrder::Less
    }
}

/// Finds, by halving `index_vec`, the segment that point `point` falls on
/// within the dragged area `drag_rect` of a panel `panel_width` wide, and
/// records in the point the first piece of it that the point touches.
/// Returns the position in `index_vec` of the segment found; none where no
/// segment was found or where the one found is an image, with the point
/// unchanged. Where the segments named come in order (see
/// `orders_sorted`), none means that no segment holds the point or that one
/// that does is an image.
pub fn locate_target_rd(point: &mut ClickPoint, drag_rect: Rectangle, panel_width: i32, data_buffer: &Vec<RichData>, index_vec: &Vec<usize>) -> (r: Option<usize>)
    requires
        forall|i: int| 0 <= i < index_vec@.len() ==> #[trigger] index_vec@[i] < data_buffer@.len(),
    ensures
        ({
            let bufs = views(data_buffer@);
            let (pt, pw) = (*old(point), panel_width as int);
            match r {
                Some(idx) => {
                    &&& idx < index_vec@.len()
                    &&& order_at(bufs, index_vec@, idx as int, pt, drag_rect, pw) == RowOrder::Equal
                    &&& bufs[index_vec@[idx as int] as int].data_type != DataType::Image
                    &&& first_hit(bufs[index_vec@[idx as int] as int].line_pieces, pt) is Some
                    &&& *final(point) == (ClickPoint { p_i: first_hit(bufs[index_vec@[idx as int] as int].line_pieces, pt)->0 as usize, ..pt })
                },
                None => {
                    &&& *final(point) == pt
                    &&& orders_sorted(bufs, index_vec@, pt, drag_rect, pw) ==> {
                        ||| forall|i: int| 0 <= i < index_vec@.len() ==> #[trigger] order_at(bufs, index_vec@, i, pt, drag_rect, pw) != RowOrder::Equal
                        ||| exists|i: int| 0 <= i < index_vec@.len() && #[trigger] order_at(bufs, index_vec@, i, pt, drag_rect, pw) == RowOrder::Equal
                                && bufs[index_vec@[i] as int].data_type == DataType::Image
                    }
                },
            }
        }),
{
    let ghost bufs = views(data_buffer@);
    let ghost pt = *point;
    let ghost pw = panel_width as int;
    let mut lo: usize = 0;
    let mut hi: usize = index_vec.len();
    while lo < hi
        invariant
            lo <= hi <= index_vec@.len(),
            bufs == views(data_buffer@),
            pt == *point,
            pt == *old(point),
            pw == panel_width as int,
            forall|i: int| 0 <= i < index_vec@.len() ==> #[trigger] index_vec@[i] < data_buffer@.len(),
            orders_sorted(bufs, index_vec@, pt, drag_rect, pw) ==> forall|k: int| 0 <= k < lo
                ==> #[trigger] order_at(bufs, index_vec@, k, pt, drag_rect, pw) == RowOrder::Less,
            orders_sorted(bufs, index_vec@, pt, drag_rect, pw) ==> forall|k: int| hi <= k < index_vec@.len()
                ==> #[trigger] order_at(bufs, index_vec@, k, pt, drag_rect, pw) == RowOrder::Greater,
        decreases hi - lo,
    {
        let mid = lo + (hi - lo) / 2;
        let row = index_vec[mid];
        assert(bufs[row as int] == data_buffer@[row as int]@);
        let o = compare_row(&data_buffer[row], point, &drag_rect, panel_width);
        assert(o == order_at(bufs, index_vec@, mid as int, pt, drag_rect, pw));
        match o {
            RowOrder::Equal => {
                let rd = &data_buffer[row];
                assert(bufs[index_vec@[mid as int] as int] == rd@);
                assert(rd@.line_pieces =~= crate::layout::piece_views(rd.line_pieces@));
                if rd.data_type == DataType::Image {
                    assert(bufs[index_vec@[mid as int] as int].data_type == DataType::Image);
                    assert(order_at(bufs, index_vec@, mid as int, pt, drag_rect, pw) == RowOrder::Equal);
                    return None;
                }
                match first_hit_exec(&rd.line_pieces, point) {
                    Some(p_i) => {
                        point.p_i = p_i;
                    },
                    None => {},
                }
                return Some(mid);
            },
            RowOrder::Less => {
                proof {
                    if orders_sorted(bufs, index_vec@, pt, drag_rect, pw) {
                        assert forall|k: int| 0 <= k <= mid implies #[trigger] order_at(bufs, index_vec@, k, pt, drag_rect, pw) == RowOrder::Less by {
                            assert(rank(order_at(bufs, index_vec@, k, pt, drag_rect, pw)) <= rank(order_at(bufs, index_vec@, mid as int, pt, drag_rect, pw)));
                        }
                    }
                }
                lo = mid + 1;
            },
            RowOrder::Greater => {
                proof {
                    if orders_sorted(bufs, index_vec@, pt, drag_rect, pw) {
                        assert forall|k: int| mid <= k < index_vec@.len() implies #[trigger] order_at(bufs, index_vec@, k, pt, drag_rect, pw) == RowOrder::Greater by {
                            assert(rank(order_at(bufs, index_vec@, mid as int, pt, drag_rect, pw)) <= rank(order_at(bufs, index_vec@, k, pt, drag_rect, pw)));
                        }
                    }
                }
                hi = mid;
            },
        }
    }
    None
}

/// Whether character `c` of a piece starting at `start_x` lies under `x`,
/// where `widths[i]` is the width of the first `i` characters: `x` lies
/// right of the characters before it and not right of the character.
pub open spec fn under_x(start_x: int, x: int, widths: Seq<i32>, c: int) -> bool {
    start_x + widths[c] < x && x <= start_x + widths[c + 1]
}

/// The first character from `c` on, among the first `n`, that lies under
/// `x`. Where the widths grow with the prefix, at most one does.
pub open spec fn char_under_from(start_x: int, x: int, widths: Seq<i32>, n: int, c: int) -> Option<int>
    decreases n - c,
{
    if c < 0 || c >= n {
        None
    } else if under_x(start_x, x, widths, c) {
        Some(c)
    } else {
        char_under_from(start_x, x, widths, n, c + 1)
    }
}

/// Records in the point the index of the character of `piece` under it,
/// where `widths[i]` is the measured width of the first `i` characters of
/// the piece in its font; leaves the point as it is where no character
/// lies under it.
pub fn search_index_of_piece(piece: &LinePiece, point: &mut ClickPoint, widths: &Vec<i32>)
    requires
        widths@.len() == piece.line@.len() + 1,
    ensures
        match char_under_from(piece.x as int, old(point).x as int, widths@, piece.line@.len() as int, 0) {
            Some(c) => *final(point) == (ClickPoint { c_i: c as usize, ..*old(point) }),
            None => *final(point) == *old(point),
        },
{
    let n = piece.line.len();
    let start = piece.x as i64;
    let x = point.x as i64;
    let mut c: usize = 0;
    while c < n
        invariant
            c <= n == piece.line@.len(),
            widths@.len() == n + 1,
            start == piece.x as i64,
            x == point.x as i64,
            *point == *old(point),
            char_under_from(start as int, x as int, widths@, n as int, 0) == char_under_from(start as int, x as int, widths@, n as int, c as int),
        decreases n - c,
    {
        if start + (widths[c] as i64) < x && x <= start + (widths[c + 1] as i64) {
            point.c_i = c;
            return;
        }
        c = c + 1;
    }
}

/// The segments a drag looks at for its end point: from the start row on
/// when it goes down (the end is not above the start), else the rows up to
/// the start row.
pub open spec fn drag_rows(from_y: int, to_y: int, select_from_row: int, len: int) -> Seq<usize> {
    if to_y >= from_y {
        Seq::new(if len > select_from_row { (len - select_from_row) as nat } else { 0 }, |i: int| (select_from_row + i) as usize)
    } else {
        Seq::new((select_from_row + 1) as nat, |i: int| i as usize)
    }
}

/// Finds where a drag from `push_from_point`, which started in segment
/// `select_from_row`, ends at `current_point` on a panel `panel_width`
/// wide: the segment under the end point among the rows the drag looks at
/// (`drag_rows`), found as `locate_target_rd` says, with the piece under
/// the point recorded in it. Returns the segment found and the range of
/// segments the selection covers.
pub fn drag_target(push_from_point: &ClickPoint, select_from_row: usize, current_point: &mut ClickPoint, panel_width: i32,
    data_buffer: &Vec<RichData>) -> (r: Option<(usize, usize, usize)>)
    requires
        old(current_point).y < push_from_point.y ==> select_from_row < data_buffer@.len(),
    ensures
        ({
            let bufs = views(data_buffer@);
            let pt = *old(current_point);
            let down = pt.y >= push_from_point.y;
            let rows = drag_rows(push_from_point.y as int, pt.y as int, select_from_row as int, data_buffer@.len() as int);
            let drag = Rectangle(pt.x, pt.y, 0, 0);
            match r {
                Some((row, r_start, r_end)) => exists|idx: int| {
                    &&& 0 <= idx < rows.len()
                    &&& row == rows[idx]
                    &&& order_at(bufs, rows, idx, pt, drag, panel_width as int) == RowOrder::Equal
                    &&& bufs[row as int].data_type != DataType::Image
                    &&& first_hit(bufs[row as int].line_pieces, pt) is Some
                    &&& *final(current_point) == (ClickPoint { p_i: first_hit(bufs[row as int].line_pieces, pt)->0 as usize, ..pt })
                    &&& (r_start, r_end) == if down { (select_from_row, row) } else { (row, select_from_row) }
                },
                None => {
                    &&& *final(current_point) == pt
                    &&& orders_sorted(bufs, rows, pt, drag, panel_width as int) ==> {
                        ||| forall|i: int| 0 <= i < rows.len() ==> #[trigger] order_at(bufs, rows, i, pt, drag, panel_width as int) != RowOrder::Equal
                        ||| exists|i: int| 0 <= i < rows.len() && #[trigger] order_at(bufs, rows, i, pt, drag, panel_width as int) == RowOrder::Equal
                                && bufs[rows[i] as int].data_type == DataType::Image
                    }
                },
            }
        }),
{
    let down = current_point.y >= push_from_point.y;
    let len = data_buffer.len();
    let mut index_vec: Vec<usize> = Vec::new();
    let ghost rows = drag_rows(push_from_point.y as int, current_point.y as int, select_from_row as int, len as int);
    if down {
        let start = if select_from_row < len { select_from_row } else { len };
        assert(rows =~= Seq::new((len - start) as nat, |k: int| (start + k) as usize));
        let mut i: usize = start;
        while i < len
            invariant
                start <= i <= len,
                index_vec@ == rows.take(i - start),
                rows == Seq::new((len - start) as nat, |k: int| (start + k) as usize),
            decreases len - i,
        {
            index_vec.push(i);
            i = i + 1;
            assert(index_vec@ =~= rows.take(i - start));
        }
        assert(index_vec@ =~= rows);
    } else {
        let mut i: usize = 0;
        while i <= select_from_row
            invariant
                i <= select_from_row + 1,
                select_from_row < len,
                index_vec@ == rows.take(i as int),
                rows == Seq::new((select_from_row + 1) as nat, |k: int| k as usize),
            decreases select_from_row + 1 - i,
        {
            index_vec.push(i);
            i = i + 1;
            assert(index_vec@ =~= rows.take(i as int));
        }
        assert(index_vec@ =~= rows);
    }
    let drag = current_point.as_rect();
    match locate_target_rd(current_point, drag, panel_width, data_buffer, &index_vec) {
        Some(idx) => {
            let row = index_vec[idx];
            if down {
                Some((row, select_from_row, row))
            } else {
                Some((row, row, select_from_row))
            }
        },
        None => None,
    }
}

/// Whether point `(x, y)` lies in area `r` as the toolkit tests an event:
/// from its left and top edges on, short of its right and bottom edges.
pub open spec fn event_inside(r: Rectangle, x: int, y: int) -> bool {
    r.0 <= x < r.0 + r.2 && r.1 <= y < r.1 + r.3
}

/// The first of the clickable areas from `i` on that holds the point.
pub open spec fn first_area_from(areas: Seq<(Rectangle, usize)>, x: int, y: int, i: int) -> Option<int>
    decreases areas.len() - i,
{
    if i < 0 || i >= areas.len() {
        None
    } else if event_inside(areas[i].0, x, y) {
        Some(i)
    } else {
        first_area_from(areas, x, y, i + 1)
    }
}

/// Whether the mouse at `(x, y)` is over one of the clickable areas, each
/// with the index of its segment: true and the index for the first area
/// that holds the point, false and 0 where none does.
pub fn mouse_enter(areas: &Vec<(Rectangle, usize)>, x: i32, y: i32) -> (r: (bool, usize))
    ensures
        match first_area_from(areas@, x as int, y as int, 0) {
            Some(i) => r == (true, areas@[i].1),
            None => r == (false, 0usize),
        },
{
    let mut i: usize = 0;
    while i < areas.len()
        invariant
            i <= areas@.len(),
            first_area_from(areas@, x as int, y as int, 0) == first_area_from(areas@, x as int, y as int, i as int),
        decreases areas@.len() - i,
    {
        let (a, idx) = areas[i];
        if (a.0 as i64) <= (x as i64) && (x as i64) < a.0 as i64 + a.2 as i64
            && (a.1 as i64) <= (y as i64) && (y as i64) < a.1 as i64 + a.3 as i64 {
            return (true, idx);
        }
        i = i + 1;
    }
    (false, 0)
}

} // verus!
