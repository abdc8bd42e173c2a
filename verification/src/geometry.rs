//! Rectangles, click points and the small layout records.

use vstd::prelude::*;

verus! {

/// Whether `v` fits in an `i32`.
pub open spec fn fits_i32(v: int) -> bool {
    i32::MIN <= v <= i32::MAX
}

/// Rust's `/ 2` on a signed integer, which rounds toward zero.
pub open spec fn half_toward_zero(v: int) -> int {
    if v >= 0 {
        v / 2
    } else {
        -((-v) / 2)
    }
}

/// A rectangle: fields 0 and 1 are the x/y coordinates of the top left
/// corner, fields 2 and 3 the width and height.
#[derive(Debug, Clone, Copy, PartialEq, Eq, Hash, Structural)]
pub struct Rectangle(pub i32, pub i32, pub i32, pub i32);

/// The normalized form of a rectangle spanned from `(x, y)` by `w` and `h`,
/// where `w` and `h` may be negative: the corner moves to the top left and the
/// sizes become their absolute values.
pub open spec fn normalized(x: int, y: int, w: int, h: int) -> (int, int, int, int) {
    (
        if w < 0 { x + w } else { x },
        if h < 0 { y + h } else { y },
        if w < 0 { -w } else { w },
        if h < 0 { -h } else { h },
    )
}

/// Whether the normalized form of the rectangle fits in `i32` fields.
pub open spec fn normalizable(x: int, y: int, w: int, h: int) -> bool {
    let n = normalized(x, y, w, h);
    fits_i32(n.0) && fits_i32(n.1) && fits_i32(n.2) && fits_i32(n.3)
}

impl Rectangle {
    /// The rectangle as a tuple of integers.
    pub open spec fn spec_tup(self) -> (int, int, int, int) {
        (self.0 as int, self.1 as int, self.2 as int, self.3 as int)
    }

    /// Builds a rectangle whose x/y is the top left corner and whose width and
    /// height are not negative; `w` and `h` may be negative, as when the mouse
    /// drags in any direction.
    pub fn new(x: i32, y: i32, w: i32, h: i32) -> (r: Rectangle)
        requires
            normalizable(x as int, y as int, w as int, h as int),
        ensures
            r.spec_tup() == normalized(x as int, y as int, w as int, h as int),
            r.2 >= 0,
            r.3 >= 0,
    {
        if w < 0 && h < 0 {
            Rectangle(x + w, y + h, -w, -h)
        } else if w < 0 {
            Rectangle(x + w, y, -w, h)
        } else if h < 0 {
            Rectangle(x, y + h, w, -h)
        } else {
            Rectangle(x, y, w, h)
        }
    }

    /// The empty rectangle at the origin.
    pub fn zero() -> (r: Rectangle)
        ensures
            r == Rectangle(0, 0, 0, 0),
    {
        Rectangle::new(0, 0, 0, 0)
    }

    /// Replaces all four fields.
    pub fn replace(&mut self, x: i32, y: i32, w: i32, h: i32)
        ensures
            *final(self) == Rectangle(x, y, w, h),
    {
        self.0 = x;
        self.1 = y;
        self.2 = w;
        self.3 = h;
    }

    /// Whether the top of this rectangle lies below the bottom of `another`.
    pub fn is_below(&self, another: &Rectangle) -> (b: bool)
        requires
            fits_i32(another.1 + another.3),
        ensures
            b == (self.1 > another.1 + another.3),
    {
        self.1 > another.1 + another.3
    }

    /// The fields as a tuple.
    pub fn tup(&self) -> (t: (i32, i32, i32, i32))
        ensures
            t == (self.0, self.1, self.2, self.3),
    {
        (self.0, self.1, self.2, self.3)
    }

    /// The empty rectangles at the top left and at the bottom right corner.
    pub fn corner_rect(&self) -> (r: (Rectangle, Rectangle))
        requires
            fits_i32(self.0 + self.2),
            fits_i32(self.1 + self.3),
        ensures
            r.0 == Rectangle(self.0, self.1, 0, 0),
            r.1.spec_tup() == (self.0 + self.2, self.1 + self.3, 0int, 0int),
    {
        (
            ClickPoint::new(self.0, self.1).as_rect(),
            ClickPoint::new(self.0 + self.2, self.1 + self.3).as_rect(),
        )
    }

    /// Grows the rectangle to the left by `add_width`, keeping its right edge.
    pub fn stretch_to_left(&mut self, add_width: i32)
        requires
            fits_i32(old(self).0 - add_width),
            fits_i32(old(self).2 + add_width),
        ensures
            final(self).0 == old(self).0 - add_width,
            final(self).2 == old(self).2 + add_width,
            final(self).1 == old(self).1,
            final(self).3 == old(self).3,
            final(self).0 + final(self).2 == old(self).0 + old(self).2,
    {
        self.0 = self.0 - add_width;
        self.2 = self.2 + add_width;
    }

    /// Whether this rectangle and `another` share interior points.
    pub open spec fn spec_intersects(self, another: Rectangle) -> bool {
        &&& self.0 < another.0 + another.2
        &&& self.0 + self.2 > another.0
        &&& self.1 < another.1 + another.3
        &&& self.1 + self.3 > another.1
    }

    /// Whether this rectangle intersects `another`.
    pub fn intersects(&self, another: &Rectangle) -> (b: bool)
        requires
            fits_i32(self.0 + self.2),
            fits_i32(self.1 + self.3),
            fits_i32(another.0 + another.2),
            fits_i32(another.1 + another.3),
        ensures
            b == self.spec_intersects(*another),
    {
        self.0 < another.0 + another.2 && self.0 + self.2 > another.0 && self.1 < another.1
            + another.3 && self.1 + self.3 > another.1
    }

    /// Rectangles are ordered by their top edge, then by their left edge.
    pub open spec fn spec_position_less(self, other: Rectangle) -> bool {
        self.1 < other.1 || (self.1 == other.1 && self.0 < other.0)
    }

    /// Compares the positions of two rectangles: by the y coordinate, then by
    /// the x coordinate; the sizes take no part.
    pub fn position_cmp(&self, other: &Rectangle) -> (o: PositionOrder)
        ensures
            o == PositionOrder::Less <==> self.spec_position_less(*other),
            o == PositionOrder::Greater <==> other.spec_position_less(*self),
            o == PositionOrder::Equal <==> (self.0 == other.0 && self.1 == other.1),
    {
        if self.1 > other.1 {
            PositionOrder::Greater
        } else if self.1 < other.1 {
            PositionOrder::Less
        } else {
            if self.0 > other.0 {
                PositionOrder::Greater
            } else if self.0 < other.0 {
                PositionOrder::Less
            } else {
                PositionOrder::Equal
            }
        }
    }
}

/// The result of comparing the positions of two rectangles.
#[derive(Debug, Clone, Copy, PartialEq, Eq, Structural)]
pub enum PositionOrder {
    Less,
    Equal,
    Greater,
}

/// Whether two rectangles touch or overlap, borders included.
pub open spec fn spec_is_overlap(a: Rectangle, b: Rectangle) -> bool {
    &&& a.0 <= b.0 + b.2
    &&& a.0 + a.2 >= b.0
    &&& a.1 <= b.1 + b.3
    &&& a.1 + a.3 >= b.1
}

/// Collision test: whether the target area and the selection area touch or
/// overlap, borders included.
pub fn is_overlap(target_area: &Rectangle, selection_area: &Rectangle) -> (b: bool)
    requires
        fits_i32(target_area.0 + target_area.2),
        fits_i32(target_area.1 + target_area.3),
        fits_i32(selection_area.0 + selection_area.2),
        fits_i32(selection_area.1 + selection_area.3),
    ensures
        b == spec_is_overlap(*target_area, *selection_area),
{
    let mut overlap = target_area.0 <= (selection_area.0 + selection_area.2);
    overlap = overlap && (target_area.0 + target_area.2) >= selection_area.0;
    overlap = overlap && target_area.1 <= (selection_area.1 + selection_area.3);
    overlap = overlap && (target_area.1 + target_area.3) >= selection_area.1;
    overlap
}

/// Offsets of the top and bottom end of a short vertical line centered on a
/// long one, relative to the top of the long one.
pub fn calc_v_center_offset(line_height: i32, font_height: i32) -> (r: (i32, i32))
    requires
        fits_i32(line_height - font_height),
        fits_i32(line_height + font_height),
    ensures
        r.0 == half_toward_zero(line_height - font_height),
        r.1 == half_toward_zero(line_height + font_height),
{
    let up = (line_height - font_height) / 2;
    let down = (line_height + font_height) / 2;
    (up, down)
}

/// A mouse position with the index of the line piece under it and of the
/// character in that piece.
#[derive(Debug, Clone, Copy, PartialEq, Eq, Structural)]
pub struct ClickPoint {
    pub x: i32,
    pub y: i32,
    /// Index of the piece within its data segment.
    pub p_i: usize,
    /// Index of the character within its piece.
    pub c_i: usize,
}

impl ClickPoint {
    /// A point at `(x, y)` with both indexes zero.
    pub fn new(x: i32, y: i32) -> (p: ClickPoint)
        ensures
            p == (ClickPoint { x, y, p_i: 0, c_i: 0 }),
    {
        ClickPoint { x, y, p_i: 0, c_i: 0 }
    }

    /// The empty rectangle at this point.
    pub fn as_rect(&self) -> (r: Rectangle)
        ensures
            r == Rectangle(self.x, self.y, 0, 0),
    {
        Rectangle::new(self.x, self.y, 0, 0)
    }

    /// The rectangle spanned by this point and `to_point`, whatever their
    /// relative position: x/y is the top left corner and the sizes are not
    /// negative.
    pub fn to_rect(&self, to_point: &ClickPoint) -> (r: Rectangle)
        requires
            fits_i32(to_point.x - self.x),
            fits_i32(to_point.y - self.y),
            normalizable(self.x as int, self.y as int, to_point.x - self.x, to_point.y - self.y),
        ensures
            r.spec_tup() == spec_span(self.x as int, self.y as int, to_point.x as int, to_point.y as int),
    {
        Rectangle::new(self.x, self.y, to_point.x - self.x, to_point.y - self.y)
    }
}

/// The rectangle spanned by two points, as a tuple.
pub open spec fn spec_span(x1: int, y1: int, x2: int, y2: int) -> (int, int, int, int) {
    (
        if x1 <= x2 { x1 } else { x2 },
        if y1 <= y2 { y1 } else { y2 },
        if x1 <= x2 { x2 - x1 } else { x1 - x2 },
        if y1 <= y2 { y2 - y1 } else { y1 - y2 },
    )
}

/// Blank space between the content and the borders of a container.
#[derive(Debug, Clone, Copy, PartialEq, Eq, Structural)]
pub struct Padding {
    pub left: i32,
    pub top: i32,
    pub right: i32,
    pub bottom: i32,
}

impl Padding {
    /// Builds a padding from its four sides.
    pub fn new(left: i32, top: i32, right: i32, bottom: i32) -> (p: Padding)
        ensures
            p == (Padding { left, top, right, bottom }),
    {
        Padding { left, top, right, bottom }
    }
}

/// Horizontal and vertical gaps between the units of a flow layout.
#[derive(Debug, Clone, Copy, PartialEq, Eq, Default, Structural)]
pub struct Gap {
    pub h: i32,
    pub v: i32,
}

/// Where a unit of a flow layout ends: the position of its end, the height
/// of its line and the spacing of its line.
#[derive(Debug, Clone, Copy, PartialEq, Eq, Structural)]
pub struct EndPos {
    pub x: i32,
    pub y: i32,
    pub line_height: i32,
    pub line_spacing: i32,
}

impl EndPos {
    /// The four fields as a tuple.
    pub fn tuple(&self) -> (t: (i32, i32, i32, i32))
        ensures
            t == (self.x, self.y, self.line_height, self.line_spacing),
    {
        (self.x, self.y, self.line_height, self.line_spacing)
    }
}

/// The size of a stretched unit and where it ends.
#[derive(Debug, Clone, Copy, PartialEq, Eq, Structural)]
pub struct UnitShape {
    pub w: i32,
    pub h: i32,
    pub end_pos: EndPos,
}

/// Intersection does not depend on which rectangle asks.
pub proof fn law_intersects_symmetric(a: Rectangle, b: Rectangle)
    ensures
        a.spec_intersects(b) == b.spec_intersects(a),
{
}

/// Rectangles that intersect also overlap, borders included.
pub proof fn law_intersects_implies_overlap(a: Rectangle, b: Rectangle)
    requires
        a.spec_intersects(b),
    ensures
        spec_is_overlap(a, b),
{
}

/// The rectangle spanned by two points does not depend on which point the
/// drag started at.
pub proof fn law_span_symmetric(x1: int, y1: int, x2: int, y2: int)
    ensures
        spec_span(x1, y1, x2, y2) == spec_span(x2, y2, x1, y1),
{
}

} // verus!
