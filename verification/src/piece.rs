//! Line pieces: the single-line fragments a data segment is cut into to fit
//! the width of the panel, and the virtual cursor.

use vstd::prelude::*;
use crate::geometry::{Rectangle, normalizable};
use crate::text::{Font, spec_line_height, line_height_of, push_char};
use crate::{PADDING_LEFT, PADDING_TOP, DEFAULT_FONT_SIZE};

verus! {

/// A single-line fragment of a data segment and where it is drawn.
#[derive(Debug)]
pub struct LinePiece {
    /// The characters of the fragment.
    pub line: Vec<char>,
    /// Left of the fragment.
    pub x: i32,
    /// Top of the fragment.
    pub y: i32,
    /// Width, at most the line width.
    pub w: i32,
    /// Line height.
    pub h: i32,
    /// Top of the virtual line.
    pub top_y: i32,
    /// Extra line spacing.
    pub spacing: i32,
    /// Suggested left of the next fragment.
    pub next_x: i32,
    /// Suggested top of the next fragment.
    pub next_y: i32,
    /// Height of the rendered font, at most the line height.
    pub font_height: i32,
    /// Selected characters of this fragment, from and to, counted in
    /// characters.
    pub selected_range: Option<(usize, usize)>,
    pub font: Font,
    pub font_size: i32,
    /// Bounds of the data segment the fragment belongs to: top, bottom,
    /// left, right.
    pub rd_bounds: (i32, i32, i32, i32),
    /// The panel line the piece belongs to; pieces side by side on one line
    /// share it.
    pub line_id: u64,
    /// Height of that line: the tallest piece on it.
    pub line_max_h: i32,
    /// Whether that line holds an image.
    pub line_has_image: bool,
}

/// The contents of a line piece.
#[verifier::ext_equal]
pub struct LinePieceView {
    pub line: Seq<char>,
    pub x: i32,
    pub y: i32,
    pub w: i32,
    pub h: i32,
    pub top_y: i32,
    pub spacing: i32,
    pub next_x: i32,
    pub next_y: i32,
    pub font_height: i32,
    pub selected_range: Option<(usize, usize)>,
    pub font: Font,
    pub font_size: i32,
    pub rd_bounds: (i32, i32, i32, i32),
    pub line_id: u64,
    pub line_max_h: i32,
    pub line_has_image: bool,
}

impl View for LinePiece {
    type V = LinePieceView;

    open spec fn view(&self) -> LinePieceView {
        LinePieceView {
            line: self.line@,
            x: self.x,
            y: self.y,
            w: self.w,
            h: self.h,
            top_y: self.top_y,
            spacing: self.spacing,
            next_x: self.next_x,
            next_y: self.next_y,
            font_height: self.font_height,
            selected_range: self.selected_range,
            font: self.font,
            font_size: self.font_size,
            rd_bounds: self.rd_bounds,
            line_id: self.line_id,
            line_max_h: self.line_max_h,
            line_has_image: self.line_has_image,
        }
    }
}

/// The characters a selection from `from` to `to` takes out of `line`:
/// those from `from` on, up to `to` (nothing when `to` is not after
/// `from`), within the line.
pub open spec fn selected_chars(line: Seq<char>, from: nat, to: nat) -> Seq<char> {
    let start = if from < line.len() { from } else { line.len() };
    let stop = if to > from { to } else { from };
    let end = if stop < line.len() { stop } else { line.len() };
    line.subrange(start as int, end as int)
}

impl LinePiece {
    /// The empty piece at the top left of the panel that starts a layout:
    /// its line height is `text_size` × 1.4, rounded up.
    pub fn init_piece(text_size: i32) -> (p: LinePiece)
        requires
            PADDING_TOP + spec_line_height(text_size as int) <= i32::MAX,
        ensures
            p@.line == Seq::<char>::empty(),
            p.x == PADDING_LEFT,
            p.y == PADDING_TOP,
            p.w == 0,
            p.h == spec_line_height(text_size as int),
            p.top_y == PADDING_TOP,
            p.spacing == 0,
            p.next_x == PADDING_LEFT,
            p.next_y == PADDING_TOP,
            p.font_height == 1,
            p.selected_range is None,
            p.font.bits == 0,
            p.font_size == DEFAULT_FONT_SIZE,
            p.rd_bounds == (PADDING_TOP, (PADDING_TOP + spec_line_height(text_size as int)) as i32, PADDING_LEFT, PADDING_LEFT),
            p.line_id == 0,
            p.line_max_h == 1,
            !p.line_has_image,
    {
        let h = line_height_of(text_size);
        LinePiece {
            line: Vec::new(),
            x: PADDING_LEFT,
            y: PADDING_TOP,
            w: 0,
            h,
            top_y: PADDING_TOP,
            spacing: 0,
            next_x: PADDING_LEFT,
            next_y: PADDING_TOP,
            font_height: 1,
            selected_range: None,
            font: Font::helvetica(),
            font_size: DEFAULT_FONT_SIZE,
            rd_bounds: (PADDING_TOP, PADDING_TOP + h, PADDING_LEFT, PADDING_LEFT),
            line_id: 0,
            line_max_h: 1,
            line_has_image: false,
        }
    }

    /// A copy of this piece.
    pub fn duplicate(&self) -> (p: LinePiece)
        ensures
            p@ == self@,
    {
        LinePiece {
            line: self.line.clone(),
            x: self.x,
            y: self.y,
            w: self.w,
            h: self.h,
            top_y: self.top_y,
            spacing: self.spacing,
            next_x: self.next_x,
            next_y: self.next_y,
            font_height: self.font_height,
            selected_range: self.selected_range,
            font: self.font,
            font_size: self.font_size,
            rd_bounds: self.rd_bounds,
            line_id: self.line_id,
            line_max_h: self.line_max_h,
            line_has_image: self.line_has_image,
        }
    }

    /// Selects from character `from` to the end of the piece.
    pub fn select_from(&mut self, from: usize)
        ensures
            final(self)@ == (LinePieceView { selected_range: Some((from, old(self).line@.len() as usize)), ..old(self)@ }),
    {
        self.selected_range = Some((from, self.line.len()));
    }

    /// Selects from the start of the piece to character `to`.
    pub fn select_to(&mut self, to: usize)
        ensures
            final(self)@ == (LinePieceView { selected_range: Some((0usize, to)), ..old(self)@ }),
    {
        self.selected_range = Some((0, to));
    }

    /// Selects from character `from` to character `to`.
    pub fn select_range(&mut self, from: usize, to: usize)
        ensures
            final(self)@ == (LinePieceView { selected_range: Some((from, to)), ..old(self)@ }),
    {
        self.selected_range = Some((from, to));
    }

    /// Drops the selection.
    pub fn deselect(&mut self)
        ensures
            final(self)@ == (LinePieceView { selected_range: None, ..old(self)@ }),
    {
        self.selected_range = None;
    }

    /// Selects the whole piece.
    pub fn select_all(&mut self)
        ensures
            final(self)@ == (LinePieceView { selected_range: Some((0usize, old(self).line@.len() as usize)), ..old(self)@ }),
    {
        self.selected_range = Some((0, self.line.len()));
    }

    /// Appends the selected characters of the piece to `selection`.
    pub fn copy_selection(&self, selection: &mut String)
        ensures
            final(selection)@ == old(selection)@ + match self.selected_range {
                Some((from, to)) => selected_chars(self.line@, from as nat, to as nat),
                None => Seq::<char>::empty(),
            },
    {
        match self.selected_range {
            Some((from, to)) => {
                let len = self.line.len();
                let start = if from < len { from } else { len };
                let stop = if to > from { to } else { from };
                let end = if stop < len { stop } else { len };
                let mut i = start;
                assert(old(selection)@ + self.line@.subrange(start as int, start as int) =~= old(selection)@);
                while i < end
                    invariant
                        start <= i <= end <= len,
                        len == self.line@.len(),
                        selection@ == old(selection)@ + self.line@.subrange(start as int, i as int),
                    decreases end - i,
                {
                    push_char(selection, self.line[i]);
                    i = i + 1;
                    assert(old(selection)@ + self.line@.subrange(start as int, i as int) =~= old(selection)@ + self.line@.subrange(start as int, i - 1) + seq![self.line@[i - 1]]);
                }
            },
            None => {
                assert(old(selection)@ + Seq::<char>::empty() =~= old(selection)@);
            },
        }
    }

    /// The rectangle of the piece moved by the given offsets.
    pub fn rect(&self, offset_x: i32, offset_y: i32) -> (r: Rectangle)
        requires
            normalizable(self.x + offset_x, self.y + offset_y, self.w as int, self.h as int),
            i32::MIN <= self.x + offset_x <= i32::MAX,
            i32::MIN <= self.y + offset_y <= i32::MAX,
        ensures
            r.spec_tup() == crate::geometry::normalized(self.x + offset_x, self.y + offset_y, self.w as int, self.h as int),
    {
        Rectangle::new(self.x + offset_x, self.y + offset_y, self.w, self.h)
    }

    /// The virtual cursor right of this piece: an empty piece where the next
    /// piece would start.
    pub fn get_cursor(&self) -> (c: LinePiece)
        requires
            self.next_y + self.h <= i32::MAX,
            self.next_y + self.h >= i32::MIN,
        ensures
            c@ == (LinePieceView {
                line: Seq::<char>::empty(),
                x: self.next_x,
                y: self.next_y,
                w: 0,
                h: self.h,
                top_y: if self.next_y > self.y { self.next_y } else { self.top_y },
                spacing: 0,
                next_x: self.next_x,
                next_y: self.next_y,
                font_height: self.font_height,
                selected_range: None,
                font: self.font,
                font_size: self.font_size,
                rd_bounds: (self.next_y, (self.next_y + self.h) as i32, self.next_x, self.next_x),
                line_id: self.line_id,
                line_max_h: self.line_max_h,
                line_has_image: self.line_has_image,
            }),
    {
        LinePiece {
            line: Vec::new(),
            x: self.next_x,
            y: self.next_y,
            w: 0,
            h: self.h,
            top_y: if self.next_y > self.y { self.next_y } else { self.top_y },
            spacing: 0,
            next_x: self.next_x,
            next_y: self.next_y,
            font_height: self.font_height,
            selected_range: None,
            font: self.font,
            font_size: self.font_size,
            rd_bounds: (self.next_y, self.next_y + self.h, self.next_x, self.next_x),
            line_id: self.line_id,
            line_max_h: self.line_max_h,
            line_has_image: self.line_has_image,
        }
    }

    /// Moves the virtual cursor to `(x, y)`.
    pub fn move_cursor_to(&mut self, x: i32, y: i32)
        ensures
            final(self)@ == (LinePieceView { x, y, next_x: x, next_y: y, ..old(self)@ }),
    {
        self.x = x;
        self.y = y;
        self.next_x = x;
        self.next_y = y;
    }
}

} // verus!
