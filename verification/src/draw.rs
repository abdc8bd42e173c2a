//! What drawing a data segment paints: backgrounds, the selection, the
//! frames of search hits, underlines, strike-through lines, the text and
//! images, with their places and colors. Text widths are measured by the
//! caller: `draw_requests` lists the texts to measure, in order, and
//! `draw_plan` takes their widths and gives the operations to perform.

use vstd::prelude::*;
use crate::color::{BlinkDegree, BlinkState, Color, spec_lighter_or_darker, get_lighter_or_darker_color};
use crate::data::{RichData, RichDataView, DataType};
use crate::geometry::half_toward_zero;
use crate::panel::floor_div_pos;
use crate::image::ColorDepth;
use crate::piece::{LinePiece, LinePieceView};
use crate::HIGHLIGHT_ROUNDED_RECT_RADIUS;

verus! {

/// A color to paint with: an RGB color, or one of the toolkit's named
/// colors.
#[derive(Debug, Clone, Copy, PartialEq, Eq, Structural)]
pub enum Paint {
    Rgb(Color),
    /// The toolkit's selection color.
    Selection,
    /// The toolkit's dark magenta.
    DarkMagenta,
    /// The toolkit's light gray.
    Light1,
}

/// One drawing operation. Places are panel coordinates moved up by the
/// scroll offset.
#[derive(Debug, PartialEq)]
pub enum DrawOp {
    /// A filled rectangle.
    Fill { paint: Paint, x: i64, y: i64, w: i64, h: i64 },
    /// A filled rectangle with rounded corners of the given radius.
    RoundedFill { paint: Paint, x: i64, y: i64, w: i64, h: i64, radius: i32 },
    /// The frame of a rectangle with rounded corners, with lines
    /// `line_width` wide.
    RoundedFrame { paint: Paint, line_width: i32, x: i64, y: i64, w: i64, h: i64, radius: i32 },
    /// A line.
    Line { paint: Paint, x1: i64, y1: i64, x2: i64, y2: i64 },
    /// A text drawn from its base line start at `(x, y)`.
    Text { paint: Paint, text: Vec<char>, x: i64, y: i64 },
    /// The segment's image (its gray copy where `inactive`) of its own size
    /// in `depth`, scaled to its target size where `scale`, drawn into the
    /// given box.
    Picture { inactive: bool, depth: ColorDepth, scale: bool, x: i64, y: i64, w: i64, h: i64 },
}

/// The contents of a drawing operation.
pub enum DrawOpView {
    Fill { paint: Paint, x: int, y: int, w: int, h: int },
    RoundedFill { paint: Paint, x: int, y: int, w: int, h: int, radius: i32 },
    RoundedFrame { paint: Paint, line_width: i32, x: int, y: int, w: int, h: int, radius: i32 },
    Line { paint: Paint, x1: int, y1: int, x2: int, y2: int },
    Text { paint: Paint, text: Seq<char>, x: int, y: int },
    Picture { inactive: bool, depth: ColorDepth, scale: bool, x: int, y: int, w: int, h: int },
}

impl View for DrawOp {
    type V = DrawOpView;

    open spec fn view(&self) -> DrawOpView {
        match self {
            DrawOp::Fill { paint, x, y, w, h } => DrawOpView::Fill { paint: *paint, x: *x as int, y: *y as int, w: *w as int, h: *h as int },
            DrawOp::RoundedFill { paint, x, y, w, h, radius } =>
                DrawOpView::RoundedFill { paint: *paint, x: *x as int, y: *y as int, w: *w as int, h: *h as int, radius: *radius },
            DrawOp::RoundedFrame { paint, line_width, x, y, w, h, radius } =>
                DrawOpView::RoundedFrame { paint: *paint, line_width: *line_width, x: *x as int, y: *y as int, w: *w as int, h: *h as int, radius: *radius },
            DrawOp::Line { paint, x1, y1, x2, y2 } => DrawOpView::Line { paint: *paint, x1: *x1 as int, y1: *y1 as int, x2: *x2 as int, y2: *y2 as int },
            DrawOp::Text { paint, text, x, y } => DrawOpView::Text { paint: *paint, text: text@, x: *x as int, y: *y as int },
            DrawOp::Picture { inactive, depth, scale, x, y, w, h } =>
                DrawOpView::Picture { inactive: *inactive, depth: *depth, scale: *scale, x: *x as int, y: *y as int, w: *w as int, h: *h as int },
        }
    }
}

/// The views of drawing operations.
pub open spec fn op_views(ops: Seq<DrawOp>) -> Seq<DrawOpView> {
    ops.map_values(|o: DrawOp| o@)
}

/// `s` without the line feeds at its end.
pub open spec fn trim_newlines(s: Seq<char>) -> Seq<char>
    decreases s.len(),
{
    if s.len() > 0 && s.last() == '\n' { trim_newlines(s.drop_last()) } else { s }
}

/// The first `n` characters of `s`, or all of them.
pub open spec fn first_chars(s: Seq<char>, n: int) -> Seq<char> {
    if n >= s.len() { s } else if n <= 0 { Seq::empty() } else { s.take(n) }
}

/// The characters of `s` after the first `n`.
pub open spec fn chars_after(s: Seq<char>, n: int) -> Seq<char> {
    if n >= s.len() { Seq::empty() } else if n <= 0 { s } else { s.skip(n) }
}

/// Whether every search hit of a segment ends no earlier than it starts.
pub open spec fn hits_ordered(rd: RichDataView) -> bool {
    match rd.search_result_positions {
        Some(pos) => forall|i: int| 0 <= i < pos.len() ==> (#[trigger] pos[i]).0 <= pos[i].1,
        None => true,
    }
}

/// The texts to measure for the selection of a piece: the characters
/// before the selection and the selected ones.
pub open spec fn selection_requests(p: LinePieceView) -> Seq<Seq<char>> {
    match p.selected_range {
        Some((from, to)) => seq![first_chars(p.line, from as int),
            first_chars(chars_after(p.line, from as int), if to > from { to - from } else { 0 })],
        None => Seq::empty(),
    }
}

/// The texts to measure for one search hit `(pf, pt)` on a piece whose
/// first character is character `processed` of the hit count: where the
/// hit starts on the piece, the characters before it and those of the hit;
/// where it only ends on the piece, the characters up to its end.
pub open spec fn one_hit_requests(hit: (usize, usize), line: Seq<char>, processed: int) -> Seq<Seq<char>> {
    let (pf, pt) = (hit.0 as int, hit.1 as int);
    if processed <= pf < processed + line.len() {
        seq![first_chars(line, pf - processed), first_chars(chars_after(line, pf - processed), pt - pf)]
    } else if processed <= pt < processed + line.len() {
        seq![first_chars(line, pt - processed)]
    } else {
        Seq::empty()
    }
}

/// The texts to measure for the search hits `pos` on a piece.
pub open spec fn hit_requests(pos: Seq<(usize, usize)>, line: Seq<char>, processed: int) -> Seq<Seq<char>>
    decreases pos.len(),
{
    if pos.len() == 0 {
        Seq::empty()
    } else {
        hit_requests(pos.drop_last(), line, processed) + one_hit_requests(pos.last(), line, processed)
    }
}

/// Whether a text piece is drawn: it holds more than line feeds.
pub open spec fn drawn(p: LinePieceView) -> bool {
    trim_newlines(p.line).len() > 0
}

/// The texts to measure for a text piece.
pub open spec fn piece_requests(rd: RichDataView, p: LinePieceView, processed: int) -> Seq<Seq<char>> {
    if !drawn(p) {
        Seq::empty()
    } else {
        selection_requests(p) + match rd.search_result_positions {
            Some(pos) => hit_requests(pos, p.line, processed),
            None => Seq::empty(),
        }
    }
}

/// The hit count after a piece: drawn pieces count their characters while
/// the segment has search hits.
pub open spec fn processed_after(rd: RichDataView, p: LinePieceView, processed: int) -> int {
    if drawn(p) && rd.search_result_positions is Some { processed + p.line.len() } else { processed }
}

/// The hit count before the pieces after `ps`.
pub open spec fn processed_over(rd: RichDataView, ps: Seq<LinePieceView>) -> int
    decreases ps.len(),
{
    if ps.len() == 0 { 0 } else { processed_after(rd, ps.last(), processed_over(rd, ps.drop_last())) }
}

/// The texts to measure for the text pieces `ps`.
pub open spec fn text_requests(rd: RichDataView, ps: Seq<LinePieceView>) -> Seq<Seq<char>>
    decreases ps.len(),
{
    if ps.len() == 0 {
        Seq::empty()
    } else {
        text_requests(rd, ps.drop_last()) + piece_requests(rd, ps.last(), processed_over(rd, ps.drop_last()))
    }
}

/// `s` cut at its line feeds: the texts between them, an empty one after
/// a final line feed.
pub open spec fn split_lines(s: Seq<char>) -> Seq<Seq<char>>
    decreases s.len(),
{
    if s.len() == 0 {
        seq![Seq::empty()]
    } else if s.last() == '\n' {
        split_lines(s.drop_last()).push(Seq::empty())
    } else {
        let r = split_lines(s.drop_last());
        r.update(r.len() - 1, r.last().push(s.last()))
    }
}

/// The lines of a caption drawn on an image: its text without carriage
/// returns, cut at its line feeds.
pub open spec fn caption_lines(text: Seq<char>) -> Seq<Seq<char>> {
    split_lines(crate::board::without_cr(text))
}

/// Whether an image segment is drawn now: it does not blink, or it blinks
/// and shows.
pub open spec fn image_shows(rd: RichDataView, blink_normal: bool) -> bool {
    !rd.blink || blink_normal
}

/// Whether the caption of an image segment is drawn.
pub open spec fn caption_drawn(rd: RichDataView, blink_normal: bool) -> bool {
    &&& rd.data_type == DataType::Image
    &&& rd.line_pieces.len() > 0
    &&& image_shows(rd, blink_normal)
    &&& rd.text.len() > 0
    &&& (!rd.disabled || rd.image_inactive is Some)
}

/// The texts to measure to draw a segment, in order: for a text segment
/// those of its pieces, for an image with a caption the caption's lines.
pub open spec fn spec_draw_requests(rd: RichDataView, blink_normal: bool) -> Seq<Seq<char>> {
    if rd.data_type == DataType::Text {
        text_requests(rd, rd.line_pieces)
    } else if caption_drawn(rd, blink_normal) {
        caption_lines(rd.text)
    } else {
        Seq::empty()
    }
}

/// Whether a background is blue or dark blue, on which the selection shows
/// in dark magenta.
pub open spec fn on_blue(c: Color) -> bool {
    c == (Color { r: 0, g: 0, b: 255 }) || c == (Color { r: 0, g: 0, b: 128 })
}

/// The paint of the selection of a segment.
pub open spec fn selection_paint(rd: RichDataView) -> Paint {
    match rd.bg_color {
        Some(c) => if on_blue(c) { Paint::DarkMagenta } else { Paint::Selection },
        None => Paint::Selection,
    }
}

/// The paint of the frame of the focused search hit at this redraw.
pub open spec fn frame_paint(b: BlinkState) -> Paint {
    Paint::Rgb(if b.next == BlinkDegree::Normal { b.focus_boarder_color } else { b.focus_boarder_contrast_color })
}

/// Whether hit `i` has the focus.
pub open spec fn is_marked(highlight: Option<usize>, i: int) -> bool {
    match highlight {
        Some(h) => h == i,
        None => false,
    }
}

/// The box of a search hit: its background, and its frame where it has
/// the focus.
pub open spec fn hit_box_ops(x: int, y: int, w: int, h: int, marked: bool, b: BlinkState) -> Seq<DrawOpView> {
    seq![DrawOpView::RoundedFill { paint: Paint::Rgb(b.focus_background_color), x, y, w, h, radius: HIGHLIGHT_ROUNDED_RECT_RADIUS }]
        + if marked {
            seq![DrawOpView::RoundedFrame { paint: frame_paint(b), line_width: b.focus_boarder_width, x, y, w, h, radius: HIGHLIGHT_ROUNDED_RECT_RADIUS }]
        } else {
            Seq::empty()
        }
}

/// The operations for search hit number `i`, `(pf, pt)`, on piece `p` at
/// height `y`, with the widths of its texts from `widths[k]` on (see
/// `one_hit_requests`): a hit that starts on the piece is boxed from its
/// start, moved by `focus_shift`; one that only ends there is boxed from
/// the piece's start.
pub open spec fn one_hit_ops(hit: (usize, usize), i: int, p: LinePieceView, processed: int, widths: Seq<i32>, k: int, y: int,
    highlight: Option<usize>, b: BlinkState, focus_shift: int) -> Seq<DrawOpView>
{
    let (pf, pt) = (hit.0 as int, hit.1 as int);
    let marked = is_marked(highlight, i);
    if processed <= pf < processed + p.line.len() {
        hit_box_ops(p.x + widths[k], y - p.spacing + focus_shift, widths[k + 1] as int, p.font_height as int, marked, b)
    } else if processed <= pt < processed + p.line.len() {
        hit_box_ops(p.x as int, y - p.spacing, widths[k] as int, p.font_height as int, marked, b)
    } else {
        Seq::empty()
    }
}

/// The operations for the search hits `pos` on piece `p`.
pub open spec fn hit_ops(pos: Seq<(usize, usize)>, p: LinePieceView, processed: int, widths: Seq<i32>, k: int, y: int,
    highlight: Option<usize>, b: BlinkState, focus_shift: int) -> Seq<DrawOpView>
    decreases pos.len(),
{
    if pos.len() == 0 {
        Seq::empty()
    } else {
        let before = pos.drop_last();
        hit_ops(before, p, processed, widths, k, y, highlight, b, focus_shift)
            + one_hit_ops(pos.last(), pos.len() - 1, p, processed, widths, k + hit_requests(before, p.line, processed).len(), y,
                highlight, b, focus_shift)
    }
}

/// The paint of a segment's text at this redraw: lighter or darker while
/// blinking content shows in contrast.
pub open spec fn text_paint(rd: RichDataView, b: BlinkState) -> Paint {
    Paint::Rgb(if rd.blink && b.next != BlinkDegree::Normal { spec_lighter_or_darker(rd.fg_color) } else { rd.fg_color })
}

/// The background of a text piece whose box starts at height `top`,
/// unless it blinks out.
pub open spec fn background_ops(rd: RichDataView, p: LinePieceView, top: int, b: BlinkState) -> Seq<DrawOpView> {
    match rd.bg_color {
        Some(c) => if !rd.blink || b.next == BlinkDegree::Normal {
            seq![DrawOpView::Fill { paint: Paint::Rgb(c), x: p.x as int, y: top, w: p.w as int, h: p.font_height as int }]
        } else {
            Seq::empty()
        },
        None => Seq::empty(),
    }
}

/// The selection of a text piece, from the width of the characters before
/// it, `widths[k]`, as wide as the selected ones, `widths[k + 1]`.
pub open spec fn selection_ops(rd: RichDataView, p: LinePieceView, widths: Seq<i32>, k: int, top: int) -> Seq<DrawOpView> {
    match p.selected_range {
        Some(_) => seq![DrawOpView::Fill { paint: selection_paint(rd), x: p.x + widths[k], y: top, w: widths[k + 1] as int, h: p.font_height as int }],
        None => Seq::empty(),
    }
}

/// The underline, the text without final line feeds and the
/// strike-through line of a text piece at height `y`.
pub open spec fn decoration_ops(rd: RichDataView, p: LinePieceView, y: int, b: BlinkState) -> Seq<DrawOpView> {
    let fh = p.font_height as int;
    let paint = text_paint(rd, b);
    let under = if rd.underline {
        let ly = y + fh - (fh / 10 + 1);
        seq![DrawOpView::Line { paint, x1: p.x as int, y1: ly, x2: p.x + p.w - 4, y2: ly }]
    } else {
        Seq::empty()
    };
    let text = seq![DrawOpView::Text { paint, text: trim_newlines(p.line), x: p.x as int, y: y + 1 + rd.font_size }];
    let strike = if rd.strike_through {
        let sy = y + fh / 2;
        seq![DrawOpView::Line { paint, x1: p.x as int, y1: sy, x2: p.x + p.w - 4, y2: sy }]
    } else {
        Seq::empty()
    };
    under + text + strike
}

/// The operations for a text piece `p` of segment `rd` scrolled by
/// `offset_y`, with the widths of its texts from `widths[k]` on: its
/// background unless it blinks out, its selection, its search hits, its
/// underline, its text without final line feeds, and its strike-through
/// line. Backgrounds and the selection move by `fill_shift`. Pieces of
/// nothing but line feeds are not drawn.
pub open spec fn piece_ops(rd: RichDataView, p: LinePieceView, processed: int, widths: Seq<i32>, k: int,
    offset_y: int, b: BlinkState, fill_shift: int, focus_shift: int) -> Seq<DrawOpView>
{
    if !drawn(p) {
        Seq::empty()
    } else {
        let y = p.y - offset_y;
        let top = y - p.spacing + fill_shift;
        let hits = match rd.search_result_positions {
            Some(pos) => hit_ops(pos, p, processed, widths, k + selection_requests(p).len(), y, rd.search_highlight_pos, b, focus_shift),
            None => Seq::empty(),
        };
        background_ops(rd, p, top, b) + selection_ops(rd, p, widths, k, top) + hits + decoration_ops(rd, p, y, b)
    }
}

/// The operations for the text pieces `ps`, in order.
pub open spec fn text_ops(rd: RichDataView, ps: Seq<LinePieceView>, widths: Seq<i32>, offset_y: int, b: BlinkState,
    fill_shift: int, focus_shift: int) -> Seq<DrawOpView>
    decreases ps.len(),
{
    if ps.len() == 0 {
        Seq::empty()
    } else {
        let before = ps.drop_last();
        text_ops(rd, before, widths, offset_y, b, fill_shift, focus_shift)
            + piece_ops(rd, ps.last(), processed_over(rd, before), widths, text_requests(rd, before).len() as int,
                offset_y, b, fill_shift, focus_shift)
    }
}

/// The pixel layout of the gray copy of an image.
pub open spec fn gray_depth(d: ColorDepth) -> ColorDepth {
    match d {
        ColorDepth::Rgb8 | ColorDepth::L8 => ColorDepth::L8,
        ColorDepth::Rgba8 | ColorDepth::La8 => ColorDepth::La8,
    }
}

/// The lines of an image's caption, centered on the image piece `p`, each
/// `widths[i]` wide, one font size apart.
pub open spec fn caption_ops(rd: RichDataView, p: LinePieceView, widths: Seq<i32>, offset_y: int, paint: Paint) -> Seq<DrawOpView> {
    let lines = caption_lines(rd.text);
    let fs = rd.font_size as int;
    let first = p.y - offset_y + half_toward_zero(p.h as int) - half_toward_zero(fs * lines.len());
    Seq::new(lines.len(), |i: int| DrawOpView::Text {
        paint,
        text: lines[i],
        x: p.x + half_toward_zero(p.w as int) - half_toward_zero(widths[i] as int),
        y: first + i * fs + fs,
    })
}

/// The operations for an image segment, drawn at its last piece: the image
/// and its caption in the segment's color while it is enabled, its gray
/// copy and the caption in light gray while it is disabled; nothing while
/// it blinks out.
pub open spec fn image_ops(rd: RichDataView, widths: Seq<i32>, offset_y: int, b: BlinkState) -> Seq<DrawOpView> {
    if rd.line_pieces.len() == 0 || !image_shows(rd, b.next == BlinkDegree::Normal) {
        Seq::empty()
    } else {
        let p = rd.line_pieces.last();
        let scale = rd.image_width != rd.image_target_width || rd.image_height != rd.image_target_height;
        let (x, y, w, h) = (p.x as int, p.y - offset_y, p.w as int, p.h as int);
        if !rd.disabled {
            (if rd.image is Some {
                seq![DrawOpView::Picture { inactive: false, depth: rd.image_color_depth, scale, x, y, w, h }]
            } else {
                Seq::empty()
            }) + (if rd.text.len() > 0 { caption_ops(rd, p, widths, offset_y, Paint::Rgb(rd.fg_color)) } else { Seq::empty() })
        } else if rd.image_inactive is Some {
            seq![DrawOpView::Picture { inactive: true, depth: gray_depth(rd.image_color_depth), scale, x, y, w, h }]
                + (if rd.text.len() > 0 { caption_ops(rd, p, widths, offset_y, Paint::Light1) } else { Seq::empty() })
        } else {
            Seq::empty()
        }
    }
}

/// The operations that draw a segment scrolled by `offset_y` with blink
/// state `b`, given the widths of the texts `spec_draw_requests` lists.
pub open spec fn spec_draw_plan(rd: RichDataView, widths: Seq<i32>, offset_y: int, b: BlinkState, fill_shift: int, focus_shift: int)
    -> Seq<DrawOpView>
{
    if rd.data_type == DataType::Text {
        text_ops(rd, rd.line_pieces, widths, offset_y, b, fill_shift, focus_shift)
    } else {
        image_ops(rd, widths, offset_y, b)
    }
}

/// The views of a list of texts.
pub open spec fn texts_view(v: Seq<Vec<char>>) -> Seq<Seq<char>> {
    v.map_values(|t: Vec<char>| t@)
}

/// How many characters are left of `s` once the line feeds at its end are
/// cut off.
fn trimmed_len(s: &Vec<char>) -> (k: usize)
    ensures
        k <= s@.len(),
        trim_newlines(s@) == s@.take(k as int),
{
    let mut k = s.len();
    assert(s@.take(k as int) =~= s@);
    while k > 0 && s[k - 1] == '\n'
        invariant
            k <= s@.len(),
            trim_newlines(s@) == trim_newlines(s@.take(k as int)),
        decreases k,
    {
        assert(s@.take(k as int).drop_last() =~= s@.take(k - 1));
        k = k - 1;
    }
    k
}

/// The first `n` characters of `s`, or all of them.
fn first_chars_exec(s: &Vec<char>, n: usize) -> (r: Vec<char>)
    ensures
        r@ == first_chars(s@, n as int),
{
    let end = if n < s.len() { n } else { s.len() };
    let mut r: Vec<char> = Vec::new();
    let mut i: usize = 0;
    while i < end
        invariant
            i <= end <= s@.len(),
            r@ == s@.take(i as int),
        decreases end - i,
    {
        r.push(s[i]);
        i = i + 1;
        assert(r@ =~= s@.take(i as int));
    }
    assert(s@.take(s@.len() as int) =~= s@);
    assert(s@.take(0) =~= Seq::<char>::empty());
    r
}

/// The characters of `s` after the first `n`.
fn chars_after_exec(s: &Vec<char>, n: usize) -> (r: Vec<char>)
    ensures
        r@ == chars_after(s@, n as int),
{
    let start = if n < s.len() { n } else { s.len() };
    let mut r: Vec<char> = Vec::new();
    let mut i: usize = start;
    while i < s.len()
        invariant
            start <= i <= s@.len(),
            r@ == s@.subrange(start as int, i as int),
        decreases s@.len() - i,
    {
        r.push(s[i]);
        i = i + 1;
        assert(r@ =~= s@.subrange(start as int, i as int));
    }
    assert(s@.subrange(start as int, s@.len() as int) =~= chars_after(s@, n as int));
    r
}

/// Appends the texts to measure for one search hit, as `one_hit_requests`
/// says.
fn push_hit_requests(hit: (usize, usize), line: &Vec<char>, processed: usize, out: &mut Vec<Vec<char>>)
    requires
        hit.0 <= hit.1,
    ensures
        texts_view(final(out)@) == texts_view(old(out)@) + one_hit_requests(hit, line@, processed as int),
{
    let (pf, pt) = hit;
    let pl = line.len();
    let ghost before = texts_view(out@);
    if pf >= processed && pf - processed < pl {
        let a = first_chars_exec(line, pf - processed);
        let rest = chars_after_exec(line, pf - processed);
        let b = first_chars_exec(&rest, pt - pf);
        out.push(a);
        out.push(b);
        assert(texts_view(out@) =~= before + one_hit_requests(hit, line@, processed as int));
    } else if pt >= processed && pt - processed < pl {
        let a = first_chars_exec(line, pt - processed);
        out.push(a);
        assert(texts_view(out@) =~= before + one_hit_requests(hit, line@, processed as int));
    } else {
        assert(texts_view(out@) =~= before + one_hit_requests(hit, line@, processed as int));
    }
}

/// Appends the texts to measure for a text piece, as `piece_requests`
/// says.
fn push_piece_requests(rd: &RichData, p: &LinePiece, processed: usize, out: &mut Vec<Vec<char>>)
    requires
        hits_ordered(rd@),
    ensures
        texts_view(final(out)@) == texts_view(old(out)@) + piece_requests(rd@, p@, processed as int),
{
    let ghost before = texts_view(out@);
    let k = trimmed_len(&p.line);
    if k == 0 {
        assert(texts_view(out@) =~= before + piece_requests(rd@, p@, processed as int));
        return;
    }
    match p.selected_range {
        Some((from, to)) => {
            let a = first_chars_exec(&p.line, from);
            let rest = chars_after_exec(&p.line, from);
            let b = first_chars_exec(&rest, if to > from { to - from } else { 0 });
            out.push(a);
            out.push(b);
        },
        None => {},
    }
    assert(texts_view(out@) =~= before + selection_requests(p@));
    match &rd.search_result_positions {
        Some(pos) => {
            let ghost mid = texts_view(out@);
            let mut i: usize = 0;
            assert(pos@.take(0) =~= Seq::<(usize, usize)>::empty());
            while i < pos.len()
                invariant
                    i <= pos@.len(),
                    rd@.search_result_positions == Some(pos@),
                    hits_ordered(rd@),
                    texts_view(out@) == mid + hit_requests(pos@.take(i as int), p.line@, processed as int),
                decreases pos@.len() - i,
            {
                assert(rd@.search_result_positions->0[i as int] == pos@[i as int]);
                assert(pos@[i as int].0 <= pos@[i as int].1);
                push_hit_requests(pos[i], &p.line, processed, out);
                proof {
                    let t = pos@.take(i + 1);
                    assert(t.drop_last() =~= pos@.take(i as int));
                    assert(t.last() == pos@[i as int]);
                }
                i = i + 1;
                assert(texts_view(out@) =~= mid + hit_requests(pos@.take(i as int), p.line@, processed as int));
            }
            assert(pos@.take(pos@.len() as int) =~= pos@);
            assert(texts_view(out@) =~= before + piece_requests(rd@, p@, processed as int));
        },
        None => {
            assert(texts_view(out@) =~= before + piece_requests(rd@, p@, processed as int));
        },
    }
}

/// The hit count never falls from one piece to the next.
proof fn lemma_processed_grows(rd: RichDataView, ps: Seq<LinePieceView>, j: int)
    requires
        0 <= j <= ps.len(),
    ensures
        processed_over(rd, ps.take(j)) <= processed_over(rd, ps),
    decreases ps.len(),
{
    if j < ps.len() {
        lemma_processed_grows(rd, ps.drop_last(), j);
        assert(ps.drop_last().take(j) =~= ps.take(j));
    } else {
        assert(ps.take(j) =~= ps);
    }
}

/// The text cut at its line feeds, as `split_lines` says.
fn split_lines_exec(s: &Vec<char>) -> (r: Vec<Vec<char>>)
    ensures
        texts_view(r@) == split_lines(s@),
{
    let mut r: Vec<Vec<char>> = Vec::new();
    r.push(Vec::new());
    assert(s@.take(0) =~= Seq::<char>::empty());
    assert(texts_view(r@) =~= split_lines(s@.take(0)));
    let mut i: usize = 0;
    while i < s.len()
        invariant
            i <= s@.len(),
            r@.len() >= 1,
            texts_view(r@) == split_lines(s@.take(i as int)),
        decreases s@.len() - i,
    {
        let c = s[i];
        let ghost t = s@.take(i + 1);
        assert(t.drop_last() =~= s@.take(i as int));
        assert(t.last() == c);
        if c == '\n' {
            r.push(Vec::new());
            assert(texts_view(r@) =~= split_lines(t));
        } else {
            let ghost prev = texts_view(r@);
            let mut last = r.pop().unwrap();
            last.push(c);
            r.push(last);
            assert(texts_view(r@) =~= prev.update(prev.len() - 1, prev.last().push(c)));
        }
        i = i + 1;
    }
    assert(s@.take(s@.len() as int) =~= s@);
    r
}

/// The texts to measure to draw a segment, as `spec_draw_requests` says,
/// where `blink_normal` tells that blinking content shows at this redraw.
pub fn draw_requests(rd: &RichData, blink_normal: bool) -> (r: Vec<Vec<char>>)
    requires
        hits_ordered(rd@),
        processed_over(rd@, rd@.line_pieces) <= usize::MAX,
    ensures
        texts_view(r@) == spec_draw_requests(rd@, blink_normal),
{
    let mut out: Vec<Vec<char>> = Vec::new();
    if rd.data_type == DataType::Text {
        let ghost ps = rd@.line_pieces;
        let mut processed: usize = 0;
        let mut j: usize = 0;
        assert(ps.take(0) =~= Seq::<LinePieceView>::empty());
        while j < rd.line_pieces.len()
            invariant
                j <= rd.line_pieces@.len(),
                ps == rd@.line_pieces,
                ps.len() == rd.line_pieces@.len(),
                hits_ordered(rd@),
                processed_over(rd@, ps) <= usize::MAX,
                processed as int == processed_over(rd@, ps.take(j as int)),
                texts_view(out@) == text_requests(rd@, ps.take(j as int)),
            decreases rd.line_pieces@.len() - j,
        {
            let p = &rd.line_pieces[j];
            assert(ps[j as int] == p@);
            let ghost t = ps.take(j + 1);
            assert(t.drop_last() =~= ps.take(j as int));
            assert(t.last() == p@);
            push_piece_requests(rd, p, processed, &mut out);
            proof {
                lemma_processed_grows(rd@, ps, j + 1);
            }
            if trimmed_len(&p.line) > 0 && rd.search_result_positions.is_some() {
                processed = processed + p.line.len();
            }
            j = j + 1;
        }
        assert(ps.take(ps.len() as int) =~= ps);
        out
    } else {
        let shows = !rd.blink || blink_normal;
        let has_pieces = rd.line_pieces.len() > 0;
        if has_pieces && shows && rd.text.len() > 0 && (!rd.disabled || rd.image_inactive.is_some()) {
            let t = crate::panel::strip_cr(&rd.text);
            split_lines_exec(&t)
        } else {
            assert(texts_view(out@) =~= Seq::<Seq<char>>::empty());
            out
        }
    }
}

/// The hit texts of a prefix of the hits come first.
proof fn lemma_hit_requests_prefix(pos: Seq<(usize, usize)>, line: Seq<char>, processed: int, i: int)
    requires
        0 <= i <= pos.len(),
    ensures
        hit_requests(pos.take(i), line, processed).len() <= hit_requests(pos, line, processed).len(),
    decreases pos.len(),
{
    if i < pos.len() {
        lemma_hit_requests_prefix(pos.drop_last(), line, processed, i);
        assert(pos.drop_last().take(i) =~= pos.take(i));
    } else {
        assert(pos.take(i) =~= pos);
    }
}

/// The piece texts of a prefix of the pieces come first.
proof fn lemma_text_requests_prefix(rd: RichDataView, ps: Seq<LinePieceView>, j: int)
    requires
        0 <= j <= ps.len(),
    ensures
        text_requests(rd, ps.take(j)).len() <= text_requests(rd, ps).len(),
    decreases ps.len(),
{
    if j < ps.len() {
        lemma_text_requests_prefix(rd, ps.drop_last(), j);
        assert(ps.drop_last().take(j) =~= ps.take(j));
    } else {
        assert(ps.take(j) =~= ps);
    }
}

/// Appends the box of a search hit, as `hit_box_ops` says.
fn push_hit_box(x: i64, y: i64, w: i64, h: i64, marked: bool, b: &BlinkState, out: &mut Vec<DrawOp>)
    ensures
        op_views(final(out)@) == op_views(old(out)@) + hit_box_ops(x as int, y as int, w as int, h as int, marked, *b),
{
    let ghost before = op_views(out@);
    out.push(DrawOp::RoundedFill { paint: Paint::Rgb(b.focus_background_color), x, y, w, h, radius: HIGHLIGHT_ROUNDED_RECT_RADIUS });
    if marked {
        let c = if b.next == BlinkDegree::Normal { b.focus_boarder_color } else { b.focus_boarder_contrast_color };
        out.push(DrawOp::RoundedFrame { paint: Paint::Rgb(c), line_width: b.focus_boarder_width, x, y, w, h, radius: HIGHLIGHT_ROUNDED_RECT_RADIUS });
    }
    assert(op_views(out@) =~= before + hit_box_ops(x as int, y as int, w as int, h as int, marked, *b));
}

/// How many texts one search hit asks to measure on a piece.
fn one_hit_count(hit: (usize, usize), line: &Vec<char>, processed: usize) -> (n: usize)
    ensures
        n == one_hit_requests(hit, line@, processed as int).len(),
{
    let (pf, pt) = hit;
    let pl = line.len();
    if pf >= processed && pf - processed < pl {
        2
    } else if pt >= processed && pt - processed < pl {
        1
    } else {
        0
    }
}

/// Appends the operations for one search hit, as `one_hit_ops` says.
fn push_hit_ops(hit: (usize, usize), i: usize, p: &LinePiece, processed: usize, widths: &Vec<i32>, k: usize, y: i64,
    highlight: Option<usize>, b: &BlinkState, focus_shift: i32, out: &mut Vec<DrawOp>)
    requires
        k + one_hit_requests(hit, p.line@, processed as int).len() <= widths@.len(),
        -0x1_0000_0000 <= y <= 0x1_0000_0000,
    ensures
        op_views(final(out)@) == op_views(old(out)@)
            + one_hit_ops(hit, i as int, p@, processed as int, widths@, k as int, y as int, highlight, *b, focus_shift as int),
{
    let wl = widths.len();
    let (pf, pt) = hit;
    let pl = p.line.len();
    let marked = match highlight { Some(h) => h == i, None => false };
    if pf >= processed && pf - processed < pl {
        assert(one_hit_requests(hit, p.line@, processed as int).len() == 2);
        push_hit_box(p.x as i64 + widths[k] as i64, y - p.spacing as i64 + focus_shift as i64, widths[k + 1] as i64, p.font_height as i64,
            marked, b, out);
    } else if pt >= processed && pt - processed < pl {
        assert(one_hit_requests(hit, p.line@, processed as int).len() == 1);
        push_hit_box(p.x as i64, y - p.spacing as i64, widths[k] as i64, p.font_height as i64, marked, b, out);
    } else {
        assert(op_views(out@) =~= op_views(old(out)@)
            + one_hit_ops(hit, i as int, p@, processed as int, widths@, k as int, y as int, highlight, *b, focus_shift as int));
    }
}

/// Appends the operations for the search hits of a piece, as `hit_ops`
/// says.
fn push_all_hit_ops(pos: &Vec<(usize, usize)>, p: &LinePiece, processed: usize, widths: &Vec<i32>, k: usize, y: i64,
    highlight: Option<usize>, b: &BlinkState, focus_shift: i32, out: &mut Vec<DrawOp>)
    requires
        k + hit_requests(pos@, p.line@, processed as int).len() <= widths@.len(),
        -0x1_0000_0000 <= y <= 0x1_0000_0000,
    ensures
        op_views(final(out)@) == op_views(old(out)@)
            + hit_ops(pos@, p@, processed as int, widths@, k as int, y as int, highlight, *b, focus_shift as int),
{
    let wl = widths.len();
    let ghost start = op_views(out@);
    let mut i: usize = 0;
    let mut kk: usize = k;
    assert(pos@.take(0) =~= Seq::<(usize, usize)>::empty());
    while i < pos.len()
        invariant
            i <= pos@.len(),
            k + hit_requests(pos@, p.line@, processed as int).len() <= widths@.len(),
            wl == widths@.len(),
            kk == k + hit_requests(pos@.take(i as int), p.line@, processed as int).len(),
            -0x1_0000_0000 <= y <= 0x1_0000_0000,
            op_views(out@) == start + hit_ops(pos@.take(i as int), p@, processed as int, widths@, k as int, y as int, highlight, *b, focus_shift as int),
        decreases pos@.len() - i,
    {
        let ghost t = pos@.take(i + 1);
        assert(t.drop_last() =~= pos@.take(i as int));
        assert(t.last() == pos@[i as int]);
        proof {
            lemma_hit_requests_prefix(pos@, p.line@, processed as int, i + 1);
        }
        let hit = pos[i];
        push_hit_ops(hit, i, p, processed, widths, kk, y, highlight, b, focus_shift, out);
        kk = kk + one_hit_count(hit, &p.line, processed);
        i = i + 1;
    }
    assert(pos@.take(pos@.len() as int) =~= pos@);
}

/// Appends the background and the selection of a text piece, as
/// `background_ops` and `selection_ops` say; returns where the widths of
/// its search hits start.
fn push_fills(rd: &RichData, p: &LinePiece, widths: &Vec<i32>, k: usize, top: i64, b: &BlinkState, out: &mut Vec<DrawOp>) -> (k1: usize)
    requires
        k + selection_requests(p@).len() <= widths@.len(),
    ensures
        k1 == k + selection_requests(p@).len(),
        op_views(final(out)@) == op_views(old(out)@) + background_ops(rd@, p@, top as int, *b) + selection_ops(rd@, p@, widths@, k as int, top as int),
{
    let wl = widths.len();
    let ghost before = op_views(out@);
    let fh = p.font_height as i64;
    match rd.bg_color {
        Some(c) => {
            if !rd.blink || b.next == BlinkDegree::Normal {
                out.push(DrawOp::Fill { paint: Paint::Rgb(c), x: p.x as i64, y: top, w: p.w as i64, h: fh });
            }
        },
        None => {},
    }
    assert(op_views(out@) =~= before + background_ops(rd@, p@, top as int, *b));
    let ghost mid = op_views(out@);
    let k1 = match p.selected_range {
        Some(_) => {
            let paint = match rd.bg_color {
                Some(c) => if (c.r == 0 && c.g == 0 && c.b == 255) || (c.r == 0 && c.g == 0 && c.b == 128) { Paint::DarkMagenta } else { Paint::Selection },
                None => Paint::Selection,
            };
            out.push(DrawOp::Fill { paint, x: p.x as i64 + widths[k] as i64, y: top, w: widths[k + 1] as i64, h: fh });
            k + 2
        },
        None => k,
    };
    assert(op_views(out@) =~= mid + selection_ops(rd@, p@, widths@, k as int, top as int));
    k1
}

/// Appends the underline, the text and the strike-through line of a text
/// piece, as `decoration_ops` says.
fn push_decorations(rd: &RichData, p: &LinePiece, y: i64, b: &BlinkState, out: &mut Vec<DrawOp>)
    requires
        -0x1_0000_0000 <= y <= 0x1_0000_0000,
    ensures
        op_views(final(out)@) == op_views(old(out)@) + decoration_ops(rd@, p@, y as int, *b),
{
    let ghost before = op_views(out@);
    let fh = p.font_height as i64;
    let paint = Paint::Rgb(if rd.blink && b.next != BlinkDegree::Normal { get_lighter_or_darker_color(rd.fg_color) } else { rd.fg_color });
    assert(paint == text_paint(rd@, *b));
    if rd.underline {
        let ly = y + fh - (floor_div_pos(fh, 10) + 1);
        out.push(DrawOp::Line { paint, x1: p.x as i64, y1: ly, x2: p.x as i64 + p.w as i64 - 4, y2: ly });
    }
    let k2 = trimmed_len(&p.line);
    let text = first_chars_exec(&p.line, k2);
    assert(text@ =~= trim_newlines(p.line@));
    out.push(DrawOp::Text { paint, text, x: p.x as i64, y: y + 1 + rd.font_size as i64 });
    if rd.strike_through {
        let sy = y + floor_div_pos(fh, 2);
        out.push(DrawOp::Line { paint, x1: p.x as i64, y1: sy, x2: p.x as i64 + p.w as i64 - 4, y2: sy });
    }
    assert(op_views(out@) =~= before + decoration_ops(rd@, p@, y as int, *b));
}

/// Appends the operations for a text piece, as `piece_ops` says.
fn push_piece_ops(rd: &RichData, p: &LinePiece, processed: usize, widths: &Vec<i32>, k: usize, offset_y: i32, b: &BlinkState,
    fill_shift: i32, focus_shift: i32, out: &mut Vec<DrawOp>)
    requires
        k + piece_requests(rd@, p@, processed as int).len() <= widths@.len(),
    ensures
        op_views(final(out)@) == op_views(old(out)@)
            + piece_ops(rd@, p@, processed as int, widths@, k as int, offset_y as int, *b, fill_shift as int, focus_shift as int),
{
    let ghost before = op_views(out@);
    if trimmed_len(&p.line) == 0 {
        assert(op_views(out@) =~= before);
        return;
    }
    assert(drawn(p@));
    let ghost hit_reqs = match rd@.search_result_positions {
        Some(pos) => hit_requests(pos, p.line@, processed as int),
        None => Seq::<Seq<char>>::empty(),
    };
    assert(piece_requests(rd@, p@, processed as int) == selection_requests(p@) + hit_reqs);
    let y = p.y as i64 - offset_y as i64;
    let top = y - p.spacing as i64 + fill_shift as i64;
    let k1 = push_fills(rd, p, widths, k, top, b, out);
    let ghost after_fills = op_views(out@);
    let ghost hits_s = match rd@.search_result_positions {
        Some(pos) => hit_ops(pos, p@, processed as int, widths@, k1 as int, y as int, rd@.search_highlight_pos, *b, focus_shift as int),
        None => Seq::empty(),
    };
    match &rd.search_result_positions {
        Some(pos) => {
            push_all_hit_ops(pos, p, processed, widths, k1, y, rd.search_highlight_pos, b, focus_shift, out);
        },
        None => {},
    }
    assert(op_views(out@) =~= after_fills + hits_s);
    push_decorations(rd, p, y, b, out);
    assert(op_views(out@) =~= before + piece_ops(rd@, p@, processed as int, widths@, k as int, offset_y as int, *b, fill_shift as int, focus_shift as int));
}

/// Half of `v`, rounded toward zero.
fn half(v: i64) -> (r: i64)
    requires
        -0x4000_0000_0000_0000 <= v <= 0x4000_0000_0000_0000,
    ensures
        r as int == half_toward_zero(v as int),
{
    if v >= 0 { v / 2 } else { -((-v) / 2) }
}

/// Where the widths of the next piece start: after those of piece `p`.
fn next_request_index(rd: &RichData, p: &LinePiece, processed: usize, k: usize, widths_len: usize) -> (r: usize)
    requires
        k + piece_requests(rd@, p@, processed as int).len() <= widths_len,
    ensures
        r == k + piece_requests(rd@, p@, processed as int).len(),
{
    if trimmed_len(&p.line) == 0 {
        return k;
    }
    assert(drawn(p@));
    let ghost hit_reqs = match rd@.search_result_positions {
        Some(pos) => hit_requests(pos, p.line@, processed as int),
        None => Seq::<Seq<char>>::empty(),
    };
    assert(piece_requests(rd@, p@, processed as int) == selection_requests(p@) + hit_reqs);
    let mut r = match p.selected_range { Some(_) => k + 2, None => k };
    match &rd.search_result_positions {
        Some(pos) => {
            let k1 = r;
            let mut i: usize = 0;
            assert(pos@.take(0) =~= Seq::<(usize, usize)>::empty());
            while i < pos.len()
                invariant
                    i <= pos@.len(),
                    k1 + hit_requests(pos@, p.line@, processed as int).len() <= widths_len,
                    r == k1 + hit_requests(pos@.take(i as int), p.line@, processed as int).len(),
                decreases pos@.len() - i,
            {
                let ghost t = pos@.take(i + 1);
                assert(t.drop_last() =~= pos@.take(i as int));
                assert(t.last() == pos@[i as int]);
                proof {
                    lemma_hit_requests_prefix(pos@, p.line@, processed as int, i + 1);
                }
                r = r + one_hit_count(pos[i], &p.line, processed);
                i = i + 1;
            }
            assert(pos@.take(pos@.len() as int) =~= pos@);
        },
        None => {},
    }
    r
}

/// Appends the caption of an image, as `caption_ops` says.
fn push_caption(rd: &RichData, p: &LinePiece, widths: &Vec<i32>, offset_y: i32, paint: Paint, out: &mut Vec<DrawOp>)
    requires
        widths@.len() == caption_lines(rd@.text).len(),
        caption_lines(rd@.text).len() <= i32::MAX,
        i32::MIN <= rd.font_size * caption_lines(rd@.text).len() <= i32::MAX,
    ensures
        op_views(final(out)@) == op_views(old(out)@) + caption_ops(rd@, p@, widths@, offset_y as int, paint),
{
    let ghost before = op_views(out@);
    let ghost spec_ops = caption_ops(rd@, p@, widths@, offset_y as int, paint);
    let t = crate::panel::strip_cr(&rd.text);
    let lines = split_lines_exec(&t);
    let n = lines.len();
    let fs = rd.font_size as i64;
    let total = fs * (n as i64);
    let first = p.y as i64 - offset_y as i64 + half(p.h as i64) - half(total);
    let cx = p.x as i64 + half(p.w as i64);
    let mut i: usize = 0;
    let mut line_y = first + fs;
    while i < n
        invariant
            i <= n == lines@.len() == widths@.len(),
            texts_view(lines@) == caption_lines(rd@.text),
            n <= i32::MAX,
            fs == rd.font_size as i64,
            i32::MIN <= fs * n <= i32::MAX,
            spec_ops == caption_ops(rd@, p@, widths@, offset_y as int, paint),
            first as int == p.y - offset_y + half_toward_zero(p.h as int) - half_toward_zero(fs * n),
            -0x2_0000_0000 <= first <= 0x2_0000_0000,
            cx as int == p.x + half_toward_zero(p.w as int),
            -0x2_0000_0000 <= cx <= 0x2_0000_0000,
            line_y as int == first + i * fs + fs,
            op_views(out@) == before + spec_ops.take(i as int),
        decreases n - i,
    {
        proof {
            assert(-0x8000_0000 <= i * fs <= 0x8000_0000 && -0x8000_0000 <= (i + 1) * fs <= 0x8000_0000) by (nonlinear_arith)
                requires -0x8000_0000 <= fs <= 0x8000_0000, 0 <= i < n, -0x8000_0000 <= fs * n <= 0x8000_0000;
            assert(i * fs + fs == (i + 1) * fs) by (nonlinear_arith);
        }
        let text = lines[i].clone();
        assert(text@ =~= texts_view(lines@)[i as int]);
        let x = cx - half(widths[i] as i64);
        let ghost prev = op_views(out@);
        out.push(DrawOp::Text { paint, text, x, y: line_y });
        assert(spec_ops[i as int] == DrawOpView::Text { paint, text: caption_lines(rd@.text)[i as int], x: x as int, y: line_y as int });
        assert(op_views(out@) =~= prev.push(spec_ops[i as int]));
        assert(spec_ops.take(i + 1) =~= spec_ops.take(i as int).push(spec_ops[i as int]));
        i = i + 1;
        line_y = line_y + fs;
    }
    assert(spec_ops.take(n as int) =~= spec_ops);
}

/// Appends the operations for an image segment, as `image_ops` says.
fn push_image_ops(rd: &RichData, widths: &Vec<i32>, offset_y: i32, b: &BlinkState, out: &mut Vec<DrawOp>)
    requires
        rd.data_type == DataType::Image,
        widths@.len() == spec_draw_requests(rd@, b.next == BlinkDegree::Normal).len(),
        caption_drawn(rd@, b.next == BlinkDegree::Normal) ==> caption_lines(rd@.text).len() <= i32::MAX
            && i32::MIN <= rd.font_size * caption_lines(rd@.text).len() <= i32::MAX,
    ensures
        op_views(final(out)@) == op_views(old(out)@) + image_ops(rd@, widths@, offset_y as int, *b),
{
    let ghost before = op_views(out@);
    let n = rd.line_pieces.len();
    let shows = !rd.blink || b.next == BlinkDegree::Normal;
    if n == 0 || !shows {
        assert(op_views(out@) =~= before + image_ops(rd@, widths@, offset_y as int, *b));
        return;
    }
    let p = &rd.line_pieces[n - 1];
    assert(rd@.line_pieces.last() == p@);
    let scale = rd.image_width != rd.image_target_width || rd.image_height != rd.image_target_height;
    let (x, y, w, h) = (p.x as i64, p.y as i64 - offset_y as i64, p.w as i64, p.h as i64);
    if !rd.disabled {
        if rd.image.is_some() {
            out.push(DrawOp::Picture { inactive: false, depth: rd.image_color_depth, scale, x, y, w, h });
        }
        if rd.text.len() > 0 {
            push_caption(rd, p, widths, offset_y, Paint::Rgb(rd.fg_color), out);
        }
    } else if rd.image_inactive.is_some() {
        let depth = match rd.image_color_depth {
            ColorDepth::Rgb8 | ColorDepth::L8 => ColorDepth::L8,
            ColorDepth::Rgba8 | ColorDepth::La8 => ColorDepth::La8,
        };
        out.push(DrawOp::Picture { inactive: true, depth, scale, x, y, w, h });
        if rd.text.len() > 0 {
            push_caption(rd, p, widths, offset_y, Paint::Light1, out);
        }
    }
    assert(op_views(out@) =~= before + image_ops(rd@, widths@, offset_y as int, *b));
}

/// The operations that draw segment `rd` scrolled by `offset_y` at a
/// redraw with blink state `blink`, as `spec_draw_plan` says, where
/// `widths` holds the measured widths of the texts `draw_requests` lists
/// and `fill_shift` and `focus_shift` move backgrounds and the boxes of
/// search hits down on platforms that draw text lower.
pub fn draw_plan(rd: &RichData, widths: &Vec<i32>, offset_y: i32, blink: &BlinkState, fill_shift: i32, focus_shift: i32) -> (ops: Vec<DrawOp>)
    requires
        hits_ordered(rd@),
        processed_over(rd@, rd@.line_pieces) <= usize::MAX,
        widths@.len() == spec_draw_requests(rd@, blink.next == BlinkDegree::Normal).len(),
        caption_drawn(rd@, blink.next == BlinkDegree::Normal) ==> caption_lines(rd@.text).len() <= i32::MAX
            && i32::MIN <= rd.font_size * caption_lines(rd@.text).len() <= i32::MAX,
    ensures
        op_views(ops@) == spec_draw_plan(rd@, widths@, offset_y as int, *blink, fill_shift as int, focus_shift as int),
{
    let mut out: Vec<DrawOp> = Vec::new();
    if rd.data_type != DataType::Text {
        push_image_ops(rd, widths, offset_y, blink, &mut out);
        assert(op_views(out@) =~= spec_draw_plan(rd@, widths@, offset_y as int, *blink, fill_shift as int, focus_shift as int));
        return out;
    }
    let wl = widths.len();
    let ghost ps = rd@.line_pieces;
    let mut processed: usize = 0;
    let mut k: usize = 0;
    let mut j: usize = 0;
    assert(ps.take(0) =~= Seq::<LinePieceView>::empty());
    assert(op_views(out@) =~= Seq::<DrawOpView>::empty());
    while j < rd.line_pieces.len()
        invariant
            j <= rd.line_pieces@.len(),
            ps == rd@.line_pieces,
            ps.len() == rd.line_pieces@.len(),
            rd.data_type == DataType::Text,
            wl == widths@.len(),
            widths@.len() == text_requests(rd@, ps).len(),
            processed_over(rd@, ps) <= usize::MAX,
            processed as int == processed_over(rd@, ps.take(j as int)),
            k as int == text_requests(rd@, ps.take(j as int)).len(),
            op_views(out@) == text_ops(rd@, ps.take(j as int), widths@, offset_y as int, *blink, fill_shift as int, focus_shift as int),
        decreases rd.line_pieces@.len() - j,
    {
        let p = &rd.line_pieces[j];
        assert(ps[j as int] == p@);
        let ghost t = ps.take(j + 1);
        assert(t.drop_last() =~= ps.take(j as int));
        assert(t.last() == p@);
        proof {
            lemma_processed_grows(rd@, ps, j + 1);
            lemma_text_requests_prefix(rd@, ps, j + 1);
        }
        push_piece_ops(rd, p, processed, widths, k, offset_y, blink, fill_shift, focus_shift, &mut out);
        k = next_request_index(rd, p, processed, k, wl);
        if trimmed_len(&p.line) > 0 && rd.search_result_positions.is_some() {
            processed = processed + p.line.len();
        }
        j = j + 1;
    }
    assert(ps.take(ps.len() as int) =~= ps);
    out
}

} // verus!
