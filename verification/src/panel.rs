//! The state of the main view apart from its widgets: the data buffers,
//! the virtual cursor, the positioning board and the settings that new data
//! takes, with the operations the view performs on them.

use vstd::prelude::*;
use crate::board::{ReWriteBoard, views, board_bottom};
use crate::color::{Color, white};
use crate::cursor::CursorPos;
use crate::data::{RichData, RichDataView};
use crate::options::{RichDataOptions, update_data_properties, options_applicable, options_applied,
    disable_data, spec_disabled, gray_fits, expire_data, spec_expired};
use crate::action::in_category;
use crate::data::DataType;
use crate::piece::{LinePiece, LinePieceView};
use crate::text::{Font, spec_line_height, line_height_of};
use crate::{PADDING_BOTTOM, PADDING_LEFT, PADDING_RIGHT, PADDING_TOP, DEFAULT_FONT_SIZE, DEFAULT_TAB_WIDTH, BASIC_UNIT_CHAR};

verus! {

/// How far the data of a buffer reach below a view `panel_height` high,
/// with the bottom padding: the bottom of the last segment, or nothing for
/// an empty buffer.
pub open spec fn scroll_height_of(bufs: Seq<RichDataView>, panel_height: int) -> int {
    if bufs.len() == 0 {
        0
    } else {
        let bottom = bufs.last().v_bounds.1 as int;
        if bottom + PADDING_BOTTOM > panel_height { bottom - panel_height + PADDING_BOTTOM } else { 0 }
    }
}

/// How far the view is scrolled down to show the last segment of a buffer
/// in a window `window_height` high.
pub open spec fn offset_y_of(bufs: Seq<RichDataView>, window_height: int) -> int {
    let bottom = if bufs.len() == 0 { 0 } else { bufs.last().v_bounds.1 as int };
    if bottom > window_height { bottom - window_height + PADDING_BOTTOM } else { 0 }
}

/// Whether the identifiers of a buffer never decrease, as fresh identifiers
/// are handed out.
pub open spec fn ids_sorted(bufs: Seq<RichDataView>) -> bool {
    forall|i: int, j: int| 0 <= i <= j < bufs.len() ==> bufs[i].id <= bufs[j].id
}

/// A buffer after segment `r` was taken into view with room for
/// `max_lines` segments: `r` goes last, and after a text segment the
/// oldest one leaves when there are more than that.
pub open spec fn pushed(bufs: Seq<RichDataView>, r: RichDataView, max_lines: nat) -> Seq<RichDataView> {
    let p = bufs.push(r);
    if r.data_type == DataType::Text && p.len() > max_lines { p.skip(1) } else { p }
}

/// A buffer without its last segment, where it has one.
pub open spec fn without_last(bufs: Seq<RichDataView>) -> Seq<RichDataView> {
    if bufs.len() > 0 { bufs.drop_last() } else { bufs }
}

/// The newest `max_lines` segments of a buffer.
pub open spec fn cached(bufs: Seq<RichDataView>, max_lines: nat) -> Seq<RichDataView> {
    if bufs.len() > max_lines { bufs.skip(bufs.len() - max_lines) } else { bufs }
}

/// The views of a buffer that may be absent.
pub open spec fn opt_views(b: Option<Vec<RichData>>) -> Option<Seq<RichDataView>> {
    match b {
        Some(v) => Some(views(v@)),
        None => None,
    }
}

/// The main data and the data in view once the remote side places the
/// cursor: the data in view join the main data.
pub open spec fn to_remote(main: Option<Seq<RichDataView>>, current: Seq<RichDataView>) -> (Option<Seq<RichDataView>>, Seq<RichDataView>) {
    match main {
        Some(m) => (Some(m + current), Seq::empty()),
        None => (None, current),
    }
}

/// The main data and the data in view once the output flows locally
/// again: the main data come back into view.
pub open spec fn to_local(main: Option<Seq<RichDataView>>, current: Seq<RichDataView>) -> (Option<Seq<RichDataView>>, Seq<RichDataView>) {
    match main {
        Some(m) => (Some(Seq::empty()), m),
        None => (None, Seq::empty()),
    }
}

/// Looks for the segment with identifier `id` by halving the buffer: where
/// it is found, or none; with identifiers in order, none means that no
/// segment has it.
pub fn find_by_id(buffer: &Vec<RichData>, id: i64) -> (r: Option<usize>)
    ensures
        match r {
            Some(i) => i < buffer@.len() && buffer@[i as int].id == id,
            None => ids_sorted(views(buffer@)) ==> forall|k: int| 0 <= k < buffer@.len() ==> buffer@[k].id != id,
        },
{
    let mut lo: usize = 0;
    let mut hi: usize = buffer.len();
    while lo < hi
        invariant
            lo <= hi <= buffer@.len(),
            ids_sorted(views(buffer@)) ==> forall|k: int| 0 <= k < lo ==> buffer@[k].id < id,
            ids_sorted(views(buffer@)) ==> forall|k: int| hi <= k < buffer@.len() ==> buffer@[k].id > id,
        decreases hi - lo,
    {
        let mid = lo + (hi - lo) / 2;
        let mid_id = buffer[mid].id;
        if mid_id == id {
            return Some(mid);
        } else if mid_id < id {
            proof {
                if ids_sorted(views(buffer@)) {
                    assert forall|k: int| 0 <= k <= mid implies buffer@[k].id < id by {
                        assert(views(buffer@)[k].id <= views(buffer@)[mid as int].id);
                    }
                }
            }
            lo = mid + 1;
        } else {
            proof {
                if ids_sorted(views(buffer@)) {
                    assert forall|k: int| mid <= k < buffer@.len() implies buffer@[k].id > id by {
                        assert(views(buffer@)[mid as int].id <= views(buffer@)[k].id);
                    }
                }
            }
            hi = mid;
        }
    }
    None
}

/// The state of the main view apart from its widgets.
#[derive(Debug)]
pub struct PanelState {
    /// The data shown now.
    pub current_buffer: Vec<RichData>,
    /// The main data, kept aside while a positioning board stream runs.
    pub data_buffer: Option<Vec<RichData>>,
    /// The positioning board, while CSI cursor control places the output.
    pub rewrite_board: Option<ReWriteBoard>,
    /// The virtual cursor, an empty piece where the next data start.
    pub cursor_piece: LinePiece,
    pub show_cursor: bool,
    /// True while the output flows in order from the local side; false
    /// while the remote side places the cursor.
    pub remote_flow_control: bool,
    /// Most segments the buffer keeps (segments, not lines).
    pub buffer_max_lines: usize,
    /// Spaces a tab stands for.
    pub tab_width: u8,
    pub piece_spacing: i32,
    pub text_font: Font,
    pub text_size: i32,
    pub text_color: Color,
    pub background_color: Color,
    pub basic_char: char,
    /// Rows of the view in the default font.
    pub max_rows: usize,
    /// Columns of the view in the default font.
    pub max_cols: usize,
}

impl PanelState {
    /// The state of a new view: empty buffers, the cursor at the top left,
    /// room for 100 segments, white text on black.
    pub fn new() -> (s: PanelState)
        ensures
            s.current_buffer@.len() == 0,
            s.data_buffer is Some && s.data_buffer->0@.len() == 0,
            s.rewrite_board is None,
            s.cursor_piece.x == PADDING_LEFT && s.cursor_piece.y == PADDING_TOP,
            s.cursor_piece.h == spec_line_height(DEFAULT_FONT_SIZE as int),
            !s.show_cursor,
            s.remote_flow_control,
            s.buffer_max_lines == 100,
            s.tab_width == DEFAULT_TAB_WIDTH,
            s.piece_spacing == 0,
            s.text_size == DEFAULT_FONT_SIZE,
            s.text_color == (Color { r: 255, g: 255, b: 255 }),
            s.background_color == (Color { r: 0, g: 0, b: 0 }),
            s.basic_char == BASIC_UNIT_CHAR,
            s.max_rows == 1 && s.max_cols == 1,
    {
        PanelState {
            current_buffer: Vec::new(),
            data_buffer: Some(Vec::new()),
            rewrite_board: None,
            cursor_piece: LinePiece::init_piece(DEFAULT_FONT_SIZE),
            show_cursor: false,
            remote_flow_control: true,
            buffer_max_lines: 100,
            tab_width: DEFAULT_TAB_WIDTH,
            piece_spacing: 0,
            text_font: Font::helvetica(),
            text_size: DEFAULT_FONT_SIZE,
            text_color: white(),
            background_color: Color::from_rgb(0, 0, 0),
            basic_char: BASIC_UNIT_CHAR,
            max_rows: 1,
            max_cols: 1,
        }
    }

    /// Keeps at most `max_lines` segments from now on; the oldest ones go
    /// first.
    pub fn set_cache_size(&mut self, max_lines: usize)
        ensures
            final(self).buffer_max_lines == max_lines,
            views(final(self).current_buffer@) == cached(views(old(self).current_buffer@), max_lines as nat),
            final(self).data_buffer == old(self).data_buffer,
            final(self).rewrite_board == old(self).rewrite_board,
            final(self).cursor_piece == old(self).cursor_piece,
    {
        self.buffer_max_lines = max_lines;
        let len = self.current_buffer.len();
        if len > max_lines {
            let tail = self.current_buffer.split_off(len - max_lines);
            self.current_buffer = tail;
            assert(views(self.current_buffer@) =~= views(old(self).current_buffer@).skip(len - max_lines));
        }
    }

    /// Removes the last segment; says whether there was one.
    pub fn delete_last_data(&mut self) -> (removed: bool)
        ensures
            removed == (old(self).current_buffer@.len() > 0),
            views(final(self).current_buffer@) == without_last(views(old(self).current_buffer@)),
            final(self).data_buffer == old(self).data_buffer,
            final(self).rewrite_board == old(self).rewrite_board,
    {
        let removed = self.current_buffer.pop();
        assert(views(self.current_buffer@) =~= if removed is Some {
            views(old(self).current_buffer@).drop_last()
        } else {
            views(old(self).current_buffer@)
        });
        removed.is_some()
    }

    /// The cursor position report of the positioning board, while there is
    /// one.
    pub fn get_cursor_pos_dsr(&self) -> (s: Option<String>)
        ensures
            match self.rewrite_board {
                Some(b) => s is Some && s->0@ == crate::cursor::dsr_text(b.cursor_pos.n as nat, b.cursor_pos.m as nat),
                None => s is None,
            },
    {
        match &self.rewrite_board {
            Some(board) => Some(board.cursor_pos.dsr()),
            None => None,
        }
    }

    /// Shows or hides the cursor.
    pub fn toggle_cursor(&mut self, show: bool)
        ensures
            *final(self) == (PanelState { show_cursor: show, ..*old(self) }),
    {
        self.show_cursor = show;
    }

    /// Sets how many spaces a tab stands for.
    pub fn set_tab_width(&mut self, tab_width: u8)
        ensures
            *final(self) == (PanelState { tab_width, ..*old(self) }),
    {
        self.tab_width = tab_width;
    }

    /// Switches who places the cursor. Code 1 returns to the local, ordered
    /// flow: the main data come back into view and the board goes away.
    /// Any other code hands the cursor to the remote side: the data in view
    /// join the main data and the cursor shows.
    pub fn switch_mode(&mut self, code: u8)
        ensures
            final(self).remote_flow_control == (code == 1),
            (opt_views(final(self).data_buffer), views(final(self).current_buffer@)) == if code == 1 {
                to_local(opt_views(old(self).data_buffer), views(old(self).current_buffer@))
            } else {
                to_remote(opt_views(old(self).data_buffer), views(old(self).current_buffer@))
            },
            code == 1 ==> final(self).rewrite_board is None && final(self).show_cursor == old(self).show_cursor,
            code != 1 ==> final(self).rewrite_board == old(self).rewrite_board && final(self).show_cursor,
            final(self).cursor_piece == old(self).cursor_piece,
            final(self).buffer_max_lines == old(self).buffer_max_lines,
            final(self).max_rows == old(self).max_rows,
            final(self).max_cols == old(self).max_cols,
    {
        let local_mode = code == 1;
        self.remote_flow_control = local_mode;
        if local_mode {
            self.current_buffer.clear();
            match &mut self.data_buffer {
                Some(main_buffer) => {
                    self.current_buffer.append(main_buffer);
                    assert(views(self.current_buffer@) =~= views(old(self).data_buffer->0@));
                },
                None => {
                    assert(views(self.current_buffer@) =~= Seq::<RichDataView>::empty());
                },
            }
            self.rewrite_board = None;
        } else {
            match &mut self.data_buffer {
                Some(main_buffer) => {
                    main_buffer.append(&mut self.current_buffer);
                    assert(views(main_buffer@) =~= views(old(self).data_buffer->0@) + views(old(self).current_buffer@));
                },
                None => {},
            }
            self.show_cursor = true;
        }
    }

    /// How far the data reach below a view `panel_height` high.
    pub fn calc_scroll_height(&self, panel_height: i32) -> (h: i32)
        requires
            self.current_buffer@.len() > 0 ==> i32::MIN <= self.current_buffer@.last().v_bounds.1 - panel_height + PADDING_BOTTOM <= i32::MAX,
            self.current_buffer@.len() > 0 ==> self.current_buffer@.last().v_bounds.1 + PADDING_BOTTOM <= i32::MAX,
        ensures
            h == scroll_height_of(views(self.current_buffer@), panel_height as int),
    {
        let n = self.current_buffer.len();
        if n > 0 {
            let bottom = self.current_buffer[n - 1].v_bounds.1;
            if bottom + PADDING_BOTTOM > panel_height { bottom - panel_height + PADDING_BOTTOM } else { 0 }
        } else {
            0
        }
    }

    /// How far the view is scrolled down to show the last segment in a
    /// window `window_height` high.
    pub fn get_offset_y(&self, window_height: i32) -> (y: i32)
        requires
            (if self.current_buffer@.len() > 0 { self.current_buffer@.last().v_bounds.1 as int } else { 0 }) - window_height + PADDING_BOTTOM <= i32::MAX,
        ensures
            y == offset_y_of(views(self.current_buffer@), window_height as int),
    {
        let n = self.current_buffer.len();
        let bottom = if n > 0 { self.current_buffer[n - 1].v_bounds.1 } else { 0 };
        if bottom > window_height { bottom - window_height + PADDING_BOTTOM } else { 0 }
    }

    /// Applies options to the segment in view that carries their
    /// identifier, found by halving the buffer; says whether it was found.
    pub fn update_data(&mut self, options: RichDataOptions) -> (found: bool)
        requires
            forall|i: int| 0 <= i < old(self).current_buffer@.len() && old(self).current_buffer@[i].id == options.id
                ==> options_applicable(options, #[trigger] old(self).current_buffer@[i]@),
        ensures
            final(self).current_buffer@.len() == old(self).current_buffer@.len(),
            found ==> exists|i: int| 0 <= i < old(self).current_buffer@.len() && old(self).current_buffer@[i].id == options.id
                && views(final(self).current_buffer@) == views(old(self).current_buffer@).update(i, options_applied(options, old(self).current_buffer@[i]@)),
            !found ==> final(self).current_buffer == old(self).current_buffer,
            !found && ids_sorted(views(old(self).current_buffer@)) ==> forall|k: int| 0 <= k < old(self).current_buffer@.len() ==> old(self).current_buffer@[k].id != options.id,
            final(self).data_buffer == old(self).data_buffer,
            final(self).rewrite_board == old(self).rewrite_board,
    {
        match find_by_id(&self.current_buffer, options.id) {
            Some(idx) => {
                let ghost b0 = views(self.current_buffer@);
                update_data_properties(options, &mut self.current_buffer[idx]);
                assert(views(self.current_buffer@) =~= b0.update(idx as int, options_applied(options, old(self).current_buffer@[idx as int]@)));
                true
            },
            None => false,
        }
    }

    /// Disables the segment in view that carries identifier `id`, found by
    /// halving the buffer; says whether it was found.
    pub fn disable_data(&mut self, id: i64) -> (found: bool)
        requires
            forall|i: int| 0 <= i < old(self).current_buffer@.len() && old(self).current_buffer@[i].id == id ==> {
                let rd = #[trigger] old(self).current_buffer@[i];
                (rd.data_type == DataType::Image && rd.image_inactive is None && rd.image is Some)
                    ==> gray_fits(rd@.image->0, rd.image_width as int, rd.image_height as int, rd.image_color_depth)
            },
        ensures
            final(self).current_buffer@.len() == old(self).current_buffer@.len(),
            found ==> exists|i: int| 0 <= i < old(self).current_buffer@.len() && old(self).current_buffer@[i].id == id
                && views(final(self).current_buffer@) == views(old(self).current_buffer@).update(i, spec_disabled(old(self).current_buffer@[i]@)),
            !found ==> final(self).current_buffer == old(self).current_buffer,
            !found && ids_sorted(views(old(self).current_buffer@)) ==> forall|k: int| 0 <= k < old(self).current_buffer@.len() ==> old(self).current_buffer@[k].id != id,
            final(self).data_buffer == old(self).data_buffer,
            final(self).rewrite_board == old(self).rewrite_board,
    {
        match find_by_id(&self.current_buffer, id) {
            Some(idx) => {
                let ghost b0 = views(self.current_buffer@);
                disable_data(&mut self.current_buffer[idx]);
                assert(views(self.current_buffer@) =~= b0.update(idx as int, spec_disabled(old(self).current_buffer@[idx as int]@)));
                true
            },
            None => false,
        }
    }

    /// Expires the segments in view whose action belongs to the category
    /// `target`.
    pub fn expire_main_data(&mut self, target: &String)
        ensures
            final(self).current_buffer@.len() == old(self).current_buffer@.len(),
            forall|i: int| 0 <= i < old(self).current_buffer@.len() ==> #[trigger] final(self).current_buffer@[i]@
                == if in_category(old(self).current_buffer@[i].action, target@) {
                    spec_expired(old(self).current_buffer@[i]@)
                } else {
                    old(self).current_buffer@[i]@
                },
            final(self).data_buffer == old(self).data_buffer,
            final(self).rewrite_board == old(self).rewrite_board,
    {
        expire_data(&mut self.current_buffer, target);
    }
}

/// A rectangle as (left, top, width, height) in whole numbers.
pub type Area = (int, int, int, int);

/// Whether two areas share interior points.
pub open spec fn meets(a: Area, b: Area) -> bool {
    a.0 < b.0 + b.2 && a.0 + a.2 > b.0 && a.1 < b.1 + b.3 && a.1 + a.3 > b.1
}

/// The area a piece covers.
pub open spec fn piece_area(p: LinePieceView) -> Area {
    crate::geometry::normalized(p.x as int, p.y as int, p.w as int, p.h as int)
}

/// Whether an erase of the area `ex`, and of the cursor line `cur` where
/// there is one, takes the piece.
pub open spec fn piece_hit(p: LinePieceView, ex: Area, cur: Option<Area>) -> bool {
    meets(ex, piece_area(p)) || (cur is Some && meets(piece_area(p), cur->0))
}

/// The pieces among the first `i` that the erase leaves.
pub open spec fn kept_pieces(ps: Seq<LinePieceView>, ex: Area, cur: Option<Area>, i: int) -> Seq<LinePieceView>
    decreases i,
{
    if i <= 0 {
        Seq::empty()
    } else if piece_hit(ps[i - 1], ex, cur) {
        kept_pieces(ps, ex, cur, i - 1)
    } else {
        kept_pieces(ps, ex, cur, i - 1).push(ps[i - 1])
    }
}

/// The characters of the pieces among the first `i` that the erase takes.
pub open spec fn taken_len(ps: Seq<LinePieceView>, ex: Area, cur: Option<Area>, i: int) -> nat
    decreases i,
{
    if i <= 0 {
        0
    } else if piece_hit(ps[i - 1], ex, cur) {
        taken_len(ps, ex, cur, i - 1) + ps[i - 1].line.len()
    } else {
        taken_len(ps, ex, cur, i - 1)
    }
}

/// Whether the erase takes one of the first `i` pieces.
pub open spec fn any_hit(ps: Seq<LinePieceView>, ex: Area, cur: Option<Area>, i: int) -> bool {
    exists|j: int| 0 <= j < i && piece_hit(ps[j], ex, cur)
}

/// The characters of the pieces before the first one the erase takes,
/// among the first `i`.
pub open spec fn taken_from(ps: Seq<LinePieceView>, ex: Area, cur: Option<Area>, i: int) -> nat
    decreases i,
{
    if i <= 0 {
        0
    } else if any_hit(ps, ex, cur, i) {
        taken_from(ps, ex, cur, i - 1)
    } else {
        taken_from(ps, ex, cur, i - 1) + ps[i - 1].line.len()
    }
}

/// The characters of the first `i` pieces.
pub open spec fn pieces_len(ps: Seq<LinePieceView>, i: int) -> nat
    decreases i,
{
    if i <= 0 { 0 } else { pieces_len(ps, i - 1) + ps[i - 1].line.len() }
}

/// A segment after the erase of `ex` and `cur`: the pieces it takes leave,
/// and as many characters as they held leave the text, from where the
/// first taken piece started.
pub open spec fn erased_data(r: RichDataView, ex: Area, cur: Option<Area>) -> RichDataView {
    let ps = r.line_pieces;
    let n = ps.len() as int;
    if !any_hit(ps, ex, cur, n) {
        r
    } else {
        let from = taken_from(ps, ex, cur, n) as int;
        let len = taken_len(ps, ex, cur, n) as int;
        RichDataView {
            line_pieces: kept_pieces(ps, ex, cur, n),
            text: r.text.take(from) + r.text.skip(from + len),
            ..r
        }
    }
}

/// The taken characters stay within the pieces.
proof fn lemma_taken_within(ps: Seq<LinePieceView>, ex: Area, cur: Option<Area>, i: int)
    requires
        0 <= i <= ps.len(),
    ensures
        taken_from(ps, ex, cur, i) + taken_len(ps, ex, cur, i) <= pieces_len(ps, i),
    decreases i,
{
    if i > 0 {
        lemma_taken_within(ps, ex, cur, i - 1);
        if any_hit(ps, ex, cur, i) && !any_hit(ps, ex, cur, i - 1) && !piece_hit(ps[i - 1], ex, cur) {
            let j = choose|j: int| 0 <= j < i && piece_hit(ps[j], ex, cur);
            assert(j == i - 1);
        }
        if !any_hit(ps, ex, cur, i) {
            assert(!piece_hit(ps[i - 1], ex, cur));
            assert(!any_hit(ps, ex, cur, i - 1)) by {
                if any_hit(ps, ex, cur, i - 1) {
                    let j = choose|j: int| 0 <= j < i - 1 && piece_hit(ps[j], ex, cur);
                    assert(0 <= j < i && piece_hit(ps[j], ex, cur));
                }
            }
            lemma_no_hit_no_taken(ps, ex, cur, i - 1);
        }
    }
}

/// Without a taken piece nothing is taken.
proof fn lemma_no_hit_no_taken(ps: Seq<LinePieceView>, ex: Area, cur: Option<Area>, i: int)
    requires
        0 <= i <= ps.len(),
        !any_hit(ps, ex, cur, i),
    ensures
        taken_len(ps, ex, cur, i) == 0,
        taken_from(ps, ex, cur, i) == pieces_len(ps, i),
    decreases i,
{
    if i > 0 {
        assert(!piece_hit(ps[i - 1], ex, cur));
        assert(!any_hit(ps, ex, cur, i - 1)) by {
            if any_hit(ps, ex, cur, i - 1) {
                let j = choose|j: int| 0 <= j < i - 1 && piece_hit(ps[j], ex, cur);
                assert(0 <= j < i && piece_hit(ps[j], ex, cur));
            }
        }
        lemma_no_hit_no_taken(ps, ex, cur, i - 1);
    }
}

/// Whether the pieces of every segment hold no more characters than its
/// text, as when they were cut from it.
pub open spec fn pieces_within_text(bufs: Seq<RichDataView>) -> bool {
    forall|k: int| 0 <= k < bufs.len() ==> pieces_len(#[trigger] bufs[k].line_pieces, bufs[k].line_pieces.len() as int) <= bufs[k].text.len()
}

/// The area of a piece, computed without overflow.
fn piece_area_exec(p: &LinePiece) -> (a: (i64, i64, i64, i64))
    ensures
        (a.0 as int, a.1 as int, a.2 as int, a.3 as int) == piece_area(p@),
{
    let (x, y, w, h) = (p.x as i64, p.y as i64, p.w as i64, p.h as i64);
    (
        if w < 0 { x + w } else { x },
        if h < 0 { y + h } else { y },
        if w < 0 { -w } else { w },
        if h < 0 { -h } else { h },
    )
}

/// Whether two areas share interior points.
fn meets_exec(a: (i64, i64, i64, i64), b: (i64, i64, i64, i64)) -> (r: bool)
    requires
        -0x1_0000_0000_0000 <= a.0 <= 0x1_0000_0000_0000,
        -0x1_0000_0000_0000 <= a.1 <= 0x1_0000_0000_0000,
        -0x1_0000_0000_0000 <= a.2 <= 0x1_0000_0000_0000,
        -0x1_0000_0000_0000 <= a.3 <= 0x1_0000_0000_0000,
        -0x1_0000_0000_0000 <= b.0 <= 0x1_0000_0000_0000,
        -0x1_0000_0000_0000 <= b.1 <= 0x1_0000_0000_0000,
        -0x1_0000_0000_0000 <= b.2 <= 0x1_0000_0000_0000,
        -0x1_0000_0000_0000 <= b.3 <= 0x1_0000_0000_0000,
    ensures
        r == meets((a.0 as int, a.1 as int, a.2 as int, a.3 as int), (b.0 as int, b.1 as int, b.2 as int, b.3 as int)),
{
    a.0 < b.0 + b.2 && a.0 + a.2 > b.0 && a.1 < b.1 + b.3 && a.1 + a.3 > b.1
}

/// Whether an area is small enough to compute with.
pub open spec fn small_area(a: (i64, i64, i64, i64)) -> bool {
    &&& -0x1_0000_0000_0000 <= a.0 <= 0x1_0000_0000_0000
    &&& -0x1_0000_0000_0000 <= a.1 <= 0x1_0000_0000_0000
    &&& -0x1_0000_0000_0000 <= a.2 <= 0x1_0000_0000_0000
    &&& -0x1_0000_0000_0000 <= a.3 <= 0x1_0000_0000_0000
}

/// The area in whole numbers.
pub open spec fn area_of(a: (i64, i64, i64, i64)) -> Area {
    (a.0 as int, a.1 as int, a.2 as int, a.3 as int)
}

/// The cursor line in whole numbers, where there is one.
pub open spec fn opt_area_of(a: Option<(i64, i64, i64, i64)>) -> Option<Area> {
    match a {
        Some(b) => Some(area_of(b)),
        None => None,
    }
}

/// Removes from a segment the pieces an erase takes, and their characters
/// from its text.
fn erase_pieces(rd: &mut RichData, ex: (i64, i64, i64, i64), cur: Option<(i64, i64, i64, i64)>)
    requires
        small_area(ex),
        cur is Some ==> small_area(cur->0),
        pieces_len(old(rd)@.line_pieces, old(rd)@.line_pieces.len() as int) <= old(rd)@.text.len(),
    ensures
        final(rd)@ == erased_data(old(rd)@, area_of(ex), opt_area_of(cur)),
{
    let ghost ps = rd@.line_pieces;
    let ghost exa = area_of(ex);
    let ghost cura = opt_area_of(cur);
    let n = rd.line_pieces.len();
    let _tl0 = rd.text.len();
    let mut kept: Vec<LinePiece> = Vec::new();
    let mut taken: usize = 0;
    let mut from: usize = 0;
    let mut hit = false;
    let mut i: usize = 0;
    while i < n
        invariant
            n == rd.line_pieces@.len(),
            ps == rd@.line_pieces,
            ps.len() == n,
            i <= n,
            kept@.map_values(|p: LinePiece| p@) == kept_pieces(ps, exa, cura, i as int),
            taken == taken_len(ps, exa, cura, i as int),
            from == taken_from(ps, exa, cura, i as int),
            hit == any_hit(ps, exa, cura, i as int),
            pieces_len(ps, n as int) <= rd@.text.len(),
            rd@.text.len() <= usize::MAX,
            small_area(ex),
            cur is Some ==> small_area(cur->0),
            exa == area_of(ex),
            cura == opt_area_of(cur),
        decreases n - i,
    {
        proof {
            lemma_taken_within(ps, exa, cura, i + 1);
            lemma_pieces_len_monotone(ps, i + 1, n as int);
        }
        let pa = piece_area_exec(&rd.line_pieces[i]);
        assert(rd.line_pieces@[i as int]@ == ps[i as int]);
        let in_ex = meets_exec(ex, pa);
        let in_cur = match cur {
            Some(c) => meets_exec(pa, c),
            None => false,
        };
        let len = rd.line_pieces[i].line.len();
        if in_ex || in_cur {
            assert(piece_hit(ps[i as int], exa, cura));
            taken = taken + len;
            hit = true;
            assert(any_hit(ps, exa, cura, i + 1)) by {
                assert(0 <= i < i + 1 && piece_hit(ps[i as int], exa, cura));
            }
        } else {
            assert(!piece_hit(ps[i as int], exa, cura));
            kept.push(rd.line_pieces[i].duplicate());
            proof {
                if hit {
                    let j = choose|j: int| 0 <= j < i && piece_hit(ps[j], exa, cura);
                    assert(0 <= j < i + 1 && piece_hit(ps[j], exa, cura));
                } else {
                    assert(!any_hit(ps, exa, cura, i + 1)) by {
                        if any_hit(ps, exa, cura, i + 1) {
                            let j = choose|j: int| 0 <= j < i + 1 && piece_hit(ps[j], exa, cura);
                            if j < i {
                                assert(any_hit(ps, exa, cura, i as int));
                            }
                        }
                    }
                }
            }
            if !hit {
                from = from + len;
            }
            assert(kept@.map_values(|p: LinePiece| p@) =~= kept_pieces(ps, exa, cura, i + 1));
        }
        i = i + 1;
    }
    if hit {
        proof {
            lemma_taken_within(ps, exa, cura, n as int);
            assert(ps.len() == n);
        }
        let ghost t0 = rd.text@;
        let mut text: Vec<char> = Vec::new();
        let mut k: usize = 0;
        while k < from
            invariant
                from + taken <= t0.len(),
                t0 == rd.text@,
                k <= from,
                text@ == t0.take(k as int),
            decreases from - k,
        {
            text.push(rd.text[k]);
            k = k + 1;
            assert(text@ =~= t0.take(k as int));
        }
        let mut j = from + taken;
        let tl = rd.text.len();
        while j < tl
            invariant
                from + taken <= j <= tl,
                tl == t0.len(),
                t0 == rd.text@,
                text@ == t0.take(from as int) + t0.subrange(from + taken, j as int),
            decreases tl - j,
        {
            text.push(rd.text[j]);
            j = j + 1;
            assert(text@ =~= t0.take(from as int) + t0.subrange(from + taken, j as int));
        }
        assert(text@ =~= t0.take(from as int) + t0.skip(from + taken));
        rd.text = text;
        rd.line_pieces = kept;
    }
}

/// The characters of more pieces are at least as many.
proof fn lemma_pieces_len_monotone(ps: Seq<LinePieceView>, i: int, j: int)
    requires
        0 <= i <= j <= ps.len(),
    ensures
        pieces_len(ps, i) <= pieces_len(ps, j),
    decreases j - i,
{
    if i < j {
        lemma_pieces_len_monotone(ps, i, j - 1);
    }
}

/// The area an erase in the display takes without a board, with the cursor
/// piece `c`, the view scrolled by `offset_y` and a panel `panel_w` ×
/// `panel_h`, and the area of the cursor line where the mode has one.
/// Mode 1 reaches from the cursor to the top left, modes 2 and 3 take the
/// whole panel, any other mode reaches from the cursor to the bottom
/// right.
pub open spec fn erase_areas(mode: u8, c: LinePieceView, offset_y: int, panel_w: int, panel_h: int) -> (Area, Option<Area>) {
    let e = piece_area(c);
    let inner_w = panel_w - PADDING_LEFT - PADDING_RIGHT;
    if mode == 1 {
        let old_top = e.1 - offset_y;
        let add = PADDING_LEFT - e.0;
        (
            (PADDING_LEFT as int, PADDING_TOP - offset_y, inner_w, panel_h - PADDING_TOP - PADDING_BOTTOM - old_top - 1),
            Some((e.0 - add, e.1, e.2 + add, e.3)),
        )
    } else if mode == 2 || mode == 3 {
        ((PADDING_LEFT as int, PADDING_TOP - offset_y, inner_w, panel_h - PADDING_TOP - PADDING_BOTTOM), None)
    } else {
        let top = c.y + c.h + 1;
        (
            (PADDING_LEFT as int, top, inner_w, panel_h - (top - offset_y) - PADDING_BOTTOM),
            Some((e.0, e.1, inner_w - e.0, e.3)),
        )
    }
}

/// Whether the erase passes over a segment with vertical bounds `v`
/// without touching it.
pub open spec fn geometry_skips(mode: u8, v: (i32, i32, i32, i32), ex: Area, cur: Option<Area>) -> bool {
    if mode == 1 {
        match cur { Some(c) => v.0 > c.1 + c.3, None => false }
    } else if mode == 2 || mode == 3 {
        v.0 > ex.1 + ex.3
    } else {
        match cur { Some(_) => false, None => v.0 > ex.1 + ex.3 }
    }
}

/// Whether the erase stops at a segment with vertical bounds `v`, leaving
/// it and all segments before it.
pub open spec fn geometry_stops(mode: u8, v: (i32, i32, i32, i32), ex: Area, cur: Option<Area>) -> bool {
    if mode == 1 {
        match cur { Some(_) => false, None => v.1 < ex.1 }
    } else if mode == 2 || mode == 3 {
        !(v.0 > ex.1 + ex.3) && v.1 < ex.1
    } else {
        match cur { Some(c) => v.1 < c.1, None => false }
    }
}

/// Whether the erase, going from the last segment backwards, reaches
/// segment `k` and works on it.
pub open spec fn geometry_reaches(bufs: Seq<RichDataView>, mode: u8, ex: Area, cur: Option<Area>, k: int) -> bool {
    &&& !geometry_skips(mode, bufs[k].v_bounds, ex, cur)
    &&& !geometry_stops(mode, bufs[k].v_bounds, ex, cur)
    &&& forall|j: int| k < j < bufs.len() ==> !geometry_stops(mode, #[trigger] bufs[j].v_bounds, ex, cur)
}

/// The buffer after an erase in the display without a board.
pub open spec fn display_erased(bufs: Seq<RichDataView>, mode: u8, ex: Area, cur: Option<Area>) -> Seq<RichDataView> {
    Seq::new(bufs.len(), |k: int| if geometry_reaches(bufs, mode, ex, cur, k) { erased_data(bufs[k], ex, cur) } else { bufs[k] })
}

impl PanelState {
    /// Erases in the line of the cursor, on the board while there is one;
    /// without a board nothing changes.
    pub fn erase_in_line(&mut self, erase_mode: u8)
        requires
            old(self).rewrite_board is Some ==> old(self).rewrite_board->0.wf(),
        ensures
            match old(self).rewrite_board {
                Some(b) => {
                    &&& final(self).rewrite_board is Some
                    &&& final(self).rewrite_board->0.wf()
                    &&& final(self).rewrite_board->0.line_data_map@ == crate::board::rows_erased(b.line_data_map@,
                        |k: usize| crate::board::line_erase_op(erase_mode, b.cursor_pos.n, b.cursor_pos.m, k),
                        b.cursor_pos.m as int, b.max_cols as nat)
                    &&& final(self).rewrite_board->0.cursor_pos == b.cursor_pos
                },
                None => final(self).rewrite_board is None,
            },
            final(self).current_buffer == old(self).current_buffer,
            final(self).cursor_piece == old(self).cursor_piece,
    {
        match &mut self.rewrite_board {
            Some(board) => board.erase_in_line(erase_mode),
            None => {},
        }
    }

    /// Erases in the display: on the board while there is one; without a
    /// board, the pieces the erase area takes (see `erase_areas`) leave the
    /// segments in view, which are visited from the last one backwards
    /// until one lies wholly above the area.
    pub fn erase_in_display(&mut self, erase_mode: u8, panel_w: i32, panel_h: i32)
        requires
            old(self).rewrite_board is Some ==> old(self).rewrite_board->0.wf(),
            old(self).rewrite_board is None ==> pieces_within_text(views(old(self).current_buffer@)),
            old(self).rewrite_board is None ==> (if old(self).current_buffer@.len() > 0 { old(self).current_buffer@.last().v_bounds.1 as int } else { 0 }) - panel_h + PADDING_BOTTOM <= i32::MAX,
        ensures
            match old(self).rewrite_board {
                Some(b) => {
                    &&& final(self).rewrite_board is Some
                    &&& final(self).rewrite_board->0.wf()
                    &&& final(self).rewrite_board->0.line_data_map@ == crate::board::rows_erased(b.line_data_map@,
                        |k: usize| crate::board::display_erase_op(erase_mode, b.cursor_pos.n, b.max_rows, k),
                        b.cursor_pos.m as int, b.max_cols as nat)
                    &&& final(self).rewrite_board->0.cursor_pos == b.cursor_pos
                    &&& final(self).current_buffer == old(self).current_buffer
                },
                None => {
                    let areas = erase_areas(erase_mode, old(self).cursor_piece@,
                        offset_y_of(views(old(self).current_buffer@), panel_h as int), panel_w as int, panel_h as int);
                    &&& final(self).rewrite_board is None
                    &&& views(final(self).current_buffer@) == display_erased(views(old(self).current_buffer@), erase_mode, areas.0, areas.1)
                },
            },
            final(self).cursor_piece == old(self).cursor_piece,
            final(self).data_buffer == old(self).data_buffer,
    {
        if self.rewrite_board.is_some() {
            match &mut self.rewrite_board {
                Some(board) => board.erase_in_display(erase_mode),
                None => {},
            }
            return;
        }
        let offset_y = self.get_offset_y(panel_h) as i64;
        let e = piece_area_exec(&self.cursor_piece);
        let inner_w = panel_w as i64 - PADDING_LEFT as i64 - PADDING_RIGHT as i64;
        let (ex, cur) = if erase_mode == 1 {
            let old_top = e.1 - offset_y;
            let add = PADDING_LEFT as i64 - e.0;
            (
                (PADDING_LEFT as i64, PADDING_TOP as i64 - offset_y, inner_w, panel_h as i64 - PADDING_TOP as i64 - PADDING_BOTTOM as i64 - old_top - 1),
                Some((e.0 - add, e.1, e.2 + add, e.3)),
            )
        } else if erase_mode == 2 || erase_mode == 3 {
            ((PADDING_LEFT as i64, PADDING_TOP as i64 - offset_y, inner_w, panel_h as i64 - PADDING_TOP as i64 - PADDING_BOTTOM as i64), None)
        } else {
            let top = self.cursor_piece.y as i64 + self.cursor_piece.h as i64 + 1;
            (
                (PADDING_LEFT as i64, top, inner_w, panel_h as i64 - (top - offset_y) - PADDING_BOTTOM as i64),
                Some((e.0, e.1, inner_w - e.0, e.3)),
            )
        };
        let ghost exa = area_of(ex);
        let ghost cura = opt_area_of(cur);
        assert((exa, cura) == erase_areas(erase_mode, old(self).cursor_piece@,
            offset_y_of(views(old(self).current_buffer@), panel_h as int), panel_w as int, panel_h as int));
        let ghost b0 = views(self.current_buffer@);
        let n = self.current_buffer.len();
        let mut i = n;
        let mut stopped = false;
        while i > 0 && !stopped
            invariant
                n == self.current_buffer@.len(),
                b0.len() == n,
                i <= n,
                pieces_within_text(b0),
                small_area(ex),
                cur is Some ==> small_area(cur->0),
                exa == area_of(ex),
                cura == opt_area_of(cur),
                forall|j: int| 0 <= j < i ==> #[trigger] views(self.current_buffer@)[j] == b0[j],
                forall|j: int| i <= j < n ==> #[trigger] views(self.current_buffer@)[j]
                    == if geometry_reaches(b0, erase_mode, exa, cura, j) { erased_data(b0[j], exa, cura) } else { b0[j] },
                !stopped ==> forall|j: int| i <= j < n ==> !geometry_stops(erase_mode, #[trigger] b0[j].v_bounds, exa, cura),
                stopped ==> i < n && geometry_stops(erase_mode, b0[i as int].v_bounds, exa, cura),
                stopped ==> forall|j: int| i < j < n ==> !geometry_stops(erase_mode, #[trigger] b0[j].v_bounds, exa, cura),
                self.cursor_piece == old(self).cursor_piece,
                self.data_buffer == old(self).data_buffer,
                self.rewrite_board is None,
            decreases 2 * i + (if stopped { 0int } else { 1int }),
        {
            i = i - 1;
            let v = self.current_buffer[i].v_bounds;
            assert(views(self.current_buffer@)[i as int] == b0[i as int]);
            assert(views(self.current_buffer@)[i as int] == self.current_buffer@[i as int]@);
            assert(v == b0[i as int].v_bounds);
            let (v0, v1) = (v.0 as i64, v.1 as i64);
            let skip = if erase_mode == 1 {
                match cur { Some(c) => v0 > c.1 + c.3, None => false }
            } else if erase_mode == 2 || erase_mode == 3 {
                v0 > ex.1 + ex.3
            } else {
                match cur { Some(_) => false, None => v0 > ex.1 + ex.3 }
            };
            let stop = if erase_mode == 1 {
                match cur { Some(_) => false, None => v1 < ex.1 }
            } else if erase_mode == 2 || erase_mode == 3 {
                !(v0 > ex.1 + ex.3) && v1 < ex.1
            } else {
                match cur { Some(c) => v1 < c.1, None => false }
            };
            assert(skip == geometry_skips(erase_mode, b0[i as int].v_bounds, exa, cura));
            assert(stop == geometry_stops(erase_mode, b0[i as int].v_bounds, exa, cura));
            if stop {
                stopped = true;
                proof {
                    assert forall|j: int| i <= j < n implies #[trigger] views(self.current_buffer@)[j]
                        == if geometry_reaches(b0, erase_mode, exa, cura, j) { erased_data(b0[j], exa, cura) } else { b0[j] } by {
                        if j == i {
                            assert(!geometry_reaches(b0, erase_mode, exa, cura, j));
                        }
                    }
                }
            } else {
                let ghost before = views(self.current_buffer@);
                if !skip {
                    assert(pieces_len(b0[i as int].line_pieces, b0[i as int].line_pieces.len() as int) <= b0[i as int].text.len());
                    erase_pieces(&mut self.current_buffer[i], ex, cur);
                }
                proof {
                    assert(geometry_reaches(b0, erase_mode, exa, cura, i as int) == !skip);
                    assert forall|j: int| 0 <= j < n && j != i implies #[trigger] views(self.current_buffer@)[j] == before[j] by {}
                }
            }
        }
        proof {
            assert forall|j: int| 0 <= j < i implies #[trigger] views(self.current_buffer@)[j]
                == (if geometry_reaches(b0, erase_mode, exa, cura, j) { erased_data(b0[j], exa, cura) } else { b0[j] }) by {
                if stopped {
                    assert(!geometry_reaches(b0, erase_mode, exa, cura, j)) by {
                        assert(j < i && i < n);
                        assert(geometry_stops(erase_mode, b0[i as int].v_bounds, exa, cura));
                    }
                }
            }
            assert(views(self.current_buffer@) =~= display_erased(b0, erase_mode, exa, cura));
        }
    }
}

/// Whether `b` is a new board of `rows` × `cols` starting at `top_y` with
/// rows `line_height` high, no space between them, no data, and the cursor
/// in its top left corner.
pub open spec fn is_fresh_board(b: ReWriteBoard, rows: usize, cols: usize, top_y: int, line_height: int) -> bool {
    &&& b.wf()
    &&& b.max_rows == rows
    &&& b.max_cols == cols
    &&& b.top_y == top_y
    &&& b.line_height == line_height
    &&& b.line_space == 0
    &&& b.bottom_y == board_bottom(top_y, rows as int, line_height, 0)
    &&& b.line_data_map@ == Seq::<(usize, Seq<RichDataView>)>::empty()
    &&& b.cursor_pos == CursorPos::spec_new(1, 1, rows, cols)
}

/// Whether a cursor move can make the board it needs: with no board, the
/// view has at least one row and the new board fits.
pub open spec fn board_makeable(s: PanelState, offset_y: int, line_height: int) -> bool {
    s.rewrite_board is None ==> {
        &&& s.max_rows >= 1
        &&& offset_y >= 0
        &&& line_height >= 0
        &&& board_bottom(offset_y, s.max_rows as int, line_height, 0) <= usize::MAX
    }
}

/// The board cursor a move starts from: that of the board, or the top left
/// corner of a new one.
pub open spec fn start_cursor(s: PanelState) -> CursorPos {
    match s.rewrite_board {
        Some(b) => b.cursor_pos,
        None => CursorPos::spec_new(1, 1, s.max_rows, s.max_cols),
    }
}

/// Whether `b` is the board after a cursor move on the view `s`: the old
/// board, or a new one at `offset_y` with rows `line_height` high, with
/// its cursor moved to `c`.
pub open spec fn board_after_move(s: PanelState, b: ReWriteBoard, offset_y: int, line_height: int, c: CursorPos) -> bool {
    &&& b.cursor_pos == c
    &&& match s.rewrite_board {
        Some(ob) => b == (ReWriteBoard { cursor_pos: c, ..ob }),
        None => is_fresh_board(ReWriteBoard { cursor_pos: CursorPos::spec_new(1, 1, s.max_rows, s.max_cols), ..b },
            s.max_rows, s.max_cols, offset_y, line_height),
    }
}

/// A count of at least one: 0 counts as 1.
pub open spec fn at_least_one(n: usize) -> usize {
    if n == 0 { 1 } else { n }
}

impl PanelState {
    /// Makes a board at `offset_y` with rows `line_height` high when there
    /// is none.
    fn ensure_board(&mut self, offset_y: i32, line_height: i32)
        requires
            board_makeable(*old(self), offset_y as int, line_height as int),
            old(self).rewrite_board is Some ==> old(self).rewrite_board->0.wf(),
        ensures
            final(self).rewrite_board is Some,
            final(self).rewrite_board->0.wf(),
            board_after_move(*old(self), final(self).rewrite_board->0, offset_y as int, line_height as int, start_cursor(*old(self))),
            *final(self) == (PanelState { rewrite_board: final(self).rewrite_board, ..*old(self) }),
    {
        if self.rewrite_board.is_none() {
            let b = ReWriteBoard::new(self.max_rows, self.max_cols, offset_y as usize, line_height as usize, 0);
            self.rewrite_board = Some(b);
        }
    }

    /// Moves the cursor up `n` rows (0 counts as 1): the cursor piece moves
    /// up as many of its heights, not above the top padding, and the board
    /// cursor follows; a board at `offset_y` with rows `line_height` high is
    /// made where there is none.
    pub fn cursor_up(&mut self, n: usize, offset_y: i32, line_height: i32)
        requires
            board_makeable(*old(self), offset_y as int, line_height as int),
            old(self).rewrite_board is Some ==> old(self).rewrite_board->0.wf(),
            at_least_one(n) <= i32::MAX,
            crate::geometry::fits_i32(old(self).cursor_piece.h * at_least_one(n)),
            crate::geometry::fits_i32(old(self).cursor_piece.y - old(self).cursor_piece.h * at_least_one(n)),
            at_least_one(n) <= start_cursor(*old(self)).n,
        ensures
            ({
                let n1 = at_least_one(n);
                let c = old(self).cursor_piece@;
                let y = if c.y - c.h * n1 < PADDING_TOP { PADDING_TOP as int } else { c.y - c.h * n1 };
                let sc = start_cursor(*old(self));
                &&& final(self).cursor_piece@ == (LinePieceView { y: y as i32, next_y: y as i32, ..c })
                &&& final(self).rewrite_board is Some
                &&& final(self).rewrite_board->0.wf()
                &&& board_after_move(*old(self), final(self).rewrite_board->0, offset_y as int, line_height as int,
                    CursorPos { n: if sc.n - n1 > 1 { (sc.n - n1) as usize } else { 1 }, ..sc })
            }),
            final(self).current_buffer == old(self).current_buffer,
            final(self).data_buffer == old(self).data_buffer,
    {
        let n = if n == 0 { 1 } else { n };
        let d = self.cursor_piece.h * (n as i32);
        let mut y = self.cursor_piece.y - d;
        if y < PADDING_TOP {
            y = PADDING_TOP;
        }
        self.cursor_piece.y = y;
        self.cursor_piece.next_y = y;
        self.ensure_board(offset_y, line_height);
        match &mut self.rewrite_board {
            Some(b) => b.cursor_pos.sub_n(n),
            None => {},
        }
    }

    /// Moves the cursor down `n` rows (0 counts as 1): the cursor piece
    /// moves down as many of its heights and the board cursor follows; a
    /// board is made where there is none.
    pub fn cursor_down(&mut self, n: usize, offset_y: i32, line_height: i32)
        requires
            board_makeable(*old(self), offset_y as int, line_height as int),
            old(self).rewrite_board is Some ==> old(self).rewrite_board->0.wf(),
            at_least_one(n) <= i32::MAX,
            crate::geometry::fits_i32(old(self).cursor_piece.h * at_least_one(n)),
            crate::geometry::fits_i32(old(self).cursor_piece.y + old(self).cursor_piece.h * at_least_one(n)),
            start_cursor(*old(self)).n + at_least_one(n) <= usize::MAX,
        ensures
            ({
                let n1 = at_least_one(n);
                let c = old(self).cursor_piece@;
                let y = c.y + c.h * n1;
                let sc = start_cursor(*old(self));
                &&& final(self).cursor_piece@ == (LinePieceView { y: y as i32, next_y: y as i32, ..c })
                &&& final(self).rewrite_board is Some
                &&& final(self).rewrite_board->0.wf()
                &&& board_after_move(*old(self), final(self).rewrite_board->0, offset_y as int, line_height as int,
                    CursorPos { n: (sc.n + n1) as usize, ..sc })
            }),
            final(self).current_buffer == old(self).current_buffer,
            final(self).data_buffer == old(self).data_buffer,
    {
        let n = if n == 0 { 1 } else { n };
        let y = self.cursor_piece.y + self.cursor_piece.h * (n as i32);
        self.cursor_piece.y = y;
        self.cursor_piece.next_y = y;
        self.ensure_board(offset_y, line_height);
        match &mut self.rewrite_board {
            Some(b) => b.cursor_pos.add_n(n),
            None => {},
        }
    }

    /// Moves the cursor left `m` columns of `char_width` (0 counts as 1),
    /// not left of the left padding, and the board cursor follows; a board
    /// is made where there is none.
    pub fn cursor_back(&mut self, m: usize, char_width: i32, offset_y: i32, line_height: i32)
        requires
            board_makeable(*old(self), offset_y as int, line_height as int),
            old(self).rewrite_board is Some ==> old(self).rewrite_board->0.wf(),
            at_least_one(m) <= i32::MAX,
            crate::geometry::fits_i32(char_width * at_least_one(m)),
            crate::geometry::fits_i32(old(self).cursor_piece.x - char_width * at_least_one(m)),
            at_least_one(m) <= start_cursor(*old(self)).m,
        ensures
            ({
                let m1 = at_least_one(m);
                let c = old(self).cursor_piece@;
                let x = if c.x - char_width * m1 < PADDING_LEFT { PADDING_LEFT as int } else { c.x - char_width * m1 };
                let sc = start_cursor(*old(self));
                &&& final(self).cursor_piece@ == (LinePieceView { x: x as i32, next_x: x as i32, ..c })
                &&& final(self).rewrite_board is Some
                &&& final(self).rewrite_board->0.wf()
                &&& board_after_move(*old(self), final(self).rewrite_board->0, offset_y as int, line_height as int,
                    CursorPos { m: if sc.m - m1 > 1 { (sc.m - m1) as usize } else { 1 }, ..sc })
            }),
            final(self).current_buffer == old(self).current_buffer,
            final(self).data_buffer == old(self).data_buffer,
    {
        let m = if m == 0 { 1 } else { m };
        let mut x = self.cursor_piece.x - char_width * (m as i32);
        if x < PADDING_LEFT {
            x = PADDING_LEFT;
        }
        self.cursor_piece.x = x;
        self.cursor_piece.next_x = x;
        self.ensure_board(offset_y, line_height);
        match &mut self.rewrite_board {
            Some(b) => b.cursor_pos.sub_m(m),
            None => {},
        }
    }

    /// Moves the cursor right `m` columns of `char_width` (0 counts as 1),
    /// not past the right padding of a panel `panel_w` wide, and the board
    /// cursor follows; a board is made where there is none.
    pub fn cursor_forward(&mut self, m: usize, char_width: i32, panel_w: i32, offset_y: i32, line_height: i32)
        requires
            board_makeable(*old(self), offset_y as int, line_height as int),
            old(self).rewrite_board is Some ==> old(self).rewrite_board->0.wf(),
            at_least_one(m) <= i32::MAX,
            crate::geometry::fits_i32(char_width * at_least_one(m)),
            crate::geometry::fits_i32(old(self).cursor_piece.x + char_width * at_least_one(m)),
            crate::geometry::fits_i32(panel_w - PADDING_RIGHT),
            start_cursor(*old(self)).m + at_least_one(m) <= usize::MAX,
        ensures
            ({
                let m1 = at_least_one(m);
                let c = old(self).cursor_piece@;
                let max_width = panel_w - PADDING_RIGHT;
                let x = if c.x + char_width * m1 > max_width { max_width } else { c.x + char_width * m1 };
                let sc = start_cursor(*old(self));
                &&& final(self).cursor_piece@ == (LinePieceView { x: x as i32, next_x: x as i32, ..c })
                &&& final(self).rewrite_board is Some
                &&& final(self).rewrite_board->0.wf()
                &&& board_after_move(*old(self), final(self).rewrite_board->0, offset_y as int, line_height as int,
                    CursorPos { m: (sc.m + m1) as usize, ..sc })
            }),
            final(self).current_buffer == old(self).current_buffer,
            final(self).data_buffer == old(self).data_buffer,
    {
        let m = if m == 0 { 1 } else { m };
        let mut x = self.cursor_piece.x + char_width * (m as i32);
        let max_width = panel_w - PADDING_RIGHT;
        if x > max_width {
            x = max_width;
        }
        self.cursor_piece.x = x;
        self.cursor_piece.next_x = x;
        self.ensure_board(offset_y, line_height);
        match &mut self.rewrite_board {
            Some(b) => b.cursor_pos.add_m(m),
            None => {},
        }
    }
}

/// `text` with every tab replaced by `width` spaces.
pub open spec fn expand_tabs(text: Seq<char>, width: nat) -> Seq<char>
    decreases text.len(),
{
    if text.len() == 0 {
        text
    } else {
        expand_tabs(text.drop_last(), width) + if text.last() == '\t' { crate::text::spaces(width) } else { seq![text.last()] }
    }
}

/// Replaces every tab of `text` by `width` spaces.
pub fn expand_tabs_exec(text: &Vec<char>, width: u8) -> (r: Vec<char>)
    ensures
        r@ == expand_tabs(text@, width as nat),
{
    let mut r: Vec<char> = Vec::new();
    let mut i: usize = 0;
    assert(text@.take(0) =~= Seq::<char>::empty());
    while i < text.len()
        invariant
            i <= text@.len(),
            r@ == expand_tabs(text@.take(i as int), width as nat),
        decreases text@.len() - i,
    {
        let c = text[i];
        let ghost before = r@;
        if c == '\t' {
            let mut k: u8 = 0;
            while k < width
                invariant
                    k <= width,
                    r@ == before + crate::text::spaces(k as nat),
                decreases width - k,
            {
                r.push(' ');
                k = k + 1;
                assert(r@ =~= before + crate::text::spaces(k as nat));
            }
        } else {
            r.push(c);
        }
        proof {
            let t = text@.take(i + 1);
            assert(t.drop_last() =~= text@.take(i as int));
            assert(t.last() == c);
        }
        i = i + 1;
    }
    assert(text@.take(text@.len() as int) =~= text@);
    r
}

/// `text` without its carriage returns.
pub fn strip_cr(text: &Vec<char>) -> (r: Vec<char>)
    ensures
        r@ == crate::board::without_cr(text@),
{
    let mut r: Vec<char> = Vec::new();
    let mut k: usize = 0;
    assert(text@.take(0) =~= Seq::<char>::empty());
    proof { reveal(Seq::filter); }
    while k < text.len()
        invariant
            k <= text@.len(),
            r@ == crate::board::without_cr(text@.take(k as int)),
        decreases text@.len() - k,
    {
        let c = text[k];
        proof {
            let s0 = text@.take(k as int);
            let s1 = text@.take(k + 1);
            assert(s1 =~= s0.push(c));
            reveal(Seq::filter);
            assert(s1.drop_last() =~= s0);
        }
        if c != '\r' {
            r.push(c);
        }
        k = k + 1;
    }
    assert(text@.take(text@.len() as int) =~= text@);
    r
}

impl PanelState {
    /// A segment made ready for the view: the view's piece spacing, tabs
    /// as spaces, the view's font and size unless the data chose their own
    /// font, the view's text color unless they chose their own color, and
    /// the view's background where they have none.
    pub fn prepare_data(&self, rd: RichData, custom_font_text: bool, custom_font_color: bool) -> (r: RichData)
        ensures
            r@ == (RichDataView {
                piece_spacing: self.piece_spacing,
                text: expand_tabs(rd@.text, self.tab_width as nat),
                font: if custom_font_text { rd.font } else { self.text_font },
                font_size: if custom_font_text { rd.font_size } else { self.text_size },
                fg_color: if custom_font_color { rd.fg_color } else { self.text_color },
                bg_color: match rd.bg_color { Some(c) => Some(c), None => Some(self.background_color) },
                ..rd@
            }),
    {
        let mut rd = rd;
        rd.piece_spacing = self.piece_spacing;
        rd.text = expand_tabs_exec(&rd.text, self.tab_width);
        if !custom_font_text {
            rd.font = self.text_font;
            rd.font_size = self.text_size;
        }
        if !custom_font_color {
            rd.fg_color = self.text_color;
        }
        if rd.bg_color.is_none() {
            rd.bg_color = Some(self.background_color);
        }
        rd
    }

    /// Takes a laid-out segment into view: the cursor moves to `cursor`, the
    /// segment goes last, and after a text segment the oldest one leaves
    /// when there are more than the buffer keeps.
    pub fn push_data(&mut self, rd: RichData, cursor: LinePiece)
        ensures
            final(self).cursor_piece == cursor,
            views(final(self).current_buffer@) == pushed(views(old(self).current_buffer@), rd@, old(self).buffer_max_lines as nat),
            final(self).data_buffer == old(self).data_buffer,
            final(self).rewrite_board == old(self).rewrite_board,
            final(self).buffer_max_lines == old(self).buffer_max_lines,
    {
        let is_text = rd.data_type == DataType::Text;
        let ghost v = rd@;
        self.cursor_piece = cursor;
        self.current_buffer.push(rd);
        assert(views(self.current_buffer@) =~= views(old(self).current_buffer@).push(v));
        if is_text && self.current_buffer.len() > self.buffer_max_lines {
            let ghost b = views(self.current_buffer@);
            let _ = self.current_buffer.remove(0);
            assert(views(self.current_buffer@) =~= b.skip(1));
        }
    }

    /// Shows the board: the data in view become all the data of the board,
    /// row after row, followed by the lines that fell below it.
    pub fn show_board_data(&mut self, exceed: Vec<RichData>)
        ensures
            views(final(self).current_buffer@) == match old(self).rewrite_board {
                Some(b) => crate::board::board_data(b.line_data_map@) + views(exceed@),
                None => views(exceed@),
            },
            final(self).rewrite_board == old(self).rewrite_board,
            final(self).data_buffer == old(self).data_buffer,
            final(self).cursor_piece == old(self).cursor_piece,
    {
        let mut all = match &self.rewrite_board {
            Some(b) => b.all_data(),
            None => Vec::new(),
        };
        let mut exceed = exceed;
        let ghost a0 = views(all@);
        let ghost e0 = views(exceed@);
        all.append(&mut exceed);
        assert(views(all@) =~= a0 + e0);
        self.current_buffer = all;
    }
}

/// Where a cursor move puts the cursor, once the caller has measured what
/// it needs.
#[derive(Debug)]
pub enum CursorTarget {
    /// Inside a segment of the board row: right of `prefix`, measured in
    /// the view's font, from `x`, the left of the segment's first piece, at
    /// `top_y`, the top of that piece.
    InSegment { x: i32, top_y: i32, prefix: Vec<char> },
    /// At row `n` and column `m` of the grid of the default font; where
    /// `append_empty` holds, an empty text follows to mark the place.
    Cell { n: usize, m: usize, append_empty: bool },
    /// The cursor piece stays where it is.
    Stay,
}

/// The segment of a board row that holds column `m` strictly inside, with
/// the characters before it, the row's segments starting at column `sum`.
pub open spec fn column_segment(segs: Seq<RichDataView>, m: int, sum: int) -> Option<(int, int)>
    decreases segs.len(),
{
    if segs.len() == 0 {
        None
    } else if sum < m && sum + segs[0].text.len() > m {
        Some((0, sum))
    } else {
        match column_segment(segs.skip(1), m, sum + segs[0].text.len()) {
            Some((i, t)) => Some((i + 1, t)),
            None => None,
        }
    }
}

/// Past column `m` no segment holds it.
proof fn lemma_column_segment_past(segs: Seq<RichDataView>, m: int, sum: int)
    requires
        sum >= m,
    ensures
        column_segment(segs, m, sum) is None,
    decreases segs.len(),
{
    if segs.len() > 0 {
        lemma_column_segment_past(segs.skip(1), m, sum + segs[0].text.len());
    }
}

/// The segments of row `row`, where the board has that row.
pub open spec fn row_segments(rows: Seq<(usize, Seq<RichDataView>)>, row: usize) -> Option<Seq<RichDataView>> {
    if exists|i: int| 0 <= i < rows.len() && rows[i].0 == row {
        Some(rows[choose|i: int| 0 <= i < rows.len() && rows[i].0 == row].1)
    } else {
        None
    }
}

/// The target of a cursor move to row `n` and column `m` on the board `b`:
/// inside the segment of that row that holds the column, if its first
/// piece exists; nowhere else in a row that holds data; else the grid cell.
pub open spec fn board_target(b: ReWriteBoard, n: usize, m: usize) -> Option<(int, int, int, Seq<char>)> {
    match row_segments(b.line_data_map@, n) {
        Some(segs) => match column_segment(segs, m as int, 0) {
            Some((i, t)) => if segs[i].line_pieces.len() > 0 {
                Some((i, segs[i].line_pieces[0].x as int, segs[i].line_pieces[0].top_y as int, segs[i].text.take(m - t - 1)))
            } else {
                None
            },
            None => None,
        },
        None => None,
    }
}

/// Finds the segment of a row that holds column `m`.
fn find_column(segs: &Vec<RichData>, m: usize) -> (r: Option<(usize, usize)>)
    ensures
        match r {
            Some((i, t)) => column_segment(views(segs@), m as int, 0) == Some((i as int, t as int))
                && i < segs@.len() && t < m && t + segs@[i as int].text@.len() > m,
            None => column_segment(views(segs@), m as int, 0) is None,
        },
{
    let ghost v = views(segs@);
    let mut total: usize = 0;
    let mut i: usize = 0;
    assert(v.skip(0) =~= v);
    proof {
        lemma_column_segment_bounds(v, m as int, 0);
    }
    while i < segs.len()
        invariant
            v == views(segs@),
            i <= segs@.len(),
            total < m || (i == 0 && total == 0),
            column_segment(v, m as int, 0) == match column_segment(v.skip(i as int), m as int, total as int) {
                Some((j, t)) => Some((j + i, t)),
                None => None,
            },
            forall|j: int, t: int| column_segment(v.skip(i as int), m as int, total as int) == Some((j, t)) ==> total <= t < m && 0 <= j < v.len() - i
                && t + v.skip(i as int)[j].text.len() > m,
        decreases segs@.len() - i,
    {
        let len = segs[i].text.len();
        assert(v.skip(i as int)[0] == v[i as int]);
        assert(v.skip(i as int).skip(1) =~= v.skip(i + 1));
        if total < m && len > m - total {
            assert(views(segs@)[i as int] == segs@[i as int]@);
            return Some((i, total));
        }
        if total >= m || len >= m - total {
            proof {
                lemma_column_segment_past(v.skip(i + 1), m as int, total + len);
            }
            return None;
        }
        total = total + len;
        i = i + 1;
        proof {
            let rest = v.skip(i as int);
            lemma_column_segment_bounds(rest, m as int, total as int);
        }
    }
    None
}

/// A segment that holds the column lies after the start and the column
/// lies after the characters before it.
proof fn lemma_column_segment_bounds(segs: Seq<RichDataView>, m: int, sum: int)
    ensures
        forall|j: int, t: int| column_segment(segs, m, sum) == Some((j, t)) ==> sum <= t < m && 0 <= j < segs.len()
            && t + segs[j].text.len() > m,
    decreases segs.len(),
{
    if segs.len() > 0 {
        lemma_column_segment_bounds(segs.skip(1), m, sum + segs[0].text.len());
        assert forall|j: int, t: int| column_segment(segs, m, sum) == Some((j, t)) implies sum <= t < m && 0 <= j < segs.len()
            && t + segs[j].text.len() > m by {
            if j > 0 {
                assert(segs.skip(1)[j - 1] == segs[j]);
            }
        }
    }
}

impl PanelState {
    /// Moves the cursor to row `n` and column `m` (0 counts as 1), with the
    /// view scrolled by `offset_y` and rows `line_height` high. A move to
    /// the top left corner without a board hands the cursor to the remote
    /// side (`switch_mode` with code 0) and makes a board. The board cursor
    /// goes to the clamped position. The target is inside the segment that
    /// holds the column in a board row that holds data, the grid cell where
    /// the board has no such row, and the grid cell with an empty text
    /// following it where there is no board.
    pub fn move_cursor(&mut self, n: usize, m: usize, offset_y: i32, line_height: i32) -> (t: CursorTarget)
        requires
            old(self).rewrite_board is Some ==> old(self).rewrite_board->0.wf(),
            (at_least_one(n) == 1 && at_least_one(m) == 1) ==> board_makeable(*old(self), offset_y as int, line_height as int),
        ensures
            ({
                let n1 = at_least_one(n);
                let m1 = at_least_one(m);
                let made = n1 == 1 && m1 == 1 && old(self).rewrite_board is None;
                &&& made ==> {
                    &&& final(self).rewrite_board is Some
                    &&& !final(self).remote_flow_control
                    &&& final(self).show_cursor
                    &&& (opt_views(final(self).data_buffer), views(final(self).current_buffer@))
                        == to_remote(opt_views(old(self).data_buffer), views(old(self).current_buffer@))
                    &&& {
                        let b = final(self).rewrite_board->0;
                        &&& b.wf()
                        &&& is_fresh_board(ReWriteBoard { cursor_pos: CursorPos::spec_new(1, 1, old(self).max_rows, old(self).max_cols), ..b },
                            old(self).max_rows, old(self).max_cols, offset_y as int, line_height as int)
                        &&& b.cursor_pos.n == 1 && b.cursor_pos.m == 1
                    }
                    &&& t matches CursorTarget::Cell { n: tn, m: tm, append_empty } && tn == 1 && tm == 1 && !append_empty
                }
                &&& (!made && old(self).rewrite_board is None) ==> {
                    &&& final(self).rewrite_board is None
                    &&& final(self).current_buffer == old(self).current_buffer
                    &&& final(self).data_buffer == old(self).data_buffer
                    &&& t matches CursorTarget::Cell { n: tn, m: tm, append_empty } && tn == n1 && tm == m1 && append_empty
                }
                &&& old(self).rewrite_board is Some ==> {
                    let ob = old(self).rewrite_board->0;
                    let c = ob.cursor_pos;
                    &&& final(self).rewrite_board is Some
                    &&& final(self).rewrite_board->0 == (ReWriteBoard {
                        cursor_pos: CursorPos {
                            n: crate::cursor::clamp_pos(n1 as int, 1, c.max_n as int) as usize,
                            m: crate::cursor::clamp_pos(m1 as int, 1, c.max_m as int) as usize,
                            ..c
                        },
                        ..ob
                    })
                    &&& final(self).current_buffer == old(self).current_buffer
                    &&& final(self).data_buffer == old(self).data_buffer
                    &&& match row_segments(ob.line_data_map@, n1) {
                        Some(segs) => match board_target(ob, n1, m1) {
                            Some((_, x, top, prefix)) => t matches CursorTarget::InSegment { x: tx, top_y: ty, prefix: p }
                                && tx == x && ty == top && p@ == prefix,
                            None => t is Stay,
                        },
                        None => t matches CursorTarget::Cell { n: tn, m: tm, append_empty } && tn == n1 && tm == m1 && !append_empty,
                    }
                }
            }),
            final(self).cursor_piece == old(self).cursor_piece,
            final(self).max_rows == old(self).max_rows,
            final(self).max_cols == old(self).max_cols,
    {
        let n = if n == 0 { 1 } else { n };
        let m = if m == 0 { 1 } else { m };
        if n == 1 && m == 1 && self.rewrite_board.is_none() {
            self.switch_mode(0);
            let b = ReWriteBoard::new(self.max_rows, self.max_cols, offset_y as usize, line_height as usize, 0);
            self.rewrite_board = Some(b);
        }
        match &mut self.rewrite_board {
            Some(board) => {
                board.cursor_pos.set(n, m);
                let rows = &board.line_data_map.rows;
                let ghost rv = board.line_data_map@;
                let mut k: usize = 0;
                while k < rows.len() && rows[k].row != n
                    invariant
                        k <= rows@.len(),
                        rv == board.line_data_map@,
                        rows@ == board.line_data_map.rows@,
                        forall|j: int| 0 <= j < k ==> rv[j].0 != n,
                    decreases rows@.len() - k,
                {
                    k = k + 1;
                }
                if k < rows.len() {
                    proof {
                        assert(rv[k as int].0 == n);
                        let c = choose|i: int| 0 <= i < rv.len() && rv[i].0 == n;
                        assert(c == k) by {
                            if c != k as int {
                                if c < k {
                                    assert(rv[c].0 != n);
                                } else {
                                    assert(rv[k as int].0 < rv[c].0);
                                }
                            }
                        }
                        assert(row_segments(rv, n) == Some(views(rows@[k as int].segments@)));
                    }
                    let segs = &rows[k].segments;
                    match find_column(segs, m) {
                        Some((i, total)) => {
                            if segs[i].line_pieces.len() > 0 {
                                let fp = &segs[i].line_pieces[0];
                                let char_pos = m - total - 1;
                                let mut prefix: Vec<char> = Vec::new();
                                let mut j: usize = 0;
                                while j < char_pos
                                    invariant
                                        j <= char_pos,
                                        char_pos < segs@[i as int].text@.len(),
                                        i < segs@.len(),
                                        prefix@ == segs@[i as int].text@.take(j as int),
                                    decreases char_pos - j,
                                {
                                    prefix.push(segs[i].text[j]);
                                    j = j + 1;
                                    assert(prefix@ =~= segs@[i as int].text@.take(j as int));
                                }
                                assert(views(segs@)[i as int] == segs@[i as int]@);
                                CursorTarget::InSegment { x: fp.x, top_y: fp.top_y, prefix }
                            } else {
                                assert(views(segs@)[i as int] == segs@[i as int]@);
                                CursorTarget::Stay
                            }
                        },
                        None => CursorTarget::Stay,
                    }
                } else {
                    assert(row_segments(rv, n) is None);
                    CursorTarget::Cell { n, m, append_empty: false }
                }
            },
            None => CursorTarget::Cell { n, m, append_empty: true },
        }
    }

    /// Puts the cursor piece into the grid cell at row `n` and column `m`
    /// for characters `char_width` wide and rows `line_height` high, with
    /// the view scrolled by `offset_y`.
    pub fn place_cursor_in_cell(&mut self, n: usize, m: usize, char_width: i32, line_height: i32, offset_y: i32)
        requires
            1 <= n <= i32::MAX,
            1 <= m <= i32::MAX,
            crate::geometry::fits_i32(line_height * (n - 1)),
            crate::geometry::fits_i32(PADDING_TOP + line_height * (n - 1)),
            crate::geometry::fits_i32(PADDING_TOP + line_height * (n - 1) + offset_y),
            crate::geometry::fits_i32(char_width * (m - 1)),
            crate::geometry::fits_i32(PADDING_LEFT + char_width * (m - 1)),
        ensures
            final(self).cursor_piece@ == ({
                let x = (PADDING_LEFT + char_width * (m - 1)) as i32;
                let y = (PADDING_TOP + line_height * (n - 1) + offset_y) as i32;
                LinePieceView { x, y, next_x: x, next_y: y, ..old(self).cursor_piece@ }
            }),
            *final(self) == (PanelState { cursor_piece: final(self).cursor_piece, ..*old(self) }),
    {
        let new_y = PADDING_TOP + line_height * (n as i32 - 1) + offset_y;
        let new_x = PADDING_LEFT + char_width * (m as i32 - 1);
        self.cursor_piece.move_cursor_to(new_x, new_y);
    }

    /// Puts the cursor piece right of a measured prefix inside a segment.
    pub fn place_cursor_in_segment(&mut self, x: i32, top_y: i32, prefix_width: i32)
        requires
            crate::geometry::fits_i32(x + prefix_width),
        ensures
            final(self).cursor_piece@ == (LinePieceView { x: (x + prefix_width) as i32, y: top_y, next_x: (x + prefix_width) as i32, next_y: top_y, ..old(self).cursor_piece@ }),
            *final(self) == (PanelState { cursor_piece: final(self).cursor_piece, ..*old(self) }),
    {
        self.cursor_piece.move_cursor_to(x + prefix_width, top_y);
    }
}

/// A quotient rounded down, as a float division rounded down and converted
/// to an `i32` gives it: dividing by zero gives the largest `i32` for a
/// positive dividend, the smallest for a negative one and 0 for 0, and a
/// quotient beyond the `i32` range stops at its bounds.
pub open spec fn grid_div(a: int, b: int) -> int {
    let q = if b == 0 {
        if a > 0 { i32::MAX as int } else if a < 0 { i32::MIN as int } else { 0 }
    } else if b > 0 {
        a / b
    } else {
        (-a) / (-b)
    };
    if q > i32::MAX { i32::MAX as int } else if q < i32::MIN { i32::MIN as int } else { q }
}

/// The columns and rows of the grid of the default font in a panel
/// `panel_w` × `panel_h`: the inner width over the width of the basic
/// character, the inner height over the line height of the text size, both
/// rounded down.
pub open spec fn grid_of(panel_w: int, panel_h: int, char_width: int, text_size: int) -> (int, int) {
    (
        grid_div(panel_w - PADDING_LEFT - PADDING_RIGHT, char_width),
        grid_div(panel_h - PADDING_TOP - PADDING_BOTTOM, spec_line_height(text_size)),
    )
}

/// Division rounded down by a positive divisor.
pub(crate) fn floor_div_pos(a: i64, b: i64) -> (q: i64)
    requires
        0 < b <= 0x1_0000_0000,
        -0x1_0000_0000 <= a <= 0x1_0000_0000,
    ensures
        q as int == a as int / b as int,
{
    if a >= 0 {
        a / b
    } else {
        let u = (-a + b - 1) / b;
        proof {
            let (ai, bi, ui) = (a as int, b as int, u as int);
            vstd::arithmetic::div_mod::lemma_fundamental_div_mod(-ai + bi - 1, bi);
            assert(ui * bi <= -ai + bi - 1 && -ai + bi - 1 < ui * bi + bi) by (nonlinear_arith)
                requires
                    bi > 0,
                    ui == (-ai + bi - 1) / bi,
                    -ai + bi - 1 == bi * ((-ai + bi - 1) / bi) + (-ai + bi - 1) % bi,
                    0 <= (-ai + bi - 1) % bi < bi,
            ;
            assert(ai == (-ui) * bi + (ai + ui * bi)) by (nonlinear_arith);
            vstd::arithmetic::div_mod::lemma_fundamental_div_mod_converse(ai, bi, -ui, ai + ui * bi);
        }
        -u
    }
}

/// The quotient `grid_div` gives.
fn grid_div_exec(a: i64, b: i64) -> (q: i32)
    requires
        -0x1_0000_0000 <= a <= 0x1_0000_0000,
        -0x1_0000_0000 <= b <= 0x1_0000_0000,
    ensures
        q as int == grid_div(a as int, b as int),
{
    let q: i64 = if b == 0 {
        if a > 0 { i32::MAX as i64 } else if a < 0 { i32::MIN as i64 } else { 0 }
    } else if b > 0 {
        floor_div_pos(a, b)
    } else {
        floor_div_pos(-a, -b)
    };
    proof {
        if b != 0 {
            let (ai, bi) = if b > 0 { (a as int, b as int) } else { (-(a as int), -(b as int)) };
            vstd::arithmetic::div_mod::lemma_fundamental_div_mod(ai, bi);
            assert(-0x1_0000_0000 <= ai / bi <= 0x1_0000_0000) by (nonlinear_arith)
                requires
                    bi >= 1,
                    -0x1_0000_0000 <= ai <= 0x1_0000_0000,
                    ai == bi * (ai / bi) + ai % bi,
                    0 <= ai % bi < bi,
            ;
        }
    }
    if q > i32::MAX as i64 { i32::MAX } else if q < i32::MIN as i64 { i32::MIN } else { q as i32 }
}

/// Height of the main view while the review view is open.
pub const MAIN_PANEL_FIX_HEIGHT: i32 = 200;

/// The heights of the main view and of the review view in a frame `total`
/// high: while the review view is open the main view keeps
/// `MAIN_PANEL_FIX_HEIGHT` and the review view takes the rest; else the
/// main view takes the whole frame.
pub fn split_heights(total: i32, reviewer_open: bool) -> (r: (i32, i32))
    requires
        reviewer_open ==> total - MAIN_PANEL_FIX_HEIGHT >= i32::MIN,
    ensures
        r == if reviewer_open { (MAIN_PANEL_FIX_HEIGHT, (total - MAIN_PANEL_FIX_HEIGHT) as i32) } else { (total, 0i32) },
{
    if reviewer_open {
        (MAIN_PANEL_FIX_HEIGHT, total - MAIN_PANEL_FIX_HEIGHT)
    } else {
        (total, 0)
    }
}

/// The columns and rows of the grid of the default font in a panel, as
/// `grid_of` says, for a basic character `char_width` wide.
pub fn calc_default_window_size(panel_w: i32, panel_h: i32, char_width: i32, text_size: i32) -> (r: (i32, i32))
    ensures
        (r.0 as int, r.1 as int) == grid_of(panel_w as int, panel_h as int, char_width as int, text_size as int),
{
    let cols = grid_div_exec(panel_w as i64 - PADDING_LEFT as i64 - PADDING_RIGHT as i64, char_width as i64);
    let rows = grid_div_exec(panel_h as i64 - PADDING_TOP as i64 - PADDING_BOTTOM as i64, line_height_of(text_size) as i64);
    (cols, rows)
}

impl PanelState {
    /// Fits the grid to a panel `panel_w` × `panel_h` for a basic character
    /// `char_width` wide: at least one row and one column, and a board,
    /// while there is one, at least two rows and two columns. Returns the
    /// rows and columns as computed.
    pub fn update_window_size(&mut self, panel_w: i32, panel_h: i32, char_width: i32) -> (r: (i32, i32))
        requires
            old(self).rewrite_board is Some ==> {
                let b = old(self).rewrite_board->0;
                let rows = grid_of(panel_w as int, panel_h as int, char_width as int, old(self).text_size as int).1;
                board_bottom(b.top_y as int, if rows > 2 { rows } else { 2 }, b.line_height as int, b.line_space as int) <= usize::MAX
            },
        ensures
            (r.1 as int, r.0 as int) == grid_of(panel_w as int, panel_h as int, char_width as int, old(self).text_size as int),
            final(self).max_rows == if r.0 > 1 { r.0 as usize } else { 1 },
            final(self).max_cols == if r.1 > 1 { r.1 as usize } else { 1 },
            match old(self).rewrite_board {
                Some(b) => final(self).rewrite_board == Some(ReWriteBoard {
                    max_rows: if r.0 > 2 { r.0 as usize } else { 2 },
                    max_cols: if r.1 > 2 { r.1 as usize } else { 2 },
                    bottom_y: board_bottom(b.top_y as int, if r.0 > 2 { r.0 as int } else { 2 }, b.line_height as int, b.line_space as int) as usize,
                    ..b
                }),
                None => final(self).rewrite_board is None,
            },
            final(self).current_buffer == old(self).current_buffer,
            final(self).data_buffer == old(self).data_buffer,
            final(self).cursor_piece == old(self).cursor_piece,
    {
        let (cols, rows) = calc_default_window_size(panel_w, panel_h, char_width, self.text_size);
        self.max_rows = if rows > 1 { rows as usize } else { 1 };
        self.max_cols = if cols > 1 { cols as usize } else { 1 };
        match &mut self.rewrite_board {
            Some(board) => {
                let r2: usize = if rows > 2 { rows as usize } else { 2 };
                let c2: usize = if cols > 2 { cols as usize } else { 2 };
                board.resize(r2, c2);
            },
            None => {},
        }
        (rows, cols)
    }
}

/// Deleting the last segment after a segment was taken into view without
/// dropping an old one gives the buffer back.
pub proof fn law_delete_undoes_push(bufs: Seq<RichDataView>, r: RichDataView, max_lines: nat)
    requires
        r.data_type != DataType::Text || bufs.len() + 1 <= max_lines,
    ensures
        without_last(pushed(bufs, r, max_lines)) == bufs,
{
    assert(bufs.push(r).drop_last() =~= bufs);
}

/// After the cache size is set the buffer holds at most that many
/// segments, they are the newest ones, and setting the same size again
/// changes nothing.
pub proof fn law_cache_keeps_newest(bufs: Seq<RichDataView>, max_lines: nat)
    ensures
        cached(bufs, max_lines).len() <= max_lines || cached(bufs, max_lines) == bufs,
        cached(bufs, max_lines).len() <= bufs.len(),
        cached(bufs, max_lines) == bufs.skip(bufs.len() - cached(bufs, max_lines).len()),
        cached(cached(bufs, max_lines), max_lines) == cached(bufs, max_lines),
{
    assert(bufs.skip(0) =~= bufs);
}

/// Taking a segment into view leaves at most as many segments as the
/// buffer keeps, where it kept no more before.
pub proof fn law_push_keeps_the_limit(bufs: Seq<RichDataView>, r: RichDataView, max_lines: nat)
    requires
        bufs.len() <= max_lines,
        r.data_type == DataType::Text,
    ensures
        pushed(bufs, r, max_lines).len() <= max_lines || max_lines == 0,
        max_lines > 0 ==> pushed(bufs, r, max_lines).last() == r,
{
}

/// Handing the cursor to the remote side and back loses no data: the main
/// data followed by the data that were in view come back into view, and
/// the main buffer is left empty.
pub proof fn law_mode_round_trip(main: Seq<RichDataView>, current: Seq<RichDataView>)
    ensures
        ({
            let (m1, c1) = to_remote(Some(main), current);
            to_local(m1, c1) == (Some(Seq::<RichDataView>::empty()), main + current)
        }),
{
}

/// No tab is left after tabs are expanded.
pub proof fn law_tabs_expanded(text: Seq<char>, width: nat)
    ensures
        forall|i: int| 0 <= i < expand_tabs(text, width).len() ==> #[trigger] expand_tabs(text, width)[i] != '\t',
    decreases text.len(),
{
    if text.len() > 0 {
        law_tabs_expanded(text.drop_last(), width);
        let head = expand_tabs(text.drop_last(), width);
        let tail = if text.last() == '\t' { crate::text::spaces(width) } else { seq![text.last()] };
        assert forall|i: int| 0 <= i < expand_tabs(text, width).len() implies #[trigger] expand_tabs(text, width)[i] != '\t' by {
            if i < head.len() {
                assert(expand_tabs(text, width)[i] == head[i]);
            } else {
                assert(expand_tabs(text, width)[i] == tail[i - head.len()]);
            }
        }
    }
}

/// No carriage return is left after they are removed.
pub proof fn law_no_carriage_return(text: Seq<char>)
    ensures
        forall|i: int| 0 <= i < crate::board::without_cr(text).len() ==> #[trigger] crate::board::without_cr(text)[i] != '\r',
{
    assert forall|i: int| 0 <= i < crate::board::without_cr(text).len() implies #[trigger] crate::board::without_cr(text)[i] != '\r' by {
        text.lemma_filter_pred(|c: char| c != '\r', i);
    }
}

} // verus!
