//! The state of the review view apart from its widgets: its data buffer,
//! paging in history mode, the search, and what part of the data is
//! visible.

use vstd::prelude::*;
use crate::board::views;
use crate::color::{BlinkState, Color, white};
use crate::data::{RichData, RichDataView, DataType, next_sn};
use crate::options::{RichDataOptions, update_data_properties, options_applicable, options_applied,
    disable_data, spec_disabled, gray_fits};
use crate::panel::{find_by_id, ids_sorted};
use crate::records::PageOptions;
use crate::search::SearchState;
use crate::text::Font;
use crate::{PADDING_BOTTOM, PADDING_TOP, DEFAULT_FONT_SIZE};

verus! {

/// Space between the main view and the review view.
pub const PANEL_PADDING: i32 = 8;

/// Whether a segment with vertical bounds `v` reaches into the band from
/// `top_y` to `bottom_y`.
pub open spec fn visible_in(v: (i32, i32, i32, i32), top_y: int, bottom_y: int) -> bool {
    !(v.1 < top_y || v.0 > bottom_y)
}

/// The last segment below `hi` that reaches into the band.
pub open spec fn last_visible(bufs: Seq<RichDataView>, top_y: int, bottom_y: int, hi: int) -> Option<int>
    decreases hi,
{
    if hi <= 0 {
        None
    } else if visible_in(bufs[hi - 1].v_bounds, top_y, bottom_y) {
        Some(hi - 1)
    } else {
        last_visible(bufs, top_y, bottom_y, hi - 1)
    }
}

/// The last segment below `hi` that lies outside the band.
pub open spec fn last_invisible(bufs: Seq<RichDataView>, top_y: int, bottom_y: int, hi: int) -> Option<int>
    decreases hi,
{
    if hi <= 0 {
        None
    } else if !visible_in(bufs[hi - 1].v_bounds, top_y, bottom_y) {
        Some(hi - 1)
    } else {
        last_invisible(bufs, top_y, bottom_y, hi - 1)
    }
}

/// The range of segments to draw for the band from `top_y` to
/// `bottom_y`, looking from the last segment backwards: up to the last
/// visible segment, and from just after the last invisible segment before
/// it; all of them where none is visible.
pub open spec fn visible_range(bufs: Seq<RichDataView>, top_y: int, bottom_y: int) -> (int, int) {
    match last_visible(bufs, top_y, bottom_y, bufs.len() as int) {
        None => (0, bufs.len() as int),
        Some(t) => match last_invisible(bufs, top_y, bottom_y, t) {
            None => (0, t + 1),
            Some(f) => (f + 1, t + 1),
        },
    }
}

/// The range of segments to draw for the band from `top_y` to `bottom_y`,
/// as `visible_range` says.
pub fn visible_range_of(buffer: &Vec<RichData>, top_y: i32, bottom_y: i32) -> (r: (usize, usize))
    ensures
        (r.0 as int, r.1 as int) == visible_range(views(buffer@), top_y as int, bottom_y as int),
{
    let ghost v = views(buffer@);
    let ghost (tp, bt) = (top_y as int, bottom_y as int);
    let n = buffer.len();
    let mut i = n;
    let mut to: Option<usize> = None;
    while i > 0
        invariant
            i <= n,
            n == v.len(),
            v == views(buffer@),
            tp == top_y as int,
            bt == bottom_y as int,
            match to {
                None => last_visible(v, tp, bt, n as int) == last_visible(v, tp, bt, i as int),
                Some(t) => i <= t < n && last_visible(v, tp, bt, n as int) == Some(t as int)
                    && last_invisible(v, tp, bt, t as int) == last_invisible(v, tp, bt, i as int),
            },
        decreases i,
    {
        i = i - 1;
        assert(v[i as int] == buffer@[i as int]@);
        let vis = buffer[i].is_visible(top_y, bottom_y);
        match to {
            None => {
                if vis {
                    to = Some(i);
                }
            },
            Some(t) => {
                if !vis {
                    return (i + 1, t + 1);
                }
            },
        }
    }
    match to {
        None => (0, n),
        Some(t) => (0, t + 1),
    }
}

/// The band of the panel the review view shows, as (top, bottom, offset):
/// from its scroll position (not above 0), `window_height` minus the
/// padding between the views high, moved by the top of the first segment,
/// with the offset that puts the band's top at the top padding.
pub open spec fn visible_band(yposition: int, window_height: int, first_top: Option<i32>) -> (int, int, int) {
    let base_y = if yposition < 0 { 0 } else { yposition };
    let shift = match first_top { Some(y) => y as int, None => 0 };
    let top_y = base_y + shift;
    let bottom_y = base_y + window_height - PANEL_PADDING + shift;
    (top_y, bottom_y, top_y - PADDING_TOP)
}

/// The band of the panel the review view shows, as `visible_band` says.
pub fn visible_band_of(yposition: i32, window_height: i32, buffer: &Vec<RichData>) -> (r: (i32, i32, i32))
    requires
        crate::geometry::fits_i32(window_height - PANEL_PADDING),
        ({
            let (t, b, o) = visible_band(yposition as int, window_height as int,
                if buffer@.len() > 0 { Some(buffer@[0].v_bounds.0) } else { None });
            crate::geometry::fits_i32(t) && crate::geometry::fits_i32(b) && crate::geometry::fits_i32(o)
                && crate::geometry::fits_i32(if yposition < 0 { 0 } else { yposition as int } + window_height - PANEL_PADDING)
        }),
    ensures
        (r.0 as int, r.1 as int, r.2 as int) == visible_band(yposition as int, window_height as int,
            if buffer@.len() > 0 { Some(buffer@[0].v_bounds.0) } else { None }),
{
    let drawable_height = window_height - PANEL_PADDING;
    let base_y = if yposition < 0 { 0 } else { yposition };
    let (mut top_y, mut bottom_y) = (base_y, base_y + drawable_height);
    if buffer.len() > 0 {
        let y = buffer[0].v_bounds.0;
        top_y = top_y + y;
        bottom_y = bottom_y + y;
    }
    (top_y, bottom_y, top_y - PADDING_TOP)
}

/// Whether anything in the drawn range blinks: blinking content or a
/// focused search hit.
pub open spec fn range_blinks(bufs: Seq<RichDataView>, from: int, to: int) -> bool {
    exists|i: int| from <= i < to && (bufs[i].blink || bufs[i].search_highlight_pos is Some)
}

/// Whether anything in the range from `from` to `to` blinks.
pub fn needs_blink(buffer: &Vec<RichData>, from: usize, to: usize) -> (b: bool)
    requires
        from <= to <= buffer@.len(),
    ensures
        b == range_blinks(views(buffer@), from as int, to as int),
{
    let mut i = from;
    while i < to
        invariant
            from <= i <= to <= buffer@.len(),
            forall|k: int| from <= k < i ==> !(buffer@[k].blink || buffer@[k].search_highlight_pos is Some),
        decreases to - i,
    {
        if buffer[i].blink || buffer[i].search_highlight_pos.is_some() {
            assert(views(buffer@)[i as int] == buffer@[i as int]@);
            return true;
        }
        i = i + 1;
    }
    proof {
        assert forall|k: int| from <= k < to implies !(views(buffer@)[k].blink || views(buffer@)[k].search_highlight_pos is Some) by {
            assert(views(buffer@)[k] == buffer@[k]@);
        }
    }
    false
}

/// The blink switch after a redraw: on where something blinks, off where
/// nothing does.
pub fn update_blink(state: &mut BlinkState, need_blink: bool)
    ensures
        *final(state) == (BlinkState { on: need_blink, ..*old(state) }),
{
    if need_blink {
        if !state.on {
            state.on();
        }
    } else {
        if state.on {
            state.off();
        }
    }
}

/// What a page scroll does: jump to the bottom where the view is scrolled
/// past it, else scroll by the height of removed data, or nothing.
#[derive(Debug, Clone, Copy, PartialEq, Eq, Structural)]
pub enum ScrollAction {
    /// Scroll to this position, later.
    ToBottomLater(i32),
    /// Scroll to this position now.
    To(i32),
    /// Stay.
    Stay,
}

/// The scroll after a page changed, for a panel `panel_h` high seen through
/// a view `scroller_h` high at `yposition`, where `shifted` says that data
/// of `offset` height left the top.
pub fn scroll_page(panel_h: i32, scroller_h: i32, yposition: i32, shifted: bool, offset: i32) -> (a: ScrollAction)
    requires
        crate::geometry::fits_i32(panel_h - scroller_h),
        crate::geometry::fits_i32(yposition - offset),
    ensures
        a == if yposition > panel_h - scroller_h {
            ScrollAction::ToBottomLater((panel_h - scroller_h) as i32)
        } else if shifted {
            ScrollAction::To(if yposition - offset > 0 { (yposition - offset) as i32 } else { 0 })
        } else {
            ScrollAction::Stay
        },
{
    let height_diff = panel_h - scroller_h;
    if yposition > height_diff {
        ScrollAction::ToBottomLater(height_diff)
    } else if shifted {
        let y = yposition - offset;
        ScrollAction::To(if y > 0 { y } else { 0 })
    } else {
        ScrollAction::Stay
    }
}

/// The panel height that holds the data from the top of the first segment
/// to the bottom of the last with the paddings, at least `scroller_height`.
pub open spec fn panel_height_of(bufs: Seq<RichDataView>, scroller_height: int) -> int {
    let top = if bufs.len() > 0 { bufs[0].v_bounds.0 as int } else { 0 };
    let bottom = if bufs.len() > 0 { bufs.last().v_bounds.1 as int } else { 0 };
    let content = bottom - top + PADDING_BOTTOM + PADDING_TOP;
    if content > scroller_height { content } else { scroller_height }
}

/// The data after a page was added: after them for the next page, before
/// them for the previous page.
pub open spec fn merged(bufs: Seq<RichDataView>, page: Seq<RichDataView>, direction: PageOptions) -> Seq<RichDataView> {
    match direction {
        PageOptions::NextPage(_) => bufs + page,
        PageOptions::PrevPage(_) => page + bufs,
    }
}

/// The data after a page of `size` segments was dropped from the far end:
/// the first ones when paging on, the last ones when paging back.
pub open spec fn trimmed(bufs: Seq<RichDataView>, size: int, direction: PageOptions) -> Seq<RichDataView> {
    match direction {
        PageOptions::NextPage(_) => bufs.skip(size),
        PageOptions::PrevPage(_) => bufs.take(bufs.len() - size),
    }
}

/// The other paging direction.
pub open spec fn opposite(direction: PageOptions) -> PageOptions {
    match direction {
        PageOptions::NextPage(id) => PageOptions::PrevPage(id),
        PageOptions::PrevPage(id) => PageOptions::NextPage(id),
    }
}

/// The request for another page in `direction`: the next page carries the
/// identifier of the last segment, the previous page that of the first;
/// none where that identifier is 0 or there are no data.
pub open spec fn page_request_of(bufs: Seq<RichDataView>, direction: PageOptions) -> Option<PageOptions> {
    match direction {
        PageOptions::NextPage(_) => {
            let id = if bufs.len() > 0 { bufs.last().id } else { 0 };
            if id == 0 { None } else { Some(PageOptions::NextPage(id)) }
        },
        PageOptions::PrevPage(_) => {
            let id = if bufs.len() > 0 { bufs[0].id } else { 0 };
            if id == 0 { None } else { Some(PageOptions::PrevPage(id)) }
        },
    }
}

/// A quarter, rounded toward zero.
pub open spec fn quarter(v: int) -> int {
    if v >= 0 { v / 4 } else { -((-v) / 4) }
}

/// The page a turn of the mouse wheel asks for, in a view `scroller_h` high
/// scrolled to `y` over a panel `panel_h` high: turned toward the top
/// within the first quarter view, the previous page; turned toward the
/// bottom within the last quarter view, the next page; else none.
pub open spec fn wheel_request_of(bufs: Seq<RichDataView>, toward_top: bool, y: int, scroller_h: int, panel_h: int) -> Option<PageOptions> {
    if toward_top {
        if y < quarter(scroller_h) { page_request_of(bufs, PageOptions::PrevPage(0)) } else { None }
    } else {
        if y > panel_h - scroller_h - quarter(scroller_h) { page_request_of(bufs, PageOptions::NextPage(0)) } else { None }
    }
}

/// The state of the review view apart from its widgets.
#[derive(Debug)]
pub struct ReviewState {
    pub data_buffer: Vec<RichData>,
    pub search: SearchState,
    /// True for history mode, which pages large data in; false while it
    /// reviews the main view online.
    pub history_mode: bool,
    /// Size of a page in history mode.
    pub page_size: usize,
    pub text_font: Font,
    pub text_color: Color,
    pub text_size: i32,
    pub piece_spacing: i32,
}

/// Whether two review states agree on all but their data: the search, the
/// mode, the page size, and the font, color, size and spacing of the text.
pub open spec fn same_settings(a: ReviewState, b: ReviewState) -> bool {
    &&& a.search == b.search
    &&& a.history_mode == b.history_mode
    &&& a.page_size == b.page_size
    &&& a.text_font == b.text_font
    &&& a.text_color == b.text_color
    &&& a.text_size == b.text_size
    &&& a.piece_spacing == b.piece_spacing
}

impl ReviewState {
    /// An empty review: online mode, pages of 10, white text in the default
    /// size.
    pub fn new() -> (s: ReviewState)
        ensures
            s.data_buffer@.len() == 0,
            s.search@.search_string is None,
            s.search@.search_results.len() == 0,
            s.search@.current_highlight_focus is None,
            !s.history_mode,
            s.page_size == 10,
            s.text_color == (Color { r: 255, g: 255, b: 255 }),
            s.text_size == DEFAULT_FONT_SIZE,
            s.piece_spacing == 0,
    {
        ReviewState {
            data_buffer: Vec::new(),
            search: SearchState::new(),
            history_mode: false,
            page_size: 10,
            text_font: Font::helvetica(),
            text_color: white(),
            text_size: DEFAULT_FONT_SIZE,
            piece_spacing: 0,
        }
    }

    /// Switches to history mode, which pages large data in.
    pub fn lazy_page_mode(self) -> (s: ReviewState)
        ensures
            s == (ReviewState { history_mode: true, ..self }),
    {
        ReviewState { history_mode: true, ..self }
    }

    /// Sets the page size of history mode.
    pub fn set_page_size(&mut self, new_size: usize)
        ensures
            *final(self) == (ReviewState { page_size: new_size, ..*old(self) }),
    {
        self.page_size = new_size;
    }

    /// Drops all data.
    pub fn clear(&mut self)
        ensures
            final(self).data_buffer@.len() == 0,
            final(self).search == old(self).search,
            final(self).history_mode == old(self).history_mode,
            final(self).page_size == old(self).page_size,
            same_settings(*final(self), *old(self)),
    {
        self.data_buffer.clear();
    }

    /// Replaces the data.
    pub fn set_data(&mut self, data: Vec<RichData>)
        ensures
            views(final(self).data_buffer@) == views(data@),
            final(self).search == old(self).search,
            final(self).history_mode == old(self).history_mode,
            same_settings(*final(self), *old(self)),
    {
        self.data_buffer = data;
    }

    /// A fresh serial number, from the identifier generator.
    pub fn get_next_sn(&self) -> i64 {
        next_sn()
    }

    /// A page segment made ready for the view: the view's piece spacing,
    /// the view's font and size unless the data chose their own font, and
    /// the view's text color unless they chose their own color.
    pub fn prepare_page_data(&self, rd: RichData, custom_font_text: bool, custom_font_color: bool) -> (r: RichData)
        ensures
            r@ == (RichDataView {
                piece_spacing: self.piece_spacing,
                font: if custom_font_text { rd.font } else { self.text_font },
                font_size: if custom_font_text { rd.font_size } else { self.text_size },
                fg_color: if custom_font_color { rd.fg_color } else { self.text_color },
                ..rd@
            }),
    {
        let mut rd = rd;
        rd.set_piece_spacing(self.piece_spacing);
        if !custom_font_text {
            rd.font = self.text_font;
            rd.font_size = self.text_size;
        }
        if !custom_font_color {
            rd.fg_color = self.text_color;
        }
        rd
    }

    /// Adds a page: after the data for the next page, before them for the
    /// previous page.
    pub fn merge_page(&mut self, page: Vec<RichData>, direction: PageOptions)
        ensures
            views(final(self).data_buffer@) == merged(views(old(self).data_buffer@), views(page@), direction),
            final(self).search == old(self).search,
            final(self).page_size == old(self).page_size,
            final(self).history_mode == old(self).history_mode,
            same_settings(*final(self), *old(self)),
    {
        let mut page = page;
        let ghost b0 = views(self.data_buffer@);
        let ghost p0 = views(page@);
        match direction {
            PageOptions::NextPage(_) => {
                self.data_buffer.append(&mut page);
                assert(views(self.data_buffer@) =~= b0 + p0);
            },
            PageOptions::PrevPage(_) => {
                let mut old_data = Vec::new();
                std::mem::swap(&mut old_data, &mut self.data_buffer);
                page.append(&mut old_data);
                assert(views(page@) =~= p0 + b0);
                self.data_buffer = page;
            },
        }
    }

    /// The request for more data in the same direction: the next page
    /// carries the identifier of the last segment, the previous page that
    /// of the first; none where that identifier is 0 or there are no data.
    pub fn page_request(&self, direction: PageOptions) -> (r: Option<PageOptions>)
        ensures
            r == page_request_of(views(self.data_buffer@), direction),
    {
        let n = self.data_buffer.len();
        match direction {
            PageOptions::NextPage(_) => {
                let id = if n > 0 { self.data_buffer[n - 1].id } else { 0 };
                if id != 0 { Some(PageOptions::NextPage(id)) } else { None }
            },
            PageOptions::PrevPage(_) => {
                let id = if n > 0 { self.data_buffer[0].id } else { 0 };
                if id != 0 { Some(PageOptions::PrevPage(id)) } else { None }
            },
        }
    }

    /// The page a turn of the mouse wheel asks for, as `wheel_request_of`
    /// says, in a view `scroller_h` high scrolled to `y_position` over a
    /// panel `panel_h` high.
    pub fn wheel_page_request(&self, toward_top: bool, y_position: i32, scroller_h: i32, panel_h: i32) -> (r: Option<PageOptions>)
        requires
            crate::geometry::fits_i32(panel_h - scroller_h),
            crate::geometry::fits_i32(panel_h - scroller_h - quarter(scroller_h as int)),
        ensures
            r == wheel_request_of(views(self.data_buffer@), toward_top, y_position as int, scroller_h as int, panel_h as int),
    {
        let q: i32 = if scroller_h >= 0 { scroller_h / 4 } else { -((-(scroller_h as i64) / 4) as i32) };
        if toward_top {
            if y_position < q {
                self.page_request(PageOptions::PrevPage(0))
            } else {
                None
            }
        } else {
            let edge = panel_h - scroller_h - q;
            if y_position > edge {
                self.page_request(PageOptions::NextPage(0))
            } else {
                None
            }
        }
    }

    /// Whether the data end above the bottom of a view `scroller_height`
    /// high, so that another page is wanted; never without data.
    pub fn need_more(&self, scroller_height: i32) -> (b: bool)
        ensures
            b == (self.data_buffer@.len() > 0 && self.data_buffer@.last().v_bounds.1 <= scroller_height),
    {
        let n = self.data_buffer.len();
        n > 0 && self.data_buffer[n - 1].v_bounds.1 <= scroller_height
    }

    /// The panel height that holds the data, at least `scroller_height`.
    pub fn calc_panel_height(&self, scroller_height: i32) -> (h: i32)
        requires
            crate::geometry::fits_i32((if self.data_buffer@.len() > 0 { self.data_buffer@.last().v_bounds.1 as int } else { 0 })
                - (if self.data_buffer@.len() > 0 { self.data_buffer@[0].v_bounds.0 as int } else { 0 })),
            crate::geometry::fits_i32((if self.data_buffer@.len() > 0 { self.data_buffer@.last().v_bounds.1 as int } else { 0 })
                - (if self.data_buffer@.len() > 0 { self.data_buffer@[0].v_bounds.0 as int } else { 0 }) + PADDING_BOTTOM + PADDING_TOP),
        ensures
            h == panel_height_of(views(self.data_buffer@), scroller_height as int),
    {
        let n = self.data_buffer.len();
        let top = if n > 0 { self.data_buffer[0].v_bounds.0 } else { 0 };
        let bottom = if n > 0 { self.data_buffer[n - 1].v_bounds.1 } else { 0 };
        let content_height = bottom - top + PADDING_BOTTOM + PADDING_TOP;
        if content_height > scroller_height { content_height } else { scroller_height }
    }

    /// Drops a page from the far end: the first `page_size` segments when
    /// paging on, the last ones when paging back. Returns the bottom of the
    /// page's last segment before the drop, by which the view scrolls.
    pub fn trim_far_page(&mut self, direction: PageOptions) -> (last_height: i32)
        requires
            old(self).page_size >= 1,
            old(self).data_buffer@.len() >= old(self).page_size,
        ensures
            last_height == old(self).data_buffer@[old(self).page_size - 1].v_bounds.1,
            views(final(self).data_buffer@) == trimmed(views(old(self).data_buffer@), old(self).page_size as int, direction),
            final(self).page_size == old(self).page_size,
            final(self).search == old(self).search,
            same_settings(*final(self), *old(self)),
    {
        let len = self.data_buffer.len();
        let last_height = self.data_buffer[self.page_size - 1].v_bounds.1;
        let ghost b0 = views(self.data_buffer@);
        match direction {
            PageOptions::NextPage(_) => {
                let tail = self.data_buffer.split_off(self.page_size);
                self.data_buffer = tail;
                assert(views(self.data_buffer@) =~= b0.skip(self.page_size as int));
            },
            PageOptions::PrevPage(_) => {
                self.data_buffer.truncate(len - self.page_size);
                assert(views(self.data_buffer@) =~= b0.take(len - self.page_size));
            },
        }
        last_height
    }

    /// Applies options to the segment that carries their identifier, found
    /// by halving the buffer; history mode changes nothing. Says whether a
    /// segment changed.
    pub fn update_data(&mut self, options: RichDataOptions) -> (found: bool)
        requires
            forall|i: int| 0 <= i < old(self).data_buffer@.len() && old(self).data_buffer@[i].id == options.id
                ==> options_applicable(options, #[trigger] old(self).data_buffer@[i]@),
        ensures
            old(self).history_mode ==> !found && final(self).data_buffer == old(self).data_buffer,
            found ==> exists|i: int| 0 <= i < old(self).data_buffer@.len() && old(self).data_buffer@[i].id == options.id
                && views(final(self).data_buffer@) == views(old(self).data_buffer@).update(i, options_applied(options, old(self).data_buffer@[i]@)),
            !found ==> final(self).data_buffer == old(self).data_buffer,
            !found && !old(self).history_mode && ids_sorted(views(old(self).data_buffer@))
                ==> forall|k: int| 0 <= k < old(self).data_buffer@.len() ==> old(self).data_buffer@[k].id != options.id,
            final(self).history_mode == old(self).history_mode,
            final(self).search == old(self).search,
            same_settings(*final(self), *old(self)),
    {
        if self.history_mode {
            return false;
        }
        match find_by_id(&self.data_buffer, options.id) {
            Some(idx) => {
                let ghost b0 = views(self.data_buffer@);
                update_data_properties(options, &mut self.data_buffer[idx]);
                assert(views(self.data_buffer@) =~= b0.update(idx as int, options_applied(options, old(self).data_buffer@[idx as int]@)));
                true
            },
            None => false,
        }
    }

    /// Disables the segment that carries identifier `id`, found by halving
    /// the buffer; history mode changes nothing. Says whether a segment
    /// changed.
    pub fn disable_data(&mut self, id: i64) -> (found: bool)
        requires
            forall|i: int| 0 <= i < old(self).data_buffer@.len() && old(self).data_buffer@[i].id == id ==> {
                let rd = #[trigger] old(self).data_buffer@[i];
                (rd.data_type == DataType::Image && rd.image_inactive is None && rd.image is Some)
                    ==> gray_fits(rd@.image->0, rd.image_width as int, rd.image_height as int, rd.image_color_depth)
            },
        ensures
            old(self).history_mode ==> !found && final(self).data_buffer == old(self).data_buffer,
            found ==> exists|i: int| 0 <= i < old(self).data_buffer@.len() && old(self).data_buffer@[i].id == id
                && views(final(self).data_buffer@) == views(old(self).data_buffer@).update(i, spec_disabled(old(self).data_buffer@[i]@)),
            !found ==> final(self).data_buffer == old(self).data_buffer,
            !found && !old(self).history_mode && ids_sorted(views(old(self).data_buffer@))
                ==> forall|k: int| 0 <= k < old(self).data_buffer@.len() ==> old(self).data_buffer@[k].id != id,
            final(self).history_mode == old(self).history_mode,
            final(self).search == old(self).search,
            same_settings(*final(self), *old(self)),
    {
        if self.history_mode {
            return false;
        }
        match find_by_id(&self.data_buffer, id) {
            Some(idx) => {
                let ghost b0 = views(self.data_buffer@);
                disable_data(&mut self.data_buffer[idx]);
                assert(views(self.data_buffer@) =~= b0.update(idx as int, spec_disabled(old(self).data_buffer@[idx as int]@)));
                true
            },
            None => false,
        }
    }
}

/// Dropping, from the far end, a page that was just added at the other end
/// gives the data back: paging in and out loses nothing.
pub proof fn law_page_round_trip(bufs: Seq<RichDataView>, page: Seq<RichDataView>, direction: PageOptions)
    ensures
        trimmed(merged(bufs, page, direction), page.len() as int, opposite(direction)) == bufs,
{
    match direction {
        PageOptions::NextPage(_) => assert((bufs + page).take((bufs + page).len() - page.len()) =~= bufs),
        PageOptions::PrevPage(_) => assert((page + bufs).skip(page.len() as int) =~= bufs),
    }
}

/// The range to draw lies within the buffer.
pub proof fn law_visible_range_within(bufs: Seq<RichDataView>, top_y: int, bottom_y: int)
    ensures
        ({
            let (from, to) = visible_range(bufs, top_y, bottom_y);
            0 <= from <= to <= bufs.len()
        }),
{
    lemma_last_visible_bound(bufs, top_y, bottom_y, bufs.len() as int);
    match last_visible(bufs, top_y, bottom_y, bufs.len() as int) {
        Some(t) => lemma_last_invisible_bound(bufs, top_y, bottom_y, t),
        None => {},
    }
}

/// The last visible segment below `hi` lies below `hi`.
proof fn lemma_last_visible_bound(bufs: Seq<RichDataView>, top_y: int, bottom_y: int, hi: int)
    ensures
        match last_visible(bufs, top_y, bottom_y, hi) {
            Some(t) => 0 <= t < hi,
            None => true,
        },
    decreases hi,
{
    if hi > 0 {
        lemma_last_visible_bound(bufs, top_y, bottom_y, hi - 1);
    }
}

/// The last invisible segment below `hi` lies below `hi`.
proof fn lemma_last_invisible_bound(bufs: Seq<RichDataView>, top_y: int, bottom_y: int, hi: int)
    ensures
        match last_invisible(bufs, top_y, bottom_y, hi) {
            Some(t) => 0 <= t < hi,
            None => true,
        },
    decreases hi,
{
    if hi > 0 {
        lemma_last_invisible_bound(bufs, top_y, bottom_y, hi - 1);
    }
}

} // verus!
