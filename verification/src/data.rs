//! Data segments: what the user hands in (`UserData`), what the panels keep
//! (`RichData`), the options that change a kept segment, and the operations
//! that disable or expire segments.

use vstd::prelude::*;
use std::path::PathBuf;
use idgenerator_thin::YitIdHelper;
use crate::action::{Action, ActionView, opt_action_view, copy_opt_action, opt_str_view, copy_opt_string, in_category, action_in_category};
use crate::color::{Color, white};
use crate::image::{ColorDepth, RgbImageData, bytes_per_pixel, gray_image, spec_gray_image, image_to_rgb_data};
use crate::piece::{LinePiece, LinePieceView};
use crate::text::{Font, chars_of, string_of};
use crate::DEFAULT_FONT_SIZE;

verus! {

#[verifier::external_type_specification]
#[verifier::external_body]
pub struct ExPathBuf(PathBuf);

/// `PathBuf::clone` of std: the copy equals the original.
pub assume_specification[ <PathBuf as Clone>::clone ](p: &PathBuf) -> (r: PathBuf)
    ensures
        r == *p,
;

/// A fresh snowflake identifier from `YitIdHelper::next_id` of
/// idgenerator-thin. It depends on the clock and on the generator's state,
/// so nothing is stated of it.
#[verifier::external_body]
fn next_id() -> i64 {
    YitIdHelper::next_id()
}

/// A fresh identifier, for a record or a segment; it comes from the
/// identifier generator, so nothing is stated of it.
pub fn next_sn() -> i64 {
    next_id()
}

/// The kind of a data segment.
#[derive(Debug, Clone, Copy, PartialEq, Eq, Structural)]
pub enum DataType {
    Text,
    Image,
}

/// A data segment as the application hands it in.
#[derive(Debug, Clone)]
pub struct UserData {
    /// Identifier; for data taken from a kept segment, that segment's id.
    pub id: i64,
    pub text: String,
    pub font: Font,
    pub font_size: i32,
    pub fg_color: Color,
    pub bg_color: Option<Color>,
    pub underline: bool,
    /// Foreground color number, 1 to 8 for the ANSI/CSI/SGR colors.
    pub fg_color_index: u8,
    /// Background color number, 1 to 8 for the ANSI/CSI/SGR colors.
    pub bg_color_index: u8,
    /// Whether the display is strengthened (CSI parameters 0 and 1).
    pub strong: bool,
    /// Font size number, 1 to 7 for SMALL, H6 ... H1 of MXP.
    pub font_size_index: u8,
    pub clickable: bool,
    pub expired: bool,
    pub blink: bool,
    pub disabled: bool,
    pub strike_through: bool,
    pub data_type: DataType,
    pub image: Option<RgbImageData>,
    /// Original width.
    pub image_width: i32,
    /// Original height.
    pub image_height: i32,
    /// Width to draw.
    pub image_target_width: i32,
    /// Height to draw.
    pub image_target_height: i32,
    /// Where the image comes from.
    pub image_src_url: Option<String>,
    /// Where the image was saved.
    pub image_file_path: Option<PathBuf>,
    pub custom_font_text: bool,
    pub custom_font_color: bool,
    pub action: Option<Action>,
}

/// The fields of a text segment with identifier `id` and text `text`, all
/// others at their defaults.
pub open spec fn is_default_text(u: UserData, id: i64, text: Seq<char>) -> bool {
    &&& u.id == id
    &&& u.text@ == text
    &&& u.font.bits == 0
    &&& u.font_size == DEFAULT_FONT_SIZE
    &&& u.fg_color == (Color { r: 255, g: 255, b: 255 })
    &&& u.bg_color is None
    &&& !u.underline
    &&& u.fg_color_index == 0
    &&& u.bg_color_index == 0
    &&& !u.strong
    &&& u.font_size_index == 0
    &&& !u.clickable
    &&& !u.expired
    &&& !u.blink
    &&& !u.disabled
    &&& !u.strike_through
    &&& u.data_type == DataType::Text
    &&& u.image is None
    &&& u.image_width == 0
    &&& u.image_height == 0
    &&& u.image_target_width == 0
    &&& u.image_target_height == 0
    &&& u.image_src_url is None
    &&& u.image_file_path is None
    &&& !u.custom_font_text
    &&& !u.custom_font_color
    &&& u.action is None
}

impl UserData {
    /// A text segment with the given identifier and text, all other fields
    /// at their defaults.
    pub fn new_text_with_id(id: i64, text: String) -> (u: UserData)
        ensures
            is_default_text(u, id, text@),
    {
        UserData {
            id,
            text,
            font: Font::helvetica(),
            font_size: DEFAULT_FONT_SIZE,
            fg_color: white(),
            bg_color: None,
            underline: false,
            fg_color_index: 0,
            bg_color_index: 0,
            strong: false,
            font_size_index: 0,
            clickable: false,
            expired: false,
            blink: false,
            disabled: false,
            strike_through: false,
            data_type: DataType::Text,
            image: None,
            image_width: 0,
            image_height: 0,
            image_target_width: 0,
            image_target_height: 0,
            image_src_url: None,
            image_file_path: None,
            custom_font_text: false,
            custom_font_color: false,
            action: None,
        }
    }

    /// A text segment with a fresh identifier, all other fields at their
    /// defaults.
    pub fn new_text(text: String) -> (u: UserData)
        ensures
            is_default_text(u, u.id, text@),
    {
        let id = next_id();
        UserData::new_text_with_id(id, text)
    }

    /// An image segment with a fresh identifier: the image, its original
    /// size, the size to draw and where it comes from.
    pub fn new_image(image: RgbImageData, origin_width: i32, origin_height: i32, target_width: i32, target_height: i32, src: Option<String>) -> (u: UserData)
        ensures
            u.text@ == Seq::<char>::empty(),
            u.data_type == DataType::Image,
            u.image == Some(image),
            u.image_width == origin_width,
            u.image_height == origin_height,
            u.image_target_width == target_width,
            u.image_target_height == target_height,
            u.image_src_url == src,
            u.font.bits == 0,
            u.font_size == DEFAULT_FONT_SIZE,
            u.fg_color == (Color { r: 255, g: 255, b: 255 }),
            u.bg_color is None,
            !u.underline && !u.clickable && !u.expired && !u.blink && !u.disabled && !u.strike_through,
            u.fg_color_index == 0 && u.bg_color_index == 0 && !u.strong && u.font_size_index == 0,
            u.image_file_path is None,
            !u.custom_font_text && !u.custom_font_color,
            u.action is None,
    {
        let id = next_id();
        UserData {
            id,
            text: String::new(),
            font: Font::helvetica(),
            font_size: DEFAULT_FONT_SIZE,
            fg_color: white(),
            bg_color: None,
            underline: false,
            fg_color_index: 0,
            bg_color_index: 0,
            strong: false,
            font_size_index: 0,
            clickable: false,
            expired: false,
            blink: false,
            disabled: false,
            strike_through: false,
            data_type: DataType::Image,
            image: Some(image),
            image_width: origin_width,
            image_height: origin_height,
            image_target_width: target_width,
            image_target_height: target_height,
            image_src_url: src,
            image_file_path: None,
            custom_font_text: false,
            custom_font_color: false,
            action: None,
        }
    }

    /// Sets font and size and marks the font as chosen by the application.
    pub fn set_font_and_size(self, font: Font, size: i32) -> (u: UserData)
        ensures
            u == (UserData { font, font_size: size, custom_font_text: true, ..self }),
    {
        UserData { font, font_size: size, custom_font_text: true, ..self }
    }

    /// Sets font and size in place and marks the font as chosen by the
    /// application.
    pub fn set_font_and_size2(&mut self, font: Font, size: i32)
        ensures
            *final(self) == (UserData { font, font_size: size, custom_font_text: true, ..*old(self) }),
    {
        self.font = font;
        self.font_size = size;
        self.custom_font_text = true;
    }

    /// Sets the font size number.
    pub fn set_font_size_index(self, index: u8) -> (u: UserData)
        ensures
            u == (UserData { font_size_index: index, ..self }),
    {
        UserData { font_size_index: index, ..self }
    }

    /// Sets the foreground color and marks it as chosen by the application.
    pub fn set_fg_color(self, fg_color: Color) -> (u: UserData)
        ensures
            u == (UserData { fg_color, custom_font_color: true, ..self }),
    {
        UserData { fg_color, custom_font_color: true, ..self }
    }

    /// Sets the foreground color number.
    pub fn set_fg_color_index(self, index: u8) -> (u: UserData)
        ensures
            u == (UserData { fg_color_index: index, ..self }),
    {
        UserData { fg_color_index: index, ..self }
    }

    /// Sets the background color.
    pub fn set_bg_color(self, bg_color: Option<Color>) -> (u: UserData)
        ensures
            u == (UserData { bg_color, ..self }),
    {
        UserData { bg_color, ..self }
    }

    /// Sets the background color number.
    pub fn set_bg_color_index(self, index: u8) -> (u: UserData)
        ensures
            u == (UserData { bg_color_index: index, ..self }),
    {
        UserData { bg_color_index: index, ..self }
    }

    /// Sets whether the display is strengthened.
    pub fn set_strong(self, strong: bool) -> (u: UserData)
        ensures
            u == (UserData { strong, ..self }),
    {
        UserData { strong, ..self }
    }

    /// Sets the underline.
    pub fn set_underline(self, underline: bool) -> (u: UserData)
        ensures
            u == (UserData { underline, ..self }),
    {
        UserData { underline, ..self }
    }

    /// Sets whether the segment can be clicked.
    pub fn set_clickable(self, clickable: bool) -> (u: UserData)
        ensures
            u == (UserData { clickable, ..self }),
    {
        UserData { clickable, ..self }
    }

    /// Sets blinking.
    pub fn set_blink(self, blink: bool) -> (u: UserData)
        ensures
            u == (UserData { blink, ..self }),
    {
        UserData { blink, ..self }
    }

    /// Sets the disabled mark.
    pub fn set_disabled(self, disabled: bool) -> (u: UserData)
        ensures
            u == (UserData { disabled, ..self }),
    {
        UserData { disabled, ..self }
    }

    /// Gives the segment an action: it becomes clickable, underlined and not
    /// expired.
    pub fn set_action(self, action: Action) -> (u: UserData)
        ensures
            u == (UserData { action: Some(action), clickable: true, underline: true, expired: false, ..self }),
    {
        UserData { action: Some(action), clickable: true, underline: true, expired: false, ..self }
    }

    /// Replaces the action: with one, the segment becomes clickable,
    /// underlined and not expired; without, it becomes plain and expired.
    pub fn change_action(&mut self, action: Option<Action>)
        ensures
            *final(self) == if action is Some {
                UserData { action, clickable: true, underline: true, expired: false, ..*old(self) }
            } else {
                UserData { action: None, clickable: false, underline: false, expired: true, ..*old(self) }
            },
    {
        if action.is_some() {
            self.action = action;
            self.clickable = true;
            self.underline = true;
            self.expired = false;
        } else {
            self.action = None;
            self.clickable = false;
            self.underline = false;
            self.expired = true;
        }
    }

    /// Sets the text; on an image it is shown centered over the image.
    pub fn set_text(self, text: String) -> (u: UserData)
        ensures
            u == (UserData { text, ..self }),
    {
        UserData { text, ..self }
    }

    /// Sets where the image was saved.
    pub fn set_image_file_path(self, path: Option<PathBuf>) -> (u: UserData)
        ensures
            u == (UserData { image_file_path: path, ..self }),
    {
        UserData { image_file_path: path, ..self }
    }
}

/// A data segment as the panels keep it.
#[derive(Debug)]
pub struct RichData {
    pub id: i64,
    pub text: Vec<char>,
    pub font: Font,
    pub font_size: i32,
    pub fg_color: Color,
    pub bg_color: Option<Color>,
    pub underline: bool,
    pub clickable: bool,
    pub expired: bool,
    pub blink: bool,
    pub disabled: bool,
    pub strike_through: bool,
    pub line_height: i32,
    /// Top and bottom y and start and end x of the segment on the panel.
    pub v_bounds: (i32, i32, i32, i32),
    /// The single-line pieces the segment was cut into.
    pub line_pieces: Vec<LinePiece>,
    pub data_type: DataType,
    /// Pixel data, laid out as `image_color_depth`.
    pub image: Option<Vec<u8>>,
    pub image_color_depth: ColorDepth,
    pub image_width: i32,
    pub image_height: i32,
    pub image_target_width: i32,
    pub image_target_height: i32,
    /// The gray variant shown while disabled.
    pub image_inactive: Option<Vec<u8>>,
    pub image_src_url: Option<String>,
    pub image_file_path: Option<PathBuf>,
    /// Horizontal space between the pieces of the segment.
    pub piece_spacing: i32,
    /// Character ranges of the search hits in the text.
    pub search_result_positions: Option<Vec<(usize, usize)>>,
    /// Which search hit has the focus.
    pub search_highlight_pos: Option<usize>,
    pub action: Option<Action>,
    /// Whether the segment belongs to the positioning board.
    pub rewrite_board_data: bool,
}

/// The contents of a kept segment.
#[verifier::ext_equal]
pub struct RichDataView {
    pub id: i64,
    pub text: Seq<char>,
    pub font: Font,
    pub font_size: i32,
    pub fg_color: Color,
    pub bg_color: Option<Color>,
    pub underline: bool,
    pub clickable: bool,
    pub expired: bool,
    pub blink: bool,
    pub disabled: bool,
    pub strike_through: bool,
    pub line_height: i32,
    pub v_bounds: (i32, i32, i32, i32),
    pub line_pieces: Seq<LinePieceView>,
    pub data_type: DataType,
    pub image: Option<Seq<u8>>,
    pub image_color_depth: ColorDepth,
    pub image_width: i32,
    pub image_height: i32,
    pub image_target_width: i32,
    pub image_target_height: i32,
    pub image_inactive: Option<Seq<u8>>,
    pub image_src_url: Option<Seq<char>>,
    pub image_file_path: Option<PathBuf>,
    pub piece_spacing: i32,
    pub search_result_positions: Option<Seq<(usize, usize)>>,
    pub search_highlight_pos: Option<usize>,
    pub action: Option<ActionView>,
    pub rewrite_board_data: bool,
}

/// The view of optional bytes.
pub open spec fn opt_bytes_view(b: Option<Vec<u8>>) -> Option<Seq<u8>> {
    match b {
        Some(v) => Some(v@),
        None => None,
    }
}

/// The view of optional character ranges.
pub open spec fn opt_ranges_view(b: Option<Vec<(usize, usize)>>) -> Option<Seq<(usize, usize)>> {
    match b {
        Some(v) => Some(v@),
        None => None,
    }
}

impl View for RichData {
    type V = RichDataView;

    open spec fn view(&self) -> RichDataView {
        RichDataView {
            id: self.id,
            text: self.text@,
            font: self.font,
            font_size: self.font_size,
            fg_color: self.fg_color,
            bg_color: self.bg_color,
            underline: self.underline,
            clickable: self.clickable,
            expired: self.expired,
            blink: self.blink,
            disabled: self.disabled,
            strike_through: self.strike_through,
            line_height: self.line_height,
            v_bounds: self.v_bounds,
            line_pieces: self.line_pieces@.map_values(|p: LinePiece| p@),
            data_type: self.data_type,
            image: opt_bytes_view(self.image),
            image_color_depth: self.image_color_depth,
            image_width: self.image_width,
            image_height: self.image_height,
            image_target_width: self.image_target_width,
            image_target_height: self.image_target_height,
            image_inactive: opt_bytes_view(self.image_inactive),
            image_src_url: opt_str_view(self.image_src_url),
            image_file_path: self.image_file_path,
            piece_spacing: self.piece_spacing,
            search_result_positions: opt_ranges_view(self.search_result_positions),
            search_highlight_pos: self.search_highlight_pos,
            action: opt_action_view(self.action),
            rewrite_board_data: self.rewrite_board_data,
        }
    }
}

/// A copy of optional bytes.
pub fn copy_opt_bytes(b: &Option<Vec<u8>>) -> (r: Option<Vec<u8>>)
    ensures
        opt_bytes_view(r) == opt_bytes_view(*b),
{
    match b {
        Some(v) => {
            let c = v.clone();
            assert(c@ =~= v@);
            Some(c)
        },
        None => None,
    }
}

/// A copy of optional character ranges.
pub fn copy_opt_ranges(b: &Option<Vec<(usize, usize)>>) -> (r: Option<Vec<(usize, usize)>>)
    ensures
        opt_ranges_view(r) == opt_ranges_view(*b),
{
    match b {
        Some(v) => {
            let mut c: Vec<(usize, usize)> = Vec::new();
            let mut i: usize = 0;
            while i < v.len()
                invariant
                    i <= v@.len(),
                    c@ =~= v@.subrange(0, i as int),
                decreases v@.len() - i,
            {
                c.push(v[i]);
                i = i + 1;
            }
            assert(v@.subrange(0, v@.len() as int) =~= v@);
            Some(c)
        },
        None => None,
    }
}

/// A copy of a sequence of pieces.
pub fn copy_pieces(ps: &Vec<LinePiece>) -> (r: Vec<LinePiece>)
    ensures
        r@.map_values(|p: LinePiece| p@) == ps@.map_values(|p: LinePiece| p@),
{
    let mut out: Vec<LinePiece> = Vec::new();
    let mut i: usize = 0;
    while i < ps.len()
        invariant
            i <= ps@.len(),
            out@.len() == i,
            forall|k: int| 0 <= k < i ==> #[trigger] out@[k]@ == ps@[k]@,
        decreases ps@.len() - i,
    {
        out.push(ps[i].duplicate());
        i = i + 1;
    }
    assert(out@.map_values(|p: LinePiece| p@) =~= ps@.map_values(|p: LinePiece| p@));
    out
}

/// The image fields a segment takes from its image data: the data, its
/// depth and size, or a black board of the target size without one.
pub open spec fn image_fields(image: Option<RgbImageData>, tw: i32, th: i32) -> (Option<Seq<u8>>, ColorDepth, i32, i32) {
    match image {
        Some(img) => (Some(img.data@), img.depth, img.w, img.h),
        None => (Some(Seq::new((tw * th) as nat, |i: int| 0u8)), ColorDepth::L8, tw, th),
    }
}

impl RichData {
    /// A copy of this segment.
    pub fn duplicate(&self) -> (r: RichData)
        ensures
            r@ == self@,
    {
        let text = self.text.clone();
        assert(text@ =~= self.text@);
        RichData {
            id: self.id,
            text,
            font: self.font,
            font_size: self.font_size,
            fg_color: self.fg_color,
            bg_color: self.bg_color,
            underline: self.underline,
            clickable: self.clickable,
            expired: self.expired,
            blink: self.blink,
            disabled: self.disabled,
            strike_through: self.strike_through,
            line_height: self.line_height,
            v_bounds: self.v_bounds,
            line_pieces: copy_pieces(&self.line_pieces),
            data_type: self.data_type,
            image: copy_opt_bytes(&self.image),
            image_color_depth: self.image_color_depth,
            image_width: self.image_width,
            image_height: self.image_height,
            image_target_width: self.image_target_width,
            image_target_height: self.image_target_height,
            image_inactive: copy_opt_bytes(&self.image_inactive),
            image_src_url: copy_opt_string(&self.image_src_url),
            image_file_path: match &self.image_file_path {
                Some(p) => Some(p.clone()),
                None => None,
            },
            piece_spacing: self.piece_spacing,
            search_result_positions: copy_opt_ranges(&self.search_result_positions),
            search_highlight_pos: self.search_highlight_pos,
            action: copy_opt_action(&self.action),
            rewrite_board_data: self.rewrite_board_data,
        }
    }

    /// The segment kept for a segment handed in. A text keeps its text,
    /// style and action; an image also keeps its pixel data (a black board of
    /// the target size when there is none), sizes and sources. Neither is
    /// disabled, cut into pieces or placed yet.
    pub fn from_user_data(data: UserData) -> (r: RichData)
        requires
            data.data_type == DataType::Image && data.image is None ==>
                data.image_target_width >= 0 && data.image_target_height >= 0
                && data.image_target_width * data.image_target_height <= usize::MAX,
        ensures
            r.id == data.id,
            r@.text == data.text@,
            r.font == data.font,
            r.font_size == data.font_size,
            r.fg_color == data.fg_color,
            r.bg_color == data.bg_color,
            r.underline == data.underline,
            r.clickable == data.clickable,
            r.expired == data.expired,
            r.blink == data.blink,
            !r.disabled,
            r.strike_through == data.strike_through,
            r.line_height == 1,
            r.v_bounds == (0i32, 0i32, 0i32, 0i32),
            r.line_pieces@.len() == 0,
            r.data_type == data.data_type,
            r@.image_inactive is None,
            r.piece_spacing == 0,
            r@.search_result_positions is None,
            r.search_highlight_pos is None,
            r.action == data.action,
            !r.rewrite_board_data,
            data.data_type == DataType::Text ==> {
                &&& r@.image is None
                &&& r.image_color_depth == ColorDepth::L8
                &&& r.image_width == 0 && r.image_height == 0
                &&& r.image_target_width == 0 && r.image_target_height == 0
                &&& r@.image_src_url is None
                &&& r.image_file_path is None
            },
            data.data_type == DataType::Image ==> {
                let f = image_fields(data.image, data.image_target_width, data.image_target_height);
                &&& r@.image == f.0
                &&& r.image_color_depth == f.1
                &&& r.image_width == f.2
                &&& r.image_height == f.3
                &&& r.image_target_width == data.image_target_width
                &&& r.image_target_height == data.image_target_height
                &&& r.image_src_url == data.image_src_url
                &&& r.image_file_path == data.image_file_path
            },
    {
        let text = chars_of(data.text.as_str());
        match data.data_type {
            DataType::Text => {
                RichData {
                    id: data.id,
                    text,
                    font: data.font,
                    font_size: data.font_size,
                    fg_color: data.fg_color,
                    bg_color: data.bg_color,
                    underline: data.underline,
                    clickable: data.clickable,
                    expired: data.expired,
                    blink: data.blink,
                    disabled: false,
                    strike_through: data.strike_through,
                    line_height: 1,
                    v_bounds: (0, 0, 0, 0),
                    line_pieces: Vec::new(),
                    data_type: DataType::Text,
                    image: None,
                    image_color_depth: ColorDepth::L8,
                    image_width: 0,
                    image_height: 0,
                    image_target_width: 0,
                    image_target_height: 0,
                    image_inactive: None,
                    image_src_url: None,
                    image_file_path: None,
                    piece_spacing: 0,
                    search_result_positions: None,
                    search_highlight_pos: None,
                    action: data.action,
                    rewrite_board_data: false,
                }
            },
            DataType::Image => {
                let (rgb_data, depth, image_width, image_height) = image_to_rgb_data(&data.image, data.image_target_width, data.image_target_height);
                RichData {
                    id: data.id,
                    text,
                    font: data.font,
                    font_size: data.font_size,
                    fg_color: data.fg_color,
                    bg_color: data.bg_color,
                    underline: data.underline,
                    clickable: data.clickable,
                    expired: data.expired,
                    blink: data.blink,
                    disabled: false,
                    strike_through: data.strike_through,
                    line_height: 1,
                    v_bounds: (0, 0, 0, 0),
                    line_pieces: Vec::new(),
                    data_type: DataType::Image,
                    image: rgb_data,
                    image_color_depth: depth,
                    image_width,
                    image_height,
                    image_target_width: data.image_target_width,
                    image_target_height: data.image_target_height,
                    image_inactive: None,
                    image_src_url: data.image_src_url,
                    image_file_path: data.image_file_path,
                    piece_spacing: 0,
                    search_result_positions: None,
                    search_highlight_pos: None,
                    action: data.action,
                    rewrite_board_data: false,
                }
            },
        }
    }

    /// The data handed out for a kept segment, as when the user clicks it:
    /// its identifier, text, style, state, sizes, sources and action; the
    /// numbers and custom marks are zero and false, and the image is not
    /// handed out.
    pub fn to_user_data(&self) -> (u: UserData)
        ensures
            u.id == self.id,
            u.text@ == self.text@,
            u.font == self.font,
            u.font_size == self.font_size,
            u.fg_color == self.fg_color,
            u.bg_color == self.bg_color,
            u.underline == self.underline,
            u.fg_color_index == 0 && u.bg_color_index == 0 && !u.strong && u.font_size_index == 0,
            u.clickable == self.clickable,
            u.expired == self.expired,
            u.blink == self.blink,
            u.disabled == self.disabled,
            u.strike_through == self.strike_through,
            u.data_type == self.data_type,
            u.image is None,
            u.image_width == self.image_width,
            u.image_height == self.image_height,
            u.image_target_width == self.image_target_width,
            u.image_target_height == self.image_target_height,
            opt_str_view(u.image_src_url) == opt_str_view(self.image_src_url),
            u.image_file_path == self.image_file_path,
            !u.custom_font_text && !u.custom_font_color,
            opt_action_view(u.action) == opt_action_view(self.action),
    {
        UserData {
            id: self.id,
            text: string_of(self.text.as_slice()),
            font: self.font,
            font_size: self.font_size,
            fg_color: self.fg_color,
            bg_color: self.bg_color,
            underline: self.underline,
            fg_color_index: 0,
            bg_color_index: 0,
            strong: false,
            font_size_index: 0,
            clickable: self.clickable,
            expired: self.expired,
            blink: self.blink,
            disabled: self.disabled,
            strike_through: self.strike_through,
            data_type: self.data_type,
            image: None,
            image_width: self.image_width,
            image_height: self.image_height,
            image_target_width: self.image_target_width,
            image_target_height: self.image_target_height,
            image_src_url: copy_opt_string(&self.image_src_url),
            image_file_path: match &self.image_file_path {
                Some(p) => Some(p.clone()),
                None => None,
            },
            custom_font_text: false,
            custom_font_color: false,
            action: copy_opt_action(&self.action),
        }
    }

    /// An empty text segment with a fresh identifier and font size 0.
    pub fn empty() -> (r: RichData)
        ensures
            r@.text == Seq::<char>::empty(),
            r.font.bits == 0,
            r.font_size == 0,
            r.fg_color == (Color { r: 255, g: 255, b: 255 }),
            r.bg_color is None,
            !r.underline && !r.clickable && !r.expired && !r.blink && !r.disabled && !r.strike_through,
            r.line_height == 1,
            r.v_bounds == (0i32, 0i32, 0i32, 0i32),
            r.line_pieces@.len() == 0,
            r.data_type == DataType::Text,
            r@.image is None && r@.image_inactive is None,
            r.image_color_depth == ColorDepth::L8,
            r.image_width == 0 && r.image_height == 0 && r.image_target_width == 0 && r.image_target_height == 0,
            r@.image_src_url is None && r.image_file_path is None,
            r.piece_spacing == 0,
            r@.search_result_positions is None && r.search_highlight_pos is None,
            r.action is None,
            !r.rewrite_board_data,
    {
        RichData {
            id: next_id(),
            text: Vec::new(),
            font: Font::helvetica(),
            font_size: 0,
            fg_color: white(),
            bg_color: None,
            underline: false,
            clickable: false,
            expired: false,
            blink: false,
            disabled: false,
            strike_through: false,
            line_height: 1,
            v_bounds: (0, 0, 0, 0),
            line_pieces: Vec::new(),
            data_type: DataType::Text,
            image: None,
            image_color_depth: ColorDepth::L8,
            image_width: 0,
            image_height: 0,
            image_target_width: 0,
            image_target_height: 0,
            image_inactive: None,
            image_src_url: None,
            image_file_path: None,
            piece_spacing: 0,
            search_result_positions: None,
            search_highlight_pos: None,
            action: None,
            rewrite_board_data: false,
        }
    }

    /// Sets the space between the pieces of the segment.
    pub fn set_piece_spacing(&mut self, piece_spacing: i32)
        ensures
            final(self)@ == (RichDataView { piece_spacing, ..old(self)@ }),
    {
        self.piece_spacing = piece_spacing;
    }

    /// Sets the top and bottom y and the start and end x of the segment.
    pub fn set_v_bounds(&mut self, top_y: i32, bottom_y: i32, start_x: i32, end_x: i32)
        ensures
            final(self)@ == (RichDataView { v_bounds: (top_y, bottom_y, start_x, end_x), ..old(self)@ }),
    {
        self.v_bounds = (top_y, bottom_y, start_x, end_x);
    }

    /// Whether the segment holds no pixel data.
    pub fn is_text_data(&self) -> (b: bool)
        ensures
            b == (self.image is None),
    {
        self.image.is_none()
    }

    /// Whether the segment reacts to clicks: clickable and not expired.
    pub fn is_clickable(&self) -> (b: bool)
        ensures
            b == (self.clickable && !self.expired),
    {
        self.clickable && !self.expired
    }

    /// Sets whether the segment can be clicked.
    pub fn set_clickable(&mut self, clickable: bool)
        ensures
            final(self)@ == (RichDataView { clickable, ..old(self)@ }),
    {
        self.clickable = clickable;
    }

    /// Whether the segment expired.
    pub fn is_expired(&self) -> (b: bool)
        ensures
            b == self.expired,
    {
        self.expired
    }

    /// Sets whether the segment expired.
    pub fn set_expire(&mut self, expire: bool)
        ensures
            final(self)@ == (RichDataView { expired: expire, ..old(self)@ }),
    {
        self.expired = expire;
    }

    /// Replaces the text.
    pub fn set_text_data(&mut self, text_data: &str)
        ensures
            final(self)@ == (RichDataView { text: text_data@, ..old(self)@ }),
    {
        self.text = chars_of(text_data);
    }

    /// Whether the vertical bounds of the segment reach into the band from
    /// `top_y` to `bottom_y`.
    pub fn is_visible(&self, top_y: i32, bottom_y: i32) -> (b: bool)
        ensures
            b == !(self.v_bounds.1 < top_y || self.v_bounds.0 > bottom_y),
    {
        !(self.v_bounds.1 < top_y || self.v_bounds.0 > bottom_y)
    }
}

} // verus!
