//! The records the widgets exchange with the application: image loading
//! requests and their outcome, paging requests, resize and image events,
//! and the edits of a document stream with their control-sequence text.

use vstd::prelude::*;
use std::path::PathBuf;
use crate::action::{Action, ActionItem, ActionView};
use crate::data::UserData;
use crate::image::RgbImageData;
use crate::options::RichDataOptions;
use crate::text::{chars_of, decimal, push_decimal, string_of};
use crate::IMAGE_PADDING_V;

verus! {

/// Command of the image menu entry that reloads the image.
pub const MXP_IMAGE_CONTEXT_MENU_REFRESH: &'static str = "refresh";
/// Command of the image menu entry that saves the image elsewhere.
pub const MXP_IMAGE_CONTEXT_MENU_SAVE_AS: &'static str = "save_as";
/// Command of the image menu entry that copies the image address.
pub const MXP_IMAGE_CONTEXT_MENU_COPY_URL: &'static str = "copy_url";

/// A request to load the image of segment `data_id` from a file.
#[derive(Debug, Clone)]
pub struct LoadImageOption {
    pub data_id: i64,
    pub file_path: Option<String>,
    pub target_width: i32,
    pub target_height: i32,
}

impl LoadImageOption {
    /// A request with the given fields.
    pub fn new(data_id: i64, file_path: Option<String>, target_width: i32, target_height: i32) -> (o: LoadImageOption)
        ensures
            o == (LoadImageOption { data_id, file_path, target_width, target_height }),
    {
        LoadImageOption { data_id, file_path, target_width, target_height }
    }
}

/// A paging request.
#[derive(Debug, Clone, Copy, PartialEq, Eq, Structural)]
pub enum PageOptions {
    /// The next page, after the record with this id, the last of the
    /// current page.
    NextPage(i64),
    /// The previous page, before the record with this id, the first of the
    /// current page.
    PrevPage(i64),
}

/// The sizes of the main view before and after a resize.
#[derive(Debug, Clone, Copy, PartialEq, Eq, Structural)]
pub struct ShapeData {
    pub old_width: i32,
    pub old_height: i32,
    pub new_width: i32,
    pub new_height: i32,
    /// Columns of one line in the default font.
    pub new_cols: i32,
    /// Lines the view shows in full in the default font.
    pub new_rows: i32,
}

impl ShapeData {
    /// A record with the given sizes.
    pub fn new(old_width: i32, old_height: i32, new_width: i32, new_height: i32, new_cols: i32, new_rows: i32) -> (s: ShapeData)
        ensures
            s == (ShapeData { old_width, old_height, new_width, new_height, new_cols, new_rows }),
    {
        ShapeData { old_width, old_height, new_width, new_height, new_cols, new_rows }
    }
}

/// A click on an image.
#[derive(Debug)]
pub struct ImageEventData {
    /// Where the click was, relative to the top left of the image.
    pub click_point: (i32, i32),
    /// Where the image came from.
    pub src: Option<String>,
    /// The segment the image belongs to.
    pub data_id: i64,
    /// The command picked.
    pub act: String,
    pub file: Option<PathBuf>,
    /// The size it is shown at.
    pub target_size: (i32, i32),
}

impl ImageEventData {
    /// A record with the given fields.
    pub fn new(click_point: (i32, i32), src: Option<String>, data_id: i64, act: String, file: Option<PathBuf>, target_size: (i32, i32)) -> (e: ImageEventData)
        ensures
            e == (ImageEventData { click_point, src, data_id, act, file, target_size }),
    {
        ImageEventData { click_point, src, data_id, act, file, target_size }
    }
}

/// Where a click at (`app_x`, `app_y`) in the window falls on the image of
/// a segment with bounds `v_bounds`, shown in a view at (`view_x`,
/// `view_y`) scrolled down by `scroll_y`: from the image's left edge, and
/// from its top below the image padding.
pub open spec fn spec_image_click_point(app_x: int, app_y: int, view_x: int, view_y: int, scroll_y: int, v_bounds: (i32, i32, i32, i32)) -> (int, int) {
    (app_x - view_x - v_bounds.2, app_y - view_y + scroll_y - v_bounds.0 - IMAGE_PADDING_V)
}

/// The point of a click on an image, as `spec_image_click_point` says.
pub fn image_click_point(app_x: i32, app_y: i32, view_x: i32, view_y: i32, scroll_y: i32, v_bounds: (i32, i32, i32, i32)) -> (r: (i32, i32))
    requires
        i32::MIN <= spec_image_click_point(app_x as int, app_y as int, view_x as int, view_y as int, scroll_y as int, v_bounds).0 <= i32::MAX,
        i32::MIN <= spec_image_click_point(app_x as int, app_y as int, view_x as int, view_y as int, scroll_y as int, v_bounds).1 <= i32::MAX,
    ensures
        (r.0 as int, r.1 as int) == spec_image_click_point(app_x as int, app_y as int, view_x as int, view_y as int, scroll_y as int, v_bounds),
{
    let x: i64 = app_x as i64 - view_x as i64 - v_bounds.2 as i64;
    let y: i64 = app_y as i64 - view_y as i64 + scroll_y as i64 - v_bounds.0 as i64 - IMAGE_PADDING_V as i64;
    (x as i32, y as i32)
}

/// What a callback of the widgets receives.
#[derive(Debug)]
pub enum CallbackData {
    /// A segment the user interacted with.
    Data(UserData),
    /// The main view was resized.
    Shape(ShapeData),
    /// An image was clicked.
    Image(ImageEventData),
}

/// A datum or an edit of a document stream. `C` is the callback that takes
/// a cursor position report.
#[derive(Debug, Clone)]
pub enum DocEditType<C> {
    Data(UserData),
    EraseInLine(u8),
    EraseInDisplay(u8),
    CursorUp(usize),
    CursorDown(usize),
    CursorBack(usize),
    CursorForward(usize),
    CursorNextLine(usize),
    CursorPreviousLine(usize),
    /// Cursor to column n.
    CursorHorizontalAbsolute(usize),
    /// Cursor to row n and column m.
    CursorAbsolute(usize, usize),
    /// Shows or hides the cursor.
    ToggleCursor(String, bool),
    /// Expires the kept data of a category.
    Expire(String),
    /// Who places the cursor: 0 the remote side, 1 the local side, 2 output
    /// resumes on any character, 3 output resumes on control-Q.
    RemoteFlowControl(u8),
    /// Reports the cursor position through the callback.
    CursorPosReport(C),
    /// The end of a positioning board stream.
    PanelFlowEnd,
}

/// `ESC [ n` followed by `end`.
pub open spec fn csi(n: nat, end: char) -> Seq<char> {
    seq!['\x1b', '['] + decimal(n) + seq![end]
}

/// The text of an edit: the text of a datum, the control sequence of a
/// cursor move or erase, and a description of the other edits, where
/// `report` describes the callback of a position report.
pub open spec fn edit_text<C>(e: DocEditType<C>, report: Seq<char>) -> Seq<char> {
    match e {
        DocEditType::Data(ud) => ud.text@,
        DocEditType::CursorUp(n) => csi(n as nat, 'A'),
        DocEditType::CursorDown(n) => csi(n as nat, 'B'),
        DocEditType::CursorForward(n) => csi(n as nat, 'C'),
        DocEditType::CursorBack(n) => csi(n as nat, 'D'),
        DocEditType::CursorNextLine(n) => csi(n as nat, 'E'),
        DocEditType::CursorPreviousLine(n) => csi(n as nat, 'F'),
        DocEditType::CursorHorizontalAbsolute(n) => csi(n as nat, 'G'),
        DocEditType::CursorAbsolute(n, m) => seq!['\x1b', '['] + decimal(n as nat) + seq![';'] + decimal(m as nat) + seq!['H'],
        DocEditType::EraseInDisplay(n) => csi(n as nat, 'J'),
        DocEditType::EraseInLine(n) => csi(n as nat, 'K'),
        DocEditType::ToggleCursor(param, show) => seq!['\x1b', '['] + param@ + seq![if show { 'h' } else { 'l' }],
        DocEditType::Expire(target) => "<EXPIRE "@ + target@ + seq!['>'],
        DocEditType::RemoteFlowControl(code) => "远程流控制子协商开关："@ + decimal(code as nat) + seq!['>'],
        DocEditType::CursorPosReport(_) => "汇报光标位置 "@ + report,
        DocEditType::PanelFlowEnd => "面板流结束"@,
    }
}

/// Appends the characters of `s` to `out`.
fn push_all(out: &mut Vec<char>, s: &Vec<char>)
    ensures
        final(out)@ == old(out)@ + s@,
{
    let mut i: usize = 0;
    while i < s.len()
        invariant
            i <= s@.len(),
            out@ == old(out)@ + s@.subrange(0, i as int),
        decreases s@.len() - i,
    {
        out.push(s[i]);
        i = i + 1;
        assert(out@ =~= old(out)@ + s@.subrange(0, i as int));
    }
    assert(s@.subrange(0, s@.len() as int) =~= s@);
}

/// `ESC [ n` followed by `end`, appended to `out`.
fn push_csi(out: &mut Vec<char>, n: usize, end: char)
    ensures
        final(out)@ == old(out)@ + csi(n as nat, end),
{
    out.push('\x1b');
    out.push('[');
    push_decimal(out, n);
    out.push(end);
    assert(out@ =~= old(out)@ + csi(n as nat, end));
}

impl<C> DocEditType<C> {
    /// The text of the edit, as `edit_text` says; `report` describes the
    /// callback of a position report.
    pub fn format_with(&self, report: &str) -> (s: String)
        ensures
            s@ == edit_text(*self, report@),
    {
        let mut out: Vec<char> = Vec::new();
        match self {
            DocEditType::Data(ud) => {
                let t = chars_of(ud.text.as_str());
                push_all(&mut out, &t);
            },
            DocEditType::CursorUp(n) => push_csi(&mut out, *n, 'A'),
            DocEditType::CursorDown(n) => push_csi(&mut out, *n, 'B'),
            DocEditType::CursorForward(n) => push_csi(&mut out, *n, 'C'),
            DocEditType::CursorBack(n) => push_csi(&mut out, *n, 'D'),
            DocEditType::CursorNextLine(n) => push_csi(&mut out, *n, 'E'),
            DocEditType::CursorPreviousLine(n) => push_csi(&mut out, *n, 'F'),
            DocEditType::CursorHorizontalAbsolute(n) => push_csi(&mut out, *n, 'G'),
            DocEditType::CursorAbsolute(n, m) => {
                out.push('\x1b');
                out.push('[');
                push_decimal(&mut out, *n);
                out.push(';');
                push_decimal(&mut out, *m);
                out.push('H');
            },
            DocEditType::EraseInDisplay(n) => push_csi(&mut out, *n as usize, 'J'),
            DocEditType::EraseInLine(n) => push_csi(&mut out, *n as usize, 'K'),
            DocEditType::ToggleCursor(param, show) => {
                out.push('\x1b');
                out.push('[');
                let p = chars_of(param.as_str());
                push_all(&mut out, &p);
                out.push(if *show { 'h' } else { 'l' });
            },
            DocEditType::Expire(target) => {
                let head = chars_of("<EXPIRE ");
                push_all(&mut out, &head);
                let t = chars_of(target.as_str());
                push_all(&mut out, &t);
                out.push('>');
            },
            DocEditType::RemoteFlowControl(code) => {
                let head = chars_of("远程流控制子协商开关：");
                push_all(&mut out, &head);
                push_decimal(&mut out, *code as usize);
                out.push('>');
            },
            DocEditType::CursorPosReport(_) => {
                let head = chars_of("汇报光标位置 ");
                push_all(&mut out, &head);
                let r = chars_of(report);
                push_all(&mut out, &r);
            },
            DocEditType::PanelFlowEnd => {
                let t = chars_of("面板流结束");
                push_all(&mut out, &t);
            },
        }
        assert(out@ =~= edit_text(*self, report@));
        string_of(out.as_slice())
    }
}

/// What came of reading and decoding an image file.
#[derive(Debug)]
pub enum ImageLoad {
    /// The image, converted to RGB.
    Loaded(RgbImageData),
    /// The file could not be read or decoded.
    DecodeFailed,
    /// The image could not be converted to RGB.
    ConvertFailed,
}

/// The path of a file name, from `PathBuf::from` of std.
pub uninterp spec fn path_from(s: Seq<char>) -> PathBuf;

/// `PathBuf::from` of std: the path is a function of the string alone.
#[verifier::external_body]
fn path_of(s: String) -> (p: PathBuf)
    ensures
        p == path_from(s@),
{
    PathBuf::from(s)
}

/// Whether a file name ends in `.svg`, in any case.
pub open spec fn is_svg_name(s: Seq<char>) -> bool {
    s.len() >= 4 && {
        let t = s.subrange(s.len() - 4, s.len() as int);
        &&& t[0] == '.'
        &&& (t[1] == 's' || t[1] == 'S')
        &&& (t[2] == 'v' || t[2] == 'V')
        &&& (t[3] == 'g' || t[3] == 'G')
    }
}

/// Whether the file is an SVG image by its name, which decides how it is
/// loaded.
pub fn is_svg_path(file_path: &str) -> (b: bool)
    ensures
        b == is_svg_name(file_path@),
{
    let s = chars_of(file_path);
    let n = s.len();
    if n < 4 {
        return false;
    }
    let (a, b, c, d) = (s[n - 4], s[n - 3], s[n - 2], s[n - 1]);
    a == '.' && (b == 's' || b == 'S') && (c == 'v' || c == 'V') && (d == 'g' || d == 'G')
}

/// The menu of a loaded image: reload, copy the address, save elsewhere.
pub open spec fn image_menu() -> Seq<(Seq<char>, Seq<char>)> {
    seq![("刷新"@, "refresh"@), ("复制地址"@, "copy_url"@), ("另存为"@, "save_as"@)]
}

/// Whether `o` leaves the image, its sizes and depth, the file path and the
/// action of a segment alone.
pub open spec fn leaves_image_alone(o: RichDataOptions) -> bool {
    &&& o.image is None && o.image_width is None && o.image_height is None
    &&& o.image_target_width is None && o.image_target_height is None && o.image_color_depth is None
    &&& o.image_file_path is None && o.action is None
}

/// The changes that loading the image of `load_opt` brings to its segment,
/// given what came of reading the file: with no file, the text "save
/// failed"; where the file could not be decoded, the text "decoding
/// failed"; where conversion failed, nothing; else the image at the target
/// size, an empty text, the file path, and the image menu.
pub fn load_image_options(load_opt: LoadImageOption, outcome: ImageLoad) -> (o: RichDataOptions)
    ensures
        o.id == load_opt.data_id,
        o.clickable is None && o.underline is None && o.expired is None,
        o.fg_color is None && o.bg_color is None && o.strike_through is None && o.blink is None,
        o.disabled is None,
        match load_opt.file_path {
            None => o.text is Some && o.text->0@ == "save failed"@ && leaves_image_alone(o),
            Some(path) => match outcome {
                ImageLoad::DecodeFailed => o.text is Some && o.text->0@ == "decoding failed"@ && leaves_image_alone(o),
                ImageLoad::ConvertFailed => o.text is None && leaves_image_alone(o),
                ImageLoad::Loaded(img) => {
                    &&& o.text is Some && o.text->0@ == Seq::<char>::empty()
                    &&& o.image is Some && o.image->0@ == img.data@
                    &&& o.image_width == Some(img.w)
                    &&& o.image_height == Some(img.h)
                    &&& o.image_color_depth == Some(img.depth)
                    &&& o.image_target_width == Some(load_opt.target_width)
                    &&& o.image_target_height == Some(load_opt.target_height)
                    &&& o.image_file_path == Some(path_from(path@))
                    &&& o.action is Some
                    &&& o.action->0@ == (ActionView {
                        title: Seq::<char>::empty(),
                        kind: 0,
                        items: image_menu(),
                        active: None,
                        category: None,
                    })
                },
            },
        },
{
    let opt = RichDataOptions::new(load_opt.data_id);
    match load_opt.file_path {
        Some(file_path) => {
            match outcome {
                ImageLoad::Loaded(img) => {
                    let mut new_action = Action::empty();
                    new_action.items.push(ActionItem::new("刷新", MXP_IMAGE_CONTEXT_MENU_REFRESH));
                    new_action.items.push(ActionItem::new("复制地址", MXP_IMAGE_CONTEXT_MENU_COPY_URL));
                    new_action.items.push(ActionItem::new("另存为", MXP_IMAGE_CONTEXT_MENU_SAVE_AS));
                    assert(new_action@.items =~= image_menu());
                    let path = path_of(file_path);
                    opt.image(Some(img), load_opt.target_width, load_opt.target_height)
                        .text(String::new())
                        .image_file_path(path)
                        .change_action(new_action)
                },
                ImageLoad::DecodeFailed => opt.text(String::from_str("decoding failed")),
                ImageLoad::ConvertFailed => opt,
            }
        },
        None => opt.text(String::from_str("save failed")),
    }
}

} // verus!
