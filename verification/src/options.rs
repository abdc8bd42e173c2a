//! Options that change a kept segment, and the operations that apply them,
//! disable segments or expire them by category.

use vstd::prelude::*;
use std::path::PathBuf;
use crate::action::{Action, ActionView, opt_action_view, in_category, action_in_category};
use crate::color::Color;
use crate::data::{DataType, RichData, RichDataView, opt_bytes_view};
use crate::image::{ColorDepth, RgbImageData, bytes_per_pixel, gray_image, spec_gray_image, image_to_rgb_data};
use crate::text::chars_of;

verus! {

/// Changes to apply to the kept segment with identifier `id`; a `None`
/// field leaves the segment's field as it is.
#[derive(Debug, Clone)]
pub struct RichDataOptions {
    pub id: i64,
    pub clickable: Option<bool>,
    pub underline: Option<bool>,
    pub expired: Option<bool>,
    pub text: Option<String>,
    pub fg_color: Option<Color>,
    pub bg_color: Option<Color>,
    pub strike_through: Option<bool>,
    pub blink: Option<bool>,
    pub disabled: Option<bool>,
    pub image: Option<Vec<u8>>,
    pub image_width: Option<i32>,
    pub image_height: Option<i32>,
    pub image_target_width: Option<i32>,
    pub image_target_height: Option<i32>,
    pub image_color_depth: Option<ColorDepth>,
    /// Where the image was saved.
    pub image_file_path: Option<PathBuf>,
    pub action: Option<Action>,
}

impl RichDataOptions {
    /// Options for segment `id` that change nothing.
    pub fn new(id: i64) -> (o: RichDataOptions)
        ensures
            o.id == id,
            o.clickable is None && o.underline is None && o.expired is None && o.text is None,
            o.fg_color is None && o.bg_color is None && o.strike_through is None && o.blink is None,
            o.disabled is None && o.image is None && o.image_width is None && o.image_height is None,
            o.image_target_width is None && o.image_target_height is None && o.image_color_depth is None,
            o.image_file_path is None && o.action is None,
    {
        RichDataOptions {
            id,
            clickable: None,
            underline: None,
            expired: None,
            text: None,
            fg_color: None,
            bg_color: None,
            strike_through: None,
            blink: None,
            disabled: None,
            image: None,
            image_width: None,
            image_height: None,
            image_target_width: None,
            image_target_height: None,
            image_color_depth: None,
            image_file_path: None,
            action: None,
        }
    }

    /// Also sets whether the segment can be clicked.
    pub fn clickable(self, clickable: bool) -> (o: RichDataOptions)
        ensures
            o == (RichDataOptions { clickable: Some(clickable), ..self }),
    {
        RichDataOptions { clickable: Some(clickable), ..self }
    }

    /// Also sets the underline.
    pub fn underline(self, underline: bool) -> (o: RichDataOptions)
        ensures
            o == (RichDataOptions { underline: Some(underline), ..self }),
    {
        RichDataOptions { underline: Some(underline), ..self }
    }

    /// Also sets whether the segment expired.
    pub fn expired(self, expired: bool) -> (o: RichDataOptions)
        ensures
            o == (RichDataOptions { expired: Some(expired), ..self }),
    {
        RichDataOptions { expired: Some(expired), ..self }
    }

    /// Also sets the text.
    pub fn text(self, text: String) -> (o: RichDataOptions)
        ensures
            o == (RichDataOptions { text: Some(text), ..self }),
    {
        RichDataOptions { text: Some(text), ..self }
    }

    /// Also sets the foreground color.
    pub fn fg_color(self, fg_color: Color) -> (o: RichDataOptions)
        ensures
            o == (RichDataOptions { fg_color: Some(fg_color), ..self }),
    {
        RichDataOptions { fg_color: Some(fg_color), ..self }
    }

    /// Also sets the background color.
    pub fn bg_color(self, bg_color: Color) -> (o: RichDataOptions)
        ensures
            o == (RichDataOptions { bg_color: Some(bg_color), ..self }),
    {
        RichDataOptions { bg_color: Some(bg_color), ..self }
    }

    /// Also sets the strike-through line.
    pub fn strike_through(self, strike_through: bool) -> (o: RichDataOptions)
        ensures
            o == (RichDataOptions { strike_through: Some(strike_through), ..self }),
    {
        RichDataOptions { strike_through: Some(strike_through), ..self }
    }

    /// Also sets blinking.
    pub fn blink(self, blink: bool) -> (o: RichDataOptions)
        ensures
            o == (RichDataOptions { blink: Some(blink), ..self }),
    {
        RichDataOptions { blink: Some(blink), ..self }
    }

    /// Also sets the disabled mark.
    pub fn disabled(self, disabled: bool) -> (o: RichDataOptions)
        ensures
            o == (RichDataOptions { disabled: Some(disabled), ..self }),
    {
        RichDataOptions { disabled: Some(disabled), ..self }
    }

    /// Also sets the image: with an image, its data, depth and size and the
    /// target size; without one, only the target size.
    pub fn image(self, image: Option<RgbImageData>, target_width: i32, target_height: i32) -> (o: RichDataOptions)
        ensures
            match image {
                Some(img) => {
                    &&& opt_bytes_view(o.image) == Some(img.data@)
                    &&& o.image_width == Some(img.w)
                    &&& o.image_height == Some(img.h)
                    &&& o.image_color_depth == Some(img.depth)
                    &&& o.image_target_width == Some(target_width)
                    &&& o.image_target_height == Some(target_height)
                    &&& o == (RichDataOptions {
                        image: o.image,
                        image_width: o.image_width,
                        image_height: o.image_height,
                        image_color_depth: o.image_color_depth,
                        image_target_width: o.image_target_width,
                        image_target_height: o.image_target_height,
                        ..self
                    })
                },
                None => o == (RichDataOptions {
                    image_target_width: Some(target_width),
                    image_target_height: Some(target_height),
                    ..self
                }),
            },
    {
        if image.is_some() {
            let (img_data, depth, width, height) = image_to_rgb_data(&image, target_width, target_height);
            RichDataOptions {
                image: img_data,
                image_width: Some(width),
                image_height: Some(height),
                image_target_width: Some(target_width),
                image_target_height: Some(target_height),
                image_color_depth: Some(depth),
                ..self
            }
        } else {
            RichDataOptions {
                image_target_width: Some(target_width),
                image_target_height: Some(target_height),
                ..self
            }
        }
    }

    /// Also sets where the image was saved.
    pub fn image_file_path(self, image_file_path: PathBuf) -> (o: RichDataOptions)
        ensures
            o == (RichDataOptions { image_file_path: Some(image_file_path), ..self }),
    {
        RichDataOptions { image_file_path: Some(image_file_path), ..self }
    }

    /// Also replaces the action.
    pub fn change_action(self, action: Action) -> (o: RichDataOptions)
        ensures
            o == (RichDataOptions { action: Some(action), ..self }),
    {
        RichDataOptions { action: Some(action), ..self }
    }
}

/// Whether `data` holds enough bytes for a gray variant of `w` × `h`
/// pixels laid out as `depth`.
pub open spec fn gray_fits(data: Seq<u8>, w: int, h: int, depth: ColorDepth) -> bool {
    &&& w >= 0
    &&& h >= 0
    &&& 2 * (w * h) <= usize::MAX
    &&& depth != ColorDepth::L8 ==> data.len() >= bytes_per_pixel(depth) * (w * h)
}

/// `o` applied to the simple fields (state, text, colors).
pub open spec fn applied_simple(o: RichDataOptions, r: RichDataView) -> RichDataView {
    RichDataView {
        clickable: match o.clickable { Some(c) => c, None => r.clickable },
        underline: match o.underline { Some(u) => u, None => r.underline },
        expired: match o.expired { Some(e) => e, None => r.expired },
        text: match o.text { Some(t) => t@, None => r.text },
        fg_color: match o.fg_color { Some(c) => c, None => r.fg_color },
        bg_color: match o.bg_color { Some(c) => Some(c), None => r.bg_color },
        strike_through: match o.strike_through { Some(s) => s, None => r.strike_through },
        blink: match o.blink { Some(b) => b, None => r.blink },
        ..r
    }
}

/// `o`'s image applied: the target sizes it carries replace the old ones,
/// with or without an image; with an image, the depth and sizes it carries
/// replace the old ones too, a gray variant already present is recomputed,
/// and the image replaces the old one.
pub open spec fn applied_image(o: RichDataOptions, r: RichDataView) -> RichDataView {
    let tw = match o.image_target_width { Some(v) => v, None => r.image_target_width };
    let th = match o.image_target_height { Some(v) => v, None => r.image_target_height };
    match o.image {
        Some(img) => {
            let depth = match o.image_color_depth { Some(d) => d, None => r.image_color_depth };
            let w = match o.image_width { Some(v) => v, None => r.image_width };
            let h = match o.image_height { Some(v) => v, None => r.image_height };
            RichDataView {
                image_color_depth: depth,
                image_target_width: tw,
                image_target_height: th,
                image_width: w,
                image_height: h,
                image_inactive: if r.image_inactive is Some {
                    Some(spec_gray_image(img@, (w * h) as nat, depth))
                } else {
                    None
                },
                image: Some(img@),
                ..r
            }
        },
        None => RichDataView { image_target_width: tw, image_target_height: th, ..r },
    }
}

/// `o`'s file path and action applied; an action without items removes
/// the segment's action.
pub open spec fn applied_path_action(o: RichDataOptions, r: RichDataView) -> RichDataView {
    let r1 = match o.image_file_path {
        Some(p) => RichDataView { image_file_path: Some(p), ..r },
        None => r,
    };
    match o.action {
        Some(a) => if a.items@.len() == 0 {
            RichDataView { action: None, ..r1 }
        } else {
            RichDataView { action: Some(a@), ..r1 }
        },
        None => r1,
    }
}

/// `o`'s disabled mark applied; disabling an image without a gray variant
/// computes one from its original size.
pub open spec fn applied_disabled(o: RichDataOptions, r: RichDataView) -> RichDataView {
    match o.disabled {
        Some(d) => {
            let r1 = RichDataView { disabled: d, ..r };
            if r1.data_type == DataType::Image && d && r1.image_inactive is None && r1.image is Some {
                RichDataView {
                    image_inactive: Some(spec_gray_image(r1.image->0, (r1.image_width * r1.image_height) as nat, r1.image_color_depth)),
                    ..r1
                }
            } else {
                r1
            }
        },
        None => r,
    }
}

/// The segment after all of `o` is applied.
pub open spec fn options_applied(o: RichDataOptions, r: RichDataView) -> RichDataView {
    applied_disabled(o, applied_path_action(o, applied_image(o, applied_simple(o, r))))
}

/// Whether applying `o` to `r` finds the pixel data it needs wherever it
/// computes a gray variant.
pub open spec fn options_applicable(o: RichDataOptions, r: RichDataView) -> bool {
    let r1 = applied_simple(o, r);
    let r2 = applied_image(o, r1);
    let r3 = applied_path_action(o, r2);
    &&& (o.image is Some && r1.image_inactive is Some) ==> gray_fits(o.image->0@, r2.image_width as int, r2.image_height as int, r2.image_color_depth)
    &&& (o.disabled == Some(true) && r3.data_type == DataType::Image && r3.image_inactive is None && r3.image is Some)
        ==> gray_fits(r3.image->0, r3.image_width as int, r3.image_height as int, r3.image_color_depth)
}

fn apply_simple(o: &RichDataOptions, rd: &mut RichData)
    ensures
        final(rd)@ == applied_simple(*o, old(rd)@),
{
    if let Some(t) = &o.text {
        rd.text = chars_of(t.as_str());
    }
    let ghost mid = rd@;
    assert(mid == RichDataView { text: match o.text { Some(t) => t@, None => old(rd)@.text }, ..old(rd)@ });
    rd.clickable = match o.clickable { Some(c) => c, None => rd.clickable };
    rd.underline = match o.underline { Some(u) => u, None => rd.underline };
    rd.expired = match o.expired { Some(e) => e, None => rd.expired };
    rd.fg_color = match o.fg_color { Some(c) => c, None => rd.fg_color };
    rd.bg_color = match o.bg_color { Some(c) => Some(c), None => rd.bg_color };
    rd.strike_through = match o.strike_through { Some(x) => x, None => rd.strike_through };
    rd.blink = match o.blink { Some(b) => b, None => rd.blink };
}

fn apply_image(o: &RichDataOptions, rd: &mut RichData)
    requires
        (o.image is Some && old(rd).image_inactive is Some) ==> gray_fits(o.image->0@, applied_image(*o, old(rd)@).image_width as int, applied_image(*o, old(rd)@).image_height as int, applied_image(*o, old(rd)@).image_color_depth),
    ensures
        final(rd)@ == applied_image(*o, old(rd)@),
{
    let tw = match o.image_target_width { Some(v) => v, None => rd.image_target_width };
    let th = match o.image_target_height { Some(v) => v, None => rd.image_target_height };
    if let Some(img) = &o.image {
        let depth = match o.image_color_depth { Some(d) => d, None => rd.image_color_depth };
        let w = match o.image_width { Some(v) => v, None => rd.image_width };
        let h = match o.image_height { Some(v) => v, None => rd.image_height };
        let inactive = if rd.image_inactive.is_some() {
            Some(gray_image(img, w, h, depth))
        } else {
            None
        };
        let copy = img.clone();
        assert(copy@ =~= img@);
        rd.image_color_depth = depth;
        rd.image_target_width = tw;
        rd.image_target_height = th;
        rd.image_width = w;
        rd.image_height = h;
        rd.image_inactive = inactive;
        rd.image = Some(copy);
    } else {
        rd.image_target_width = tw;
        rd.image_target_height = th;
    }
}

fn apply_path_action(o: &RichDataOptions, rd: &mut RichData)
    ensures
        final(rd)@ == applied_path_action(*o, old(rd)@),
{
    if let Some(p) = &o.image_file_path {
        rd.image_file_path = Some(p.clone());
    }
    if let Some(a) = &o.action {
        if a.items.len() == 0 {
            rd.action = None;
        } else {
            rd.action = Some(a.duplicate());
        }
    }
}

fn apply_disabled(o: &RichDataOptions, rd: &mut RichData)
    requires
        (o.disabled == Some(true) && old(rd).data_type == DataType::Image && old(rd).image_inactive is None && old(rd).image is Some)
            ==> gray_fits(old(rd)@.image->0, old(rd).image_width as int, old(rd).image_height as int, old(rd).image_color_depth),
    ensures
        final(rd)@ == applied_disabled(*o, old(rd)@),
{
    if let Some(d) = o.disabled {
        rd.disabled = d;
        if rd.data_type == DataType::Image {
            if rd.disabled && rd.image_inactive.is_none() {
                if let Some(rgb_data) = &rd.image {
                    let inactive = gray_image(rgb_data, rd.image_width, rd.image_height, rd.image_color_depth);
                    rd.image_inactive = Some(inactive);
                }
            }
        }
    }
}

/// Applies options to a kept segment, as user interaction asks.
pub fn update_data_properties(options: RichDataOptions, rd: &mut RichData)
    requires
        options_applicable(options, old(rd)@),
    ensures
        final(rd)@ == options_applied(options, old(rd)@),
{
    apply_simple(&options, rd);
    apply_image(&options, rd);
    apply_path_action(&options, rd);
    apply_disabled(&options, rd);
}

/// A disabled segment: no longer clickable; an image gets a gray variant of
/// its pixels (`image_width` × `image_height`) if it has none yet, a text
/// gets a strike-through line.
pub open spec fn spec_disabled(r: RichDataView) -> RichDataView {
    let r1 = RichDataView { clickable: false, ..r };
    match r1.data_type {
        DataType::Image => if r1.image_inactive is None && r1.image is Some {
            RichDataView {
                image_inactive: Some(spec_gray_image(r1.image->0, (r1.image_width * r1.image_height) as nat, r1.image_color_depth)),
                ..r1
            }
        } else {
            r1
        },
        DataType::Text => RichDataView { strike_through: true, ..r1 },
    }
}

/// Disables a segment: images turn gray, texts get a strike-through line.
pub fn disable_data(rd: &mut RichData)
    requires
        (old(rd).data_type == DataType::Image && old(rd).image_inactive is None && old(rd).image is Some)
            ==> gray_fits(old(rd)@.image->0, old(rd).image_width as int, old(rd).image_height as int, old(rd).image_color_depth),
    ensures
        final(rd)@ == spec_disabled(old(rd)@),
{
    rd.clickable = false;
    match rd.data_type {
        DataType::Image => {
            if rd.image_inactive.is_none() {
                if let Some(rgb_data) = &rd.image {
                    let inactive = gray_image(rgb_data, rd.image_width, rd.image_height, rd.image_color_depth);
                    rd.image_inactive = Some(inactive);
                }
            }
        },
        DataType::Text => {
            rd.strike_through = true;
        },
    }
}

/// A segment expired because its action belongs to the filtered category:
/// no action, expired, not clickable, disabled and struck through.
pub open spec fn spec_expired(r: RichDataView) -> RichDataView {
    RichDataView { action: None, expired: true, clickable: false, disabled: true, strike_through: true, ..r }
}

/// Expires and disables every segment whose action belongs to the category
/// `target`; the others stay as they are.
pub fn expire_data(buffer: &mut Vec<RichData>, target: &String)
    ensures
        final(buffer)@.len() == old(buffer)@.len(),
        forall|i: int| 0 <= i < old(buffer)@.len() ==> #[trigger] final(buffer)@[i]@ == if in_category(old(buffer)@[i].action, target@) {
            spec_expired(old(buffer)@[i]@)
        } else {
            old(buffer)@[i]@
        },
{
    let mut i: usize = 0;
    while i < buffer.len()
        invariant
            i <= buffer@.len(),
            buffer@.len() == old(buffer)@.len(),
            forall|k: int| 0 <= k < i ==> #[trigger] buffer@[k]@ == if in_category(old(buffer)@[k].action, target@) {
                spec_expired(old(buffer)@[k]@)
            } else {
                old(buffer)@[k]@
            },
            forall|k: int| i <= k < buffer@.len() ==> #[trigger] buffer@[k] == old(buffer)@[k],
        decreases buffer@.len() - i,
    {
        let should_expire = action_in_category(&buffer[i].action, target);
        if should_expire {
            let rd = &mut buffer[i];
            rd.action = None;
            rd.expired = true;
            rd.clickable = false;
            rd.disabled = true;
            rd.strike_through = true;
        }
        i = i + 1;
    }
}

/// Expiring a segment twice is expiring it once.
pub proof fn law_expire_idempotent(r: RichDataView)
    ensures
        spec_expired(spec_expired(r)) == spec_expired(r),
{
}

/// Disabling a segment twice is disabling it once.
pub proof fn law_disable_idempotent(r: RichDataView)
    ensures
        spec_disabled(spec_disabled(r)) == spec_disabled(r),
{
}

/// A disabled segment is no longer clickable, and disabled text is struck
/// through.
pub proof fn law_disabled_not_clickable(r: RichDataView)
    ensures
        !spec_disabled(r).clickable,
        r.data_type == DataType::Text ==> spec_disabled(r).strike_through,
        spec_disabled(r).text == r.text,
{
}

} // verus!
