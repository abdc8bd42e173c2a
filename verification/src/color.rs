//! Colors: contrast and lighter/darker variants, and the blink state of the
//! focus frame.

use vstd::prelude::*;

verus! {

/// An RGB color.
#[derive(Debug, Clone, Copy, PartialEq, Eq, Hash, Structural)]
pub struct Color {
    pub r: u8,
    pub g: u8,
    pub b: u8,
}

impl Color {
    /// The color with the given red, green and blue components.
    pub fn from_rgb(r: u8, g: u8, b: u8) -> (c: Color)
        ensures
            c == (Color { r, g, b }),
    {
        Color { r, g, b }
    }

    /// The red, green and blue components.
    pub fn to_rgb(&self) -> (t: (u8, u8, u8))
        ensures
            t == (self.r, self.g, self.b),
    {
        (self.r, self.g, self.b)
    }
}

/// The brightest white.
pub fn white() -> (c: Color)
    ensures
        c == (Color { r: 255, g: 255, b: 255 }),
{
    Color::from_rgb(255, 255, 255)
}

/// Background of every search hit.
pub fn highlight_background_color() -> (c: Color)
    ensures
        c == (Color { r: 0, g: 0, b: 255 }),
{
    Color::from_rgb(0, 0, 255)
}

/// Frame of the search hit that has the focus.
pub fn highlight_rect_color() -> (c: Color)
    ensures
        c == (Color { r: 255, g: 145, b: 0 }),
{
    Color::from_rgb(255, 145, 0)
}

/// Contrast color the focus frame blinks to.
pub fn highlight_rect_contrast_color() -> (c: Color)
    ensures
        c == (Color { r: 0, g: 110, b: 255 }),
{
    Color::from_rgb(0, 110, 255)
}

/// Whether the complement of `c` is a middle gray: its three components are
/// equal and differ from those of `c` by less than 25.
pub open spec fn complement_is_mid_gray(c: Color) -> bool {
    let (cr, cg, cb) = (255 - c.r, 255 - c.g, 255 - c.b);
    cr == cg && cg == cb && -25 < cr - c.r < 25
}

/// The contrast color of `c`: its complement, or white when the complement
/// is a middle gray.
pub open spec fn spec_contrast(c: Color) -> Color {
    if complement_is_mid_gray(c) {
        Color { r: 255, g: 255, b: 255 }
    } else {
        Color { r: (255 - c.r) as u8, g: (255 - c.g) as u8, b: (255 - c.b) as u8 }
    }
}

/// The contrast color of `color`; for a middle gray (equal components
/// between 116 and 139) it is white.
pub fn get_contrast_color(color: Color) -> (c: Color)
    ensures
        c == spec_contrast(color),
{
    let (r, g, b) = color.to_rgb();
    let (cr, cg, cb) = (255 - r, 255 - g, 255 - b);
    let diff: i16 = (cr as i16) - (r as i16);
    if (cr == cg && cg == cb) && -25 < diff && diff < 25 {
        white()
    } else {
        Color::from_rgb(cr, cg, cb)
    }
}

/// Whether `c` counts as bright: the largest of its components is above 128.
pub open spec fn is_bright(c: Color) -> bool {
    c.r > 128 || c.g > 128 || c.b > 128
}

/// A component darkened by 127, stopping at 0.
pub open spec fn darker(v: u8) -> u8 {
    if v >= 127 { (v - 127) as u8 } else { 0 }
}

/// A component lightened by 127, stopping at 255.
pub open spec fn lighter(v: u8) -> u8 {
    if v <= 128 { (v + 127) as u8 } else { 255 }
}

/// The darker variant of a bright color, the lighter variant otherwise.
pub open spec fn spec_lighter_or_darker(c: Color) -> Color {
    if is_bright(c) {
        Color { r: darker(c.r), g: darker(c.g), b: darker(c.b) }
    } else {
        Color { r: lighter(c.r), g: lighter(c.g), b: lighter(c.b) }
    }
}

fn darker_component(v: u8) -> (d: u8)
    ensures
        d == darker(v),
{
    let x: i16 = v as i16 - 127;
    if x > 0 { x as u8 } else { 0 }
}

fn lighter_component(v: u8) -> (d: u8)
    ensures
        d == lighter(v),
{
    let x: i16 = v as i16 + 127;
    if x < 255 { x as u8 } else { 255 }
}

/// A darker variant of `color` when the largest of its components exceeds
/// 128, a lighter variant otherwise.
pub fn get_lighter_or_darker_color(color: Color) -> (c: Color)
    ensures
        c == spec_lighter_or_darker(color),
{
    let (r, g, b) = color.to_rgb();
    let max_c = if r >= g && r >= b { r } else if g >= b { g } else { b };
    if max_c > 128 {
        Color::from_rgb(darker_component(r), darker_component(g), darker_component(b))
    } else {
        Color::from_rgb(lighter_component(r), lighter_component(g), lighter_component(b))
    }
}

/// Twice taking the contrast color gives the color back, unless its
/// complement is a middle gray (then the first step gives white).
pub proof fn lemma_contrast_involution(c: Color)
    requires
        !complement_is_mid_gray(c),
    ensures
        spec_contrast(spec_contrast(c)) == c,
{
}

/// How strongly blinking content shows.
#[derive(Debug, Clone, Copy, PartialEq, Eq, Structural)]
pub enum BlinkDegree {
    /// Normal, in the original colors.
    Normal,
    /// In the contrast color, or hidden.
    Contrast,
}

/// The blink switch of a visible area and the look of the focus frame.
#[derive(Debug, Clone, Copy, PartialEq, Eq, Structural)]
pub struct BlinkState {
    /// Whether the visible area holds blinking content.
    pub on: bool,
    /// Degree of blinking content at the next redraw.
    pub next: BlinkDegree,
    /// Frame color of the focused target.
    pub focus_boarder_color: Color,
    /// Contrast frame color of the focused target.
    pub focus_boarder_contrast_color: Color,
    /// Frame line width of the focused target.
    pub focus_boarder_width: i32,
    /// Background color of the focused target.
    pub focus_background_color: Color,
}

/// The other blink degree.
pub open spec fn flipped(d: BlinkDegree) -> BlinkDegree {
    match d {
        BlinkDegree::Normal => BlinkDegree::Contrast,
        BlinkDegree::Contrast => BlinkDegree::Normal,
    }
}

impl BlinkState {
    /// Blinking off, normal degree, the default focus colors and a frame
    /// width of 2.
    pub fn new() -> (s: BlinkState)
        ensures
            !s.on,
            s.next == BlinkDegree::Normal,
            s.focus_boarder_color == (Color { r: 255, g: 145, b: 0 }),
            s.focus_boarder_contrast_color == (Color { r: 0, g: 110, b: 255 }),
            s.focus_boarder_width == 2,
            s.focus_background_color == (Color { r: 0, g: 0, b: 255 }),
    {
        BlinkState {
            on: false,
            next: BlinkDegree::Normal,
            focus_boarder_color: highlight_rect_color(),
            focus_boarder_contrast_color: highlight_rect_contrast_color(),
            focus_boarder_width: 2,
            focus_background_color: highlight_background_color(),
        }
    }

    /// Switches blinking off; the degree stays.
    pub fn off(&mut self)
        ensures
            *final(self) == (BlinkState { on: false, ..*old(self) }),
    {
        self.on = false;
    }

    /// Switches blinking on.
    pub fn on(&mut self)
        ensures
            *final(self) == (BlinkState { on: true, ..*old(self) }),
    {
        self.on = true;
    }

    /// Flips the degree when blinking is on and says whether it did.
    pub fn toggle_when_on(&mut self) -> (toggled: bool)
        ensures
            toggled == old(self).on,
            *final(self) == if old(self).on {
                BlinkState { next: flipped(old(self).next), ..*old(self) }
            } else {
                *old(self)
            },
    {
        if self.on {
            self.next = match self.next {
                BlinkDegree::Normal => BlinkDegree::Contrast,
                BlinkDegree::Contrast => BlinkDegree::Normal,
            };
            true
        } else {
            false
        }
    }
}

/// Two toggles in a row while blinking is on give the first state back.
pub proof fn lemma_toggle_twice(s: BlinkState)
    requires
        s.on,
    ensures
        (BlinkState { next: flipped(flipped(s.next)), ..s }) == s,
{
}

} // verus!
