//! What a badge shows.

use base64::engine::general_purpose::STANDARD;
use base64::Engine;
use vstd::prelude::*;
use vstd::string::StringExecFns;
use crate::text::decimal;
use crate::text::decimal_string;
use crate::text::signed_decimal;
use crate::text::signed_decimal_string;

verus! {

pub const COLOR_DANGER: &'static str = "#eb364b";

pub const COLOR_WARNING: &'static str = "#ffb52b";

pub const COLOR_SUCCESS: &'static str = "#41c464";

pub const COLOR_OTHER: &'static str = "#949196";

/// What a badge shows.
#[derive(Debug, PartialEq, Eq)]
pub struct BadgeOptions {
    /// Status will be displayed on the left side of badge
    pub status: String,
    /// Duration, in whole seconds, will be displayed on the right side of badge
    pub duration: Option<i64>,
    /// HTML color of badge
    pub color: String,
    /// Is the Badge muted
    pub muted: bool,
    /// The image width, defaults to the size of the badge
    pub width: Option<u32>,
    /// The image height, defaults to the size of the badge
    pub height: Option<u32>,
}

/// What a badge shows, its texts as sequences of characters.
pub struct BadgeView {
    pub status: Seq<char>,
    pub duration: Option<i64>,
    pub color: Seq<char>,
    pub muted: bool,
    pub width: Option<u32>,
    pub height: Option<u32>,
}

impl BadgeView {
    /// The text on the right side of the badge: the duration in words, or
    /// `n/a` where there is none.
    pub open spec fn duration_spec(self) -> Seq<char> {
        match self.duration {
            Some(seconds) => human_text(seconds as int),
            None => "n/a"@,
        }
    }
}

impl View for BadgeOptions {
    type V = BadgeView;

    open spec fn view(&self) -> BadgeView {
        BadgeView {
            status: self.status@,
            duration: self.duration,
            color: self.color@,
            muted: self.muted,
            width: self.width,
            height: self.height,
        }
    }
}

/// The badge with the given status text and color, without a duration, not
/// muted, in its own size.
pub open spec fn plain_badge(status: Seq<char>, color: Seq<char>) -> BadgeView {
    BadgeView { status, duration: None, color, muted: false, width: None, height: None }
}

impl Clone for BadgeOptions {
    fn clone(&self) -> (o: BadgeOptions)
        ensures
            o@ == self@,
    {
        BadgeOptions {
            status: self.status.clone(),
            duration: self.duration,
            color: self.color.clone(),
            muted: self.muted,
            width: self.width,
            height: self.height,
        }
    }
}

impl Default for BadgeOptions {
    fn default() -> (o: BadgeOptions)
        ensures
            o@ == plain_badge("Ok"@, "#4c1"@),
    {
        BadgeOptions {
            status: String::from_str("Ok"),
            duration: None,
            color: String::from_str("#4c1"),
            muted: false,
            width: None,
            height: None,
        }
    }
}

/// A count with its unit, the unit in the plural unless the count is one.
pub open spec fn counted(n: int, unit: Seq<char>) -> Seq<char> {
    if n == 1 {
        signed_decimal(n) + " "@ + unit
    } else {
        signed_decimal(n) + " "@ + unit + "s"@
    }
}

/// A duration of `seconds` seconds in the largest unit, of weeks, days,
/// hours, minutes and seconds, of which it holds at least one whole; in
/// seconds where it holds none.
pub open spec fn human_text(seconds: int) -> Seq<char> {
    if seconds >= 604800 {
        counted(seconds / 604800, "week"@)
    } else if seconds >= 86400 {
        counted(seconds / 86400, "day"@)
    } else if seconds >= 3600 {
        counted(seconds / 3600, "hour"@)
    } else if seconds >= 60 {
        counted(seconds / 60, "minute"@)
    } else {
        counted(seconds, "second"@)
    }
}

/// A count with its unit, the unit in the plural unless the count is one.
fn count_of(n: i64, unit: &str) -> (r: String)
    ensures
        r@ == counted(n as int, unit@),
{
    let mut text = signed_decimal_string(n);
    text.append(" ");
    text.append(unit);
    if n != 1 {
        text.append("s");
    }
    text
}

/// A duration of `seconds` seconds in words.
pub fn human_str(seconds: i64) -> (r: String)
    ensures
        r@ == human_text(seconds as int),
{
    if seconds >= 604800 {
        count_of(seconds / 604800, "week")
    } else if seconds >= 86400 {
        count_of(seconds / 86400, "day")
    } else if seconds >= 3600 {
        count_of(seconds / 3600, "hour")
    } else if seconds >= 60 {
        count_of(seconds / 60, "minute")
    } else {
        count_of(seconds, "second")
    }
}

impl BadgeOptions {
    /// The text on the right side of the badge.
    pub fn duration_text(&self) -> (r: String)
        ensures
            r@ == self@.duration_spec(),
    {
        match self.duration {
            Some(seconds) => human_str(seconds),
            None => String::from_str("n/a"),
        }
    }
}

/// The image up to its width.
pub const SVG_WIDTH: &'static str =
    r##"<svg xmlns="http://www.w3.org/2000/svg" xmlns:xlink="http://www.w3.org/1999/xlink" width=""##;

/// From the width of the image to its height.
pub const SVG_HEIGHT: &'static str = r##"" height=""##;

/// From the height of the image to the width of the rounded mask.
pub const SVG_MASK: &'static str = r##"">
  <linearGradient id="smooth" x2="0" y2="100%">
    <stop offset="0" stop-color="#bbb" stop-opacity=".1"/>
    <stop offset="1" stop-opacity=".1"/>
  </linearGradient>

  <mask id="round">
    <rect width=""##;

/// From the mask to the width of the field of the status.
pub const SVG_LEFT: &'static str = r##"" height="20" rx="3" fill="#fff"/>
  </mask>

  <g mask="url(#round)">
    <rect width=""##;

/// From the width of the field of the status to its color.
pub const SVG_LEFT_FILL: &'static str = r##"" height="20" fill=""##;

/// From the field of the status to the place of the field of the duration.
pub const SVG_RIGHT: &'static str = r##""/>
    <rect x=""##;

/// From the place of a field to its width.
pub const SVG_RIGHT_WIDTH: &'static str = r##"" width=""##;

/// From the field of the duration to the width of the gloss over both fields.
pub const SVG_GLOSS: &'static str = r##"" height="20" fill="#555"/>
    <rect width=""##;

/// From the gloss to the texts; the mute sign of a muted badge stands first.
pub const SVG_TEXTS: &'static str = r##"" height="20" fill="url(#smooth)"/>
  </g>

  <g fill="#fff" text-anchor="middle" font-family="DejaVu Sans,Verdana,Geneva,sans-serif" font-size="11">
    "##;

/// From the mute sign to the place of the shadow of the status text.
pub const SVG_SHADOW: &'static str = r##"
    <text x=""##;

/// From the place of the shadow of a text to that text.
pub const SVG_SHADOW_TEXT: &'static str = r##"" y="15" fill="#010101" fill-opacity=".3">"##;

/// From a text to the place of the next.
pub const SVG_TEXT: &'static str = r##"</text>
    <text x=""##;

/// From the place of a text to that text.
pub const SVG_TEXT_TEXT: &'static str = r##"" y="14">"##;

/// From the last text to the end of the image.
pub const SVG_CLOSE: &'static str = r##"</text>
  </g>
</svg>"##;

/// The mute sign.
pub const MUTE: &'static str = r#"<path
     d="m 9.7196219,4.2202987 -2.7802854,2.7796601 -3.1893438,0 C 3.3356217,6.9999588 3,7.3355788 3,7.7499488 l 0,4.4999592 c 0,0.41405 0.3356217,0.74999 0.7499927,0.74999 l 3.1893438,0 2.7802854,2.77966 c 0.4696831,0.46968 1.2803001,0.13969 1.2803001,-0.53031 l 0,-10.4986493 c 0,-0.67061 -0.811242,-0.99936 -1.2803001,-0.5303 z m 7.7064871,5.7796295 1.426236,-1.426239 c 0.196873,-0.19687 0.196873,-0.51624 0,-0.7131204 l -0.713118,-0.71311 c -0.196873,-0.19688 -0.516245,-0.19688 -0.713118,0 L 15.999873,8.5736892 14.573637,7.1474588 c -0.196873,-0.19688 -0.516245,-0.19688 -0.713118,0 l -0.713118,0.71311 c -0.196873,0.1968804 -0.196873,0.5162504 0,0.7131204 l 1.426236,1.426239 -1.425924,1.4259198 c -0.196873,0.19688 -0.196873,0.51625 0,0.71312 l 0.713118,0.71312 c 0.196874,0.19687 0.516245,0.19687 0.713118,0 l 1.425924,-1.42593 1.426236,1.42624 c 0.196873,0.19687 0.516245,0.19687 0.713118,0 l 0.713118,-0.71312 c 0.196873,-0.19687 0.196873,-0.51624 0,-0.71312 L 17.426109,9.9999282 Z"
     />"#;

/// A badge that can be drawn: what it shows, and the widths in pixels that
/// its two texts take in the font of the badge.
#[derive(Debug, PartialEq, Eq)]
pub struct Badge {
    options: BadgeOptions,
    status_width: u32,
    duration_width: u32,
}

/// Where the parts of a badge stand, in pixels.
pub struct Layout {
    /// The width of the image.
    pub width: int,
    /// The height of the image.
    pub height: int,
    /// The width of the badge.
    pub badge: int,
    /// Where the colored field of the status ends and the field of the
    /// duration begins.
    pub divide: int,
    /// The width of the field of the duration.
    pub right: int,
    /// The middle of the status text.
    pub status_middle: int,
    /// The middle of the duration text.
    pub duration_middle: int,
}

impl Badge {
    /// What the badge shows.
    pub closed spec fn options(&self) -> BadgeView {
        self.options@
    }

    /// The width of the status text.
    pub closed spec fn status_width(&self) -> u32 {
        self.status_width
    }

    /// The width of the duration text.
    pub closed spec fn duration_width(&self) -> u32 {
        self.duration_width
    }

    /// Where the parts of the badge stand.  Each text has three pixels to
    /// either side; a muted badge has twenty pixels for the mute sign before
    /// the status; the texts stand in the middle of their fields, halves of
    /// a pixel left out.  The image has the size that the options ask for,
    /// and else the width of the badge and a height of twenty pixels.
    pub open spec fn layout(&self) -> Layout {
        let left = self.status_width() + 6;
        let right = self.duration_width() + 6;
        let sign: int = if self.options().muted {
            20
        } else {
            0
        };
        Layout {
            width: match self.options().width {
                Some(w) => w as int,
                None => sign + left + right,
            },
            height: match self.options().height {
                Some(h) => h as int,
                None => 20,
            },
            badge: sign + left + right,
            divide: sign + left,
            right,
            status_middle: sign + left / 2,
            duration_middle: sign + left + right / 2,
        }
    }

    /// The image of the badge.
    pub open spec fn svg(&self) -> Seq<char> {
        let at = self.layout();
        let sign = if self.options().muted {
            MUTE@
        } else {
            ""@
        };
        SVG_WIDTH@ + decimal(at.width as nat) + SVG_HEIGHT@ + decimal(at.height as nat) + SVG_MASK@
            + decimal(at.badge as nat) + SVG_LEFT@ + decimal(at.divide as nat) + SVG_LEFT_FILL@
            + self.options().color + SVG_RIGHT@ + decimal(at.divide as nat) + SVG_RIGHT_WIDTH@
            + decimal(at.right as nat) + SVG_GLOSS@ + decimal(at.badge as nat) + SVG_TEXTS@ + sign
            + SVG_SHADOW@ + decimal(at.status_middle as nat) + SVG_SHADOW_TEXT@
            + self.options().status + SVG_TEXT@ + decimal(at.status_middle as nat) + SVG_TEXT_TEXT@
            + self.options().status + SVG_TEXT@ + decimal(at.duration_middle as nat)
            + SVG_SHADOW_TEXT@ + self.options().duration_spec() + SVG_TEXT@ + decimal(
            at.duration_middle as nat,
        ) + SVG_TEXT_TEXT@ + self.options().duration_spec() + SVG_CLOSE@
    }

    /// The badge that shows `options`, for a font in which the status text
    /// is `status_width` pixels wide and the duration text `duration_width`.
    pub fn new(options: BadgeOptions, status_width: u32, duration_width: u32) -> (badge: Badge)
        ensures
            badge.options() == options@,
            badge.status_width() == status_width,
            badge.duration_width() == duration_width,
    {
        Badge { options, status_width, duration_width }
    }

    /// The image of the badge, as an SVG document.
    pub fn to_svg(&self) -> (r: String)
        ensures
            r@ == self.svg(),
    {
        let duration = self.options.duration_text();
        let left: u64 = self.status_width as u64 + 6;
        let right: u64 = self.duration_width as u64 + 6;
        let sign: u64 = if self.options.muted {
            20
        } else {
            0
        };
        let badge = decimal_string(sign + left + right);
        let divide = decimal_string(sign + left);
        let status_middle = decimal_string(sign + left / 2);
        let duration_middle = decimal_string(sign + left + right / 2);
        let width = match self.options.width {
            Some(w) => decimal_string(w as u64),
            None => decimal_string(sign + left + right),
        };
        let height = match self.options.height {
            Some(h) => decimal_string(h as u64),
            None => decimal_string(20),
        };
        let mut svg = String::from_str(SVG_WIDTH);
        svg.append(width.as_str());
        svg.append(SVG_HEIGHT);
        svg.append(height.as_str());
        svg.append(SVG_MASK);
        svg.append(badge.as_str());
        svg.append(SVG_LEFT);
        svg.append(divide.as_str());
        svg.append(SVG_LEFT_FILL);
        svg.append(self.options.color.as_str());
        svg.append(SVG_RIGHT);
        svg.append(divide.as_str());
        svg.append(SVG_RIGHT_WIDTH);
        svg.append(decimal_string(right).as_str());
        svg.append(SVG_GLOSS);
        svg.append(badge.as_str());
        svg.append(SVG_TEXTS);
        svg.append(
            if self.options.muted {
                MUTE
            } else {
                ""
            },
        );
        svg.append(SVG_SHADOW);
        svg.append(status_middle.as_str());
        svg.append(SVG_SHADOW_TEXT);
        svg.append(self.options.status.as_str());
        svg.append(SVG_TEXT);
        svg.append(status_middle.as_str());
        svg.append(SVG_TEXT_TEXT);
        svg.append(self.options.status.as_str());
        svg.append(SVG_TEXT);
        svg.append(duration_middle.as_str());
        svg.append(SVG_SHADOW_TEXT);
        svg.append(duration.as_str());
        svg.append(SVG_TEXT);
        svg.append(duration_middle.as_str());
        svg.append(SVG_TEXT_TEXT);
        svg.append(duration.as_str());
        svg.append(SVG_CLOSE);
        svg
    }

    /// The image of the badge, as a `data:` address that holds it.
    pub fn to_svg_data_uri(&self) -> (r: String)
        ensures
            r@ == "data:image/svg+xml;base64,"@ + base64(self.svg()),
    {
        let mut uri = String::from_str("data:image/svg+xml;base64,");
        uri.append(encode(self.to_svg().as_str()).as_str());
        uri
    }
}

/// The standard Base64 encoding, with padding, of the UTF-8 bytes of a text.
pub uninterp spec fn base64(text: Seq<char>) -> Seq<char>;

/// `Engine::encode` of the `base64` crate, on its `STANDARD` engine: what
/// comes back depends on the bytes of the text alone.
#[verifier::external_body]
fn encode(text: &str) -> (r: String)
    ensures
        r@ == base64(text@),
{
    STANDARD.encode(text)
}

} // verus!
