use css_color_parser2::Color as CssColor;
use vstd::prelude::*;
use vstd::string::StringExecFns;

use crate::text::{chars_of, same_chars};

verus! {

/// The hex colour of a named chat colour, or none for another name.
pub open spec fn color_hex(name: Seq<char>) -> Option<Seq<char>> {
    if name == "black"@ {
        Some("#000000"@)
    } else if name == "dark_blue"@ {
        Some("#0000aa"@)
    } else if name == "dark_green"@ {
        Some("#00aa00"@)
    } else if name == "dark_aqua"@ {
        Some("#00aaaa"@)
    } else if name == "dark_red"@ {
        Some("#aa0000"@)
    } else if name == "dark_purple"@ {
        Some("#aa00aa"@)
    } else if name == "gold"@ {
        Some("#ffaa00"@)
    } else if name == "gray"@ {
        Some("#aaaaaa"@)
    } else if name == "dark_gray"@ {
        Some("#555555"@)
    } else if name == "blue"@ {
        Some("#5555ff"@)
    } else if name == "green"@ {
        Some("#55ff55"@)
    } else if name == "aqua"@ {
        Some("#55ffff"@)
    } else if name == "red"@ {
        Some("#ff5555"@)
    } else if name == "light_purple"@ {
        Some("#ff55ff"@)
    } else if name == "yellow"@ {
        Some("#ffff55"@)
    } else if name == "white"@ {
        Some("#ffffff"@)
    } else {
        None
    }
}

fn is_name(name: &Vec<char>, lit: &str) -> (r: bool)
    ensures
        r == (name@ == lit@),
{
    let l = chars_of(lit);
    same_chars(name, &l)
}

/// The hex colour (`#rrggbb`, lowercase) of one of the sixteen named chat colours.
pub fn minecraft_color_to_hex(color: &str) -> (r: Option<String>)
    ensures
        match r {
            Some(h) => color_hex(color@) == Some(h@),
            None => color_hex(color@) is None,
        },
{
    let c = chars_of(color);
    let hex = if is_name(&c, "black") {
        "#000000"
    } else if is_name(&c, "dark_blue") {
        "#0000aa"
    } else if is_name(&c, "dark_green") {
        "#00aa00"
    } else if is_name(&c, "dark_aqua") {
        "#00aaaa"
    } else if is_name(&c, "dark_red") {
        "#aa0000"
    } else if is_name(&c, "dark_purple") {
        "#aa00aa"
    } else if is_name(&c, "gold") {
        "#ffaa00"
    } else if is_name(&c, "gray") {
        "#aaaaaa"
    } else if is_name(&c, "dark_gray") {
        "#555555"
    } else if is_name(&c, "blue") {
        "#5555ff"
    } else if is_name(&c, "green") {
        "#55ff55"
    } else if is_name(&c, "aqua") {
        "#55ffff"
    } else if is_name(&c, "red") {
        "#ff5555"
    } else if is_name(&c, "light_purple") {
        "#ff55ff"
    } else if is_name(&c, "yellow") {
        "#ffff55"
    } else if is_name(&c, "white") {
        "#ffffff"
    } else {
        return None;
    };
    Some(String::from_str(hex))
}

/// What CSS colour parsing makes of a text: its red, green and blue, or none where the text
/// is no CSS colour.
pub uninterp spec fn css_rgb(s: Seq<char>) -> Option<(u8, u8, u8)>;

/// Relies on css_color_parser2's `FromStr` for `Color`: the colour a CSS colour text names,
/// of which the red, green and blue channels are kept, or an error.
#[verifier::external_body]
fn parse_css_rgb(s: &str) -> (r: Option<(u8, u8, u8)>)
    ensures
        r == css_rgb(s@),
{
    s.parse::<CssColor>().ok().map(|c| (c.r, c.g, c.b))
}

/// The colour a chat component is drawn in: a named chat colour through its hex value, any
/// other text read as a CSS colour; none where that reading fails.
pub fn chat_color_rgb(color: &str) -> (r: Option<(u8, u8, u8)>)
    ensures
        r == match color_hex(color@) {
            Some(h) => css_rgb(h),
            None => css_rgb(color@),
        },
{
    match minecraft_color_to_hex(color) {
        Some(h) => parse_css_rgb(h.as_str()),
        None => parse_css_rgb(color),
    }
}

} // verus!
