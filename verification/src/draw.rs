//! Drawing instructions for the external rendering sink. The library
//! computes what to draw; the surrounding binary hands each command to
//! the renderer.

use vstd::prelude::*;

use crate::catalog::Track;

verus! {

/// One fire-and-forget drawing command.
#[derive(Debug, PartialEq, Clone)]
pub enum DrawCmd {
    /// clear the whole canvas to a color
    ClearFull { color: String },
    /// clear a rectangle to a color
    ClearPart { color: String, top: u32, left: u32, width: u32, height: u32 },
    /// draw text in one of the regular font's styles
    Text { text: String, size: u32, top: u32, left: u32, style: String, bg: String, fg: String },
    /// draw text in a named font
    TextWithFont { text: String, size: u32, top: u32, left: u32, font: String, bg: String, fg: String },
    /// draw the album art: the embedded cover, or the fallback image
    AlbumArt { embedded: bool },
}

pub open spec fn is_clear_full(c: DrawCmd, color: Seq<char>) -> bool {
    c matches DrawCmd::ClearFull { color: cl } && cl@ == color
}

pub open spec fn is_clear_part(
    c: DrawCmd,
    color: Seq<char>,
    top: u32,
    left: u32,
    width: u32,
    height: u32,
) -> bool {
    c matches DrawCmd::ClearPart { color: cl, top: t, left: l, width: w, height: h } && cl@ == color
        && t == top && l == left && w == width && h == height
}

pub open spec fn is_text(
    c: DrawCmd,
    text: Seq<char>,
    size: u32,
    top: u32,
    left: u32,
    style: Seq<char>,
    bg: Seq<char>,
    fg: Seq<char>,
) -> bool {
    c matches DrawCmd::Text { text: tx, size: s, top: t, left: l, style: st, bg: b, fg: f }
        && tx@ == text && s == size && t == top && l == left && st@ == style && b@ == bg && f@ == fg
}

/// Scale a layout constant by a per-mille factor, rounding.
pub fn scale_calc(v: u32, scale_pm: u32) -> (r: u32)
    requires
        v <= 2000,
        scale_pm <= 10000,
    ensures
        r == (v * scale_pm + 500) / 1000,
{
    proof {
        assert(v * scale_pm <= 2000 * 10000) by (nonlinear_arith)
            requires
                v <= 2000,
                scale_pm <= 10000,
        ;
    }
    (v * scale_pm + 500) / 1000
}

/// The command drawing `text` in a style of the regular font.
pub fn draw_text(text: &str, size: u32, top: u32, left: u32, style: &str, bg_color: &str, fg_color: &str) -> (c: DrawCmd)
    ensures
        is_text(c, text@, size, top, left, style@, bg_color@, fg_color@),
{
    DrawCmd::Text {
        text: String::from_str(text),
        size,
        top,
        left,
        style: String::from_str(style),
        bg: String::from_str(bg_color),
        fg: String::from_str(fg_color),
    }
}

/// The command drawing `text` in a named font, over a background.
pub fn draw_text_with_bg(text: &str, size: u32, top: u32, left: u32, font: &str, bg_color: &str, fg_color: &str) -> (c: DrawCmd)
    ensures
        c matches DrawCmd::TextWithFont { text: tx, size: s, top: t, left: l, font: fo, bg: b, fg: f }
            && tx@ == text@ && s == size && t == top && l == left && fo@ == font@ && b@ == bg_color@
            && f@ == fg_color@,
{
    DrawCmd::TextWithFont {
        text: String::from_str(text),
        size,
        top,
        left,
        font: String::from_str(font),
        bg: String::from_str(bg_color),
        fg: String::from_str(fg_color),
    }
}

/// The command drawing the album art.
pub fn draw_album_art(embedded: bool) -> (c: DrawCmd)
    ensures
        c == (DrawCmd::AlbumArt { embedded }),
{
    DrawCmd::AlbumArt { embedded }
}

/// The command clearing the whole canvas.
pub fn clear_canvas(color: &str) -> (c: DrawCmd)
    ensures
        is_clear_full(c, color@),
{
    DrawCmd::ClearFull { color: String::from_str(color) }
}

/// The command clearing one rectangle.
pub fn clear_canvas_partly(color: &str, top: u32, left: u32, width: u32, height: u32) -> (c: DrawCmd)
    ensures
        is_clear_part(c, color@, top, left, width, height),
{
    DrawCmd::ClearPart { color: String::from_str(color), top, left, width, height }
}

/// The drawing plan for the current song: album art (unless the album is
/// unchanged), the progress-bar ground, and the title and artist lines.
pub fn draw_song(track: &Track, skip_album_art: bool, width: u32, height: u32, scale_pm: u32) -> (cmds: Vec<DrawCmd>)
    requires
        width <= 20000,
        height <= 100000,
        height >= width,
        scale_pm <= 10000,
    ensures
        ({
            let off: int = if skip_album_art {
                0
            } else {
                1
            };
            &&& cmds@.len() == 4 + off
            &&& (if skip_album_art {
                is_clear_part(cmds@[0], "BLACK"@, width, 0, width, (height - width) as u32)
            } else {
                is_clear_full(cmds@[0], "BLACK"@) && cmds@[1] == (DrawCmd::AlbumArt {
                    embedded: track@.cover is Some,
                })
            })
            &&& is_clear_part(cmds@[1 + off], "GRAY6"@, width, 0, width, 10)
            &&& is_text(
                cmds@[2 + off],
                track@.title,
                ((17 * scale_pm + 500) / 1000) as u32,
                (width + (110 * scale_pm + 500) / 1000 - (5 * scale_pm + 500) / 1000) as u32,
                10,
                "regular"@,
                "black"@,
                "white"@,
            )
            &&& is_text(
                cmds@[3 + off],
                track@.artist,
                ((12 * scale_pm + 500) / 1000) as u32,
                (width + (156 * scale_pm + 500) / 1000 - (5 * scale_pm + 500) / 1000) as u32,
                10,
                "italic"@,
                "black"@,
                "white"@,
            )
        }),
{
    let mut cmds: Vec<DrawCmd> = Vec::new();
    if skip_album_art {
        cmds.push(clear_canvas_partly("BLACK", width, 0, width, height - width));
    } else {
        cmds.push(clear_canvas("BLACK"));
        let embedded = match &track.cover {
            Option::Some(_) => true,
            Option::None => false,
        };
        cmds.push(draw_album_art(embedded));
    }
    cmds.push(clear_canvas_partly("GRAY6", width, 0, width, 10));
    let t_top = width + scale_calc(110, scale_pm) - scale_calc(5, scale_pm);
    cmds.push(draw_text(self_str(&track.title), scale_calc(17, scale_pm), t_top, 10, "regular", "black", "white"));
    let a_top = width + scale_calc(156, scale_pm) - scale_calc(5, scale_pm);
    cmds.push(draw_text(self_str(&track.artist), scale_calc(12, scale_pm), a_top, 10, "italic", "black", "white"));
    cmds
}

/// Borrow a string's text.
fn self_str(s: &String) -> (r: &str)
    ensures
        r@ == s@,
{
    s.as_str()
}

} // verus!
