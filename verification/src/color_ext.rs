//! Colors as red, green and blue.

use vstd::prelude::*;
use ratatui::style::Color;
use crate::interpolation::ALPHA_ONE;

verus! {

/// The red, green and blue of the sixteen named colors, by their number in the palette.
pub open spec fn named_rgb(n: u8) -> (u8, u8, u8) {
    if n == 0 {
        (0u8, 0u8, 0u8)
    } else if n == 1 {
        (128u8, 0u8, 0u8)
    } else if n == 2 {
        (0u8, 128u8, 0u8)
    } else if n == 3 {
        (128u8, 128u8, 0u8)
    } else if n == 4 {
        (0u8, 0u8, 128u8)
    } else if n == 5 {
        (128u8, 0u8, 128u8)
    } else if n == 6 {
        (0u8, 128u8, 128u8)
    } else if n == 7 {
        (192u8, 192u8, 192u8)
    } else if n == 8 {
        (128u8, 128u8, 128u8)
    } else if n == 9 {
        (255u8, 0u8, 0u8)
    } else if n == 10 {
        (0u8, 255u8, 0u8)
    } else if n == 11 {
        (255u8, 255u8, 0u8)
    } else if n == 12 {
        (0u8, 0u8, 255u8)
    } else if n == 13 {
        (255u8, 0u8, 255u8)
    } else if n == 14 {
        (0u8, 255u8, 255u8)
    } else {
        (255u8, 255u8, 255u8)
    }
}

/// One of the six intensities of the color cube.
pub open spec fn cube_level(k: int) -> u8 {
    if k <= 0 {
        0
    } else {
        (55 + 40 * k) as u8
    }
}

/// The red, green and blue of a color of the palette of 256: the sixteen named colors,
/// then a cube of six intensities a side, then twenty-four grays.
pub open spec fn indexed_rgb(i: u8) -> (u8, u8, u8) {
    if i < 16 {
        named_rgb(i)
    } else if i < 232 {
        let n = i - 16;
        (cube_level(n / 36), cube_level((n / 6) % 6), cube_level(n % 6))
    } else {
        let v = (8 + 10 * (i - 232)) as u8;
        (v, v, v)
    }
}

/// The red, green and blue of a color; the terminal's own color counts as black.
pub open spec fn rgb_of(color: Color) -> (u8, u8, u8) {
    match color {
        Color::Rgb(r, g, b) => (r, g, b),
        Color::Reset => (0u8, 0u8, 0u8),
        Color::Black => named_rgb(0),
        Color::Red => named_rgb(1),
        Color::Green => named_rgb(2),
        Color::Yellow => named_rgb(3),
        Color::Blue => named_rgb(4),
        Color::Magenta => named_rgb(5),
        Color::Cyan => named_rgb(6),
        Color::Gray => named_rgb(7),
        Color::DarkGray => named_rgb(8),
        Color::LightRed => named_rgb(9),
        Color::LightGreen => named_rgb(10),
        Color::LightYellow => named_rgb(11),
        Color::LightBlue => named_rgb(12),
        Color::LightMagenta => named_rgb(13),
        Color::LightCyan => named_rgb(14),
        Color::White => named_rgb(15),
        Color::Indexed(i) => indexed_rgb(i),
    }
}

fn named(n: u8) -> (c: (u8, u8, u8))
    ensures
        c == named_rgb(n),
{
    if n == 0 {
        (0, 0, 0)
    } else if n == 1 {
        (128, 0, 0)
    } else if n == 2 {
        (0, 128, 0)
    } else if n == 3 {
        (128, 128, 0)
    } else if n == 4 {
        (0, 0, 128)
    } else if n == 5 {
        (128, 0, 128)
    } else if n == 6 {
        (0, 128, 128)
    } else if n == 7 {
        (192, 192, 192)
    } else if n == 8 {
        (128, 128, 128)
    } else if n == 9 {
        (255, 0, 0)
    } else if n == 10 {
        (0, 255, 0)
    } else if n == 11 {
        (255, 255, 0)
    } else if n == 12 {
        (0, 0, 255)
    } else if n == 13 {
        (255, 0, 255)
    } else if n == 14 {
        (0, 255, 255)
    } else {
        (255, 255, 255)
    }
}

fn level(k: u8) -> (v: u8)
    requires
        k < 6,
    ensures
        v == cube_level(k as int),
{
    if k == 0 {
        0
    } else {
        55 + 40 * k
    }
}

fn indexed(i: u8) -> (c: (u8, u8, u8))
    ensures
        c == indexed_rgb(i),
{
    if i < 16 {
        named(i)
    } else if i < 232 {
        let n: u8 = i - 16;
        (level(n / 36), level((n / 6) % 6), level(n % 6))
    } else {
        let v: u8 = 8 + 10 * (i - 232);
        (v, v, v)
    }
}

/// The red, green and blue of a color.
pub fn to_rgb(color: Color) -> (c: (u8, u8, u8))
    ensures
        c == rgb_of(color),
{
    match color {
        Color::Rgb(r, g, b) => (r, g, b),
        Color::Reset => (0, 0, 0),
        Color::Black => named(0),
        Color::Red => named(1),
        Color::Green => named(2),
        Color::Yellow => named(3),
        Color::Blue => named(4),
        Color::Magenta => named(5),
        Color::Cyan => named(6),
        Color::Gray => named(7),
        Color::DarkGray => named(8),
        Color::LightRed => named(9),
        Color::LightGreen => named(10),
        Color::LightYellow => named(11),
        Color::LightBlue => named(12),
        Color::LightMagenta => named(13),
        Color::LightCyan => named(14),
        Color::White => named(15),
        Color::Indexed(i) => indexed(i),
    }
}

/// The value between two channels at the share `alpha` of the way from the first to the
/// second, rounded down.
pub open spec fn lerp_channel(from: u8, to: u8, alpha: u32) -> u8 {
    ((from * (ALPHA_ONE - alpha) + to * alpha) / (ALPHA_ONE as int)) as u8
}

/// The color between two colors at the share `alpha` of the way from the first to the
/// second: the first at alpha zero, the second at alpha one, and in between the color
/// whose red, green and blue lie between theirs.
pub open spec fn lerp_color(from: Color, to: Color, alpha: u32) -> Color {
    if alpha == 0 {
        from
    } else if alpha >= ALPHA_ONE {
        to
    } else {
        let (a, b) = (rgb_of(from), rgb_of(to));
        Color::Rgb(
            lerp_channel(a.0, b.0, alpha),
            lerp_channel(a.1, b.1, alpha),
            lerp_channel(a.2, b.2, alpha),
        )
    }
}

fn blend(from: u8, to: u8, alpha: u32) -> (c: u8)
    requires
        alpha <= ALPHA_ONE,
    ensures
        c == lerp_channel(from, to, alpha),
{
    assert(0 <= from * (65536 - alpha) + to * alpha <= 255 * 65536) by (nonlinear_arith)
        requires
            0 <= from <= 255,
            0 <= to <= 255,
            0 <= alpha <= 65536,
    ;
    let sum: u64 = (from as u64) * ((ALPHA_ONE - alpha) as u64) + (to as u64) * (alpha as u64);
    (sum / (ALPHA_ONE as u64)) as u8
}

/// The color between two colors at the share `alpha` of the way from the first to the
/// second.
pub fn lerp(from: Color, to: Color, alpha: u32) -> (c: Color)
    ensures
        c == lerp_color(from, to, alpha),
{
    if alpha == 0 {
        from
    } else if alpha >= ALPHA_ONE {
        to
    } else {
        let (a, b) = (to_rgb(from), to_rgb(to));
        Color::Rgb(blend(a.0, b.0, alpha), blend(a.1, b.1, alpha), blend(a.2, b.2, alpha))
    }
}

/// The intensity of the color cube that lies nearest to a channel: the six intensities
/// are 0, 95, 135, 175, 215 and 255.
pub open spec fn nearest_level(c: u8) -> int {
    if c < 48 {
        0
    } else if c < 115 {
        1
    } else if c < 155 {
        2
    } else if c < 195 {
        3
    } else if c < 235 {
        4
    } else {
        5
    }
}

/// The number of the gray of the palette of 256 that lies nearest to a gray: black and
/// white of the color cube at the ends, one of the twenty-four grays in between.
pub open spec fn nearest_gray(v: u8) -> u8 {
    if v < 8 {
        16
    } else if v > 248 {
        231
    } else {
        (232 + (v - 8) * 24 / 247) as u8
    }
}

/// The number of the color of the palette of 256 that stands for a red, green and blue: a
/// gray where the three are equal, else the color of the cube with the nearest
/// intensities.
pub open spec fn nearest_index(r: u8, g: u8, b: u8) -> u8 {
    if r == g && g == b {
        nearest_gray(r)
    } else {
        (16 + 36 * nearest_level(r) + 6 * nearest_level(g) + nearest_level(b)) as u8
    }
}

/// The color of the palette of 256 that stands for a color: colors given as red, green
/// and blue are replaced, the others belong to the palette already.
pub open spec fn indexed_color(color: Color) -> Color {
    match color {
        Color::Rgb(r, g, b) => Color::Indexed(nearest_index(r, g, b)),
        _ => color,
    }
}

fn level_of(c: u8) -> (k: u8)
    ensures
        k == nearest_level(c),
        k <= 5,
{
    if c < 48 {
        0
    } else if c < 115 {
        1
    } else if c < 155 {
        2
    } else if c < 195 {
        3
    } else if c < 235 {
        4
    } else {
        5
    }
}

/// A color of the color cube that is no gray stands for itself: the color of the palette
/// that is nearest to its red, green and blue is the color itself.
pub proof fn lemma_cube_color_is_nearest(r: int, g: int, b: int)
    requires
        0 <= r < 6,
        0 <= g < 6,
        0 <= b < 6,
        !(r == g && g == b),
    ensures
        ({
            let i = (16 + 36 * r + 6 * g + b) as u8;
            let c = indexed_rgb(i);
            &&& c == (cube_level(r), cube_level(g), cube_level(b))
            &&& nearest_index(c.0, c.1, c.2) == i
        }),
{
    let n = 36 * r + 6 * g + b;
    assert(n / 36 == r && (n / 6) % 6 == g && n % 6 == b) by (nonlinear_arith)
        requires
            n == 36 * r + 6 * g + b,
            0 <= r < 6,
            0 <= g < 6,
            0 <= b < 6,
    ;
}

/// The color of the palette of 256 that stands for a color.
pub fn as_indexed_color(color: Color) -> (c: Color)
    ensures
        c == indexed_color(color),
{
    match color {
        Color::Rgb(r, g, b) => {
            if r == g && g == b {
                if r < 8 {
                    Color::Indexed(16)
                } else if r > 248 {
                    Color::Indexed(231)
                } else {
                    Color::Indexed((232 + (r as u32 - 8) * 24 / 247) as u8)
                }
            } else {
                Color::Indexed(16 + 36 * level_of(r) + 6 * level_of(g) + level_of(b))
            }
        },
        _ => color,
    }
}

} // verus!
