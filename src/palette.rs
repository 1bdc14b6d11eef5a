use vstd::prelude::*;

use crate::text::{decimal, push_digits};

verus! {

/// A color of the 6x6x6 cube of the 256-color terminal palette.
#[derive(Clone, Copy, Debug, PartialEq, Eq, Structural)]
pub struct CubeColor {
    pub r: u32,
    pub g: u32,
    pub b: u32,
}

/// Lower bounds of the buckets after the first, in increasing order, on the
/// scale of `scale_entropy`.
pub open spec fn thresholds() -> Seq<u32> {
    seq![
        255, 260, 265, 270, 272, 274, 276, 278, 280, 285, 290, 292, 294, 296, 298, 300, 305, 310,
        312, 314, 316, 318, 320, 322, 324, 326, 328, 330, 334, 340, 342, 344, 346, 350, 355, 360,
        365,
    ]
}

/// The cube color of one bucket.
pub open spec fn cube(r: u32, g: u32, b: u32) -> CubeColor {
    CubeColor { r, g, b }
}

/// The palette from low to high entropy: blue, cyan, green, yellow, orange, red.
/// Bucket `i` covers the scaled values from threshold `i - 1` (the first from
/// zero) up to, not including, threshold `i` (the last one without end).
pub open spec fn palette() -> Seq<CubeColor> {
    seq![
        cube(0, 0, 0), cube(0, 0, 1), cube(0, 0, 2), cube(0, 0, 3), cube(0, 0, 4), cube(0, 0, 5),
        cube(0, 1, 5), cube(0, 1, 4), cube(0, 1, 3), cube(0, 2, 4), cube(1, 4, 5), cube(2, 5, 5),
        cube(2, 4, 5), cube(1, 2, 4), cube(1, 2, 5), cube(2, 2, 5), cube(2, 1, 5), cube(2, 0, 5),
        cube(2, 0, 4), cube(1, 0, 4), cube(1, 0, 3), cube(1, 0, 2), cube(2, 0, 3), cube(3, 0, 4),
        cube(4, 0, 5), cube(4, 0, 4), cube(5, 0, 5), cube(5, 0, 4), cube(5, 0, 3), cube(4, 0, 3),
        cube(4, 0, 2), cube(4, 0, 1), cube(5, 0, 2), cube(5, 0, 1), cube(5, 0, 0), cube(4, 0, 0),
        cube(3, 0, 0), cube(2, 0, 0),
    ]
}

/// `i` is the bucket of `scaled`: every threshold before it is at most
/// `scaled`, and the one at `i`, where there is one, is above it.
pub open spec fn is_bucket_of(i: int, scaled: u32) -> bool {
    &&& 0 <= i <= thresholds().len()
    &&& forall|j: int| 0 <= j < i ==> thresholds()[j] <= scaled
    &&& i < thresholds().len() ==> scaled < thresholds()[i]
}

/// The first bucket, from `i` on, whose threshold lies above `scaled`, or the
/// last bucket.
pub open spec fn bucket_from(scaled: u32, i: int) -> int
    decreases thresholds().len() - i,
{
    if i < 0 || i >= thresholds().len() || scaled < thresholds()[i] {
        i
    } else {
        bucket_from(scaled, i + 1)
    }
}

/// The bucket of the scaled entropy value `scaled`.
pub open spec fn bucket_of(scaled: u32) -> int {
    bucket_from(scaled, 0)
}

/// Every scaled value falls in one bucket of the palette.
pub proof fn lemma_bucket_in_palette(scaled: u32)
    ensures
        0 <= bucket_of(scaled) < palette().len(),
        is_bucket_of(bucket_of(scaled), scaled),
{
    lemma_bucket_from(scaled, 0);
}

proof fn lemma_bucket_from(scaled: u32, i: int)
    requires
        0 <= i <= thresholds().len(),
        forall|j: int| 0 <= j < i ==> thresholds()[j] <= scaled,
    ensures
        i <= bucket_from(scaled, i) <= thresholds().len(),
        is_bucket_of(bucket_from(scaled, i), scaled),
    decreases thresholds().len() - i,
{
    if i < thresholds().len() && scaled >= thresholds()[i] {
        lemma_bucket_from(scaled, i + 1);
    }
}

/// The components of every palette color are cube coordinates, 0 to 5.
pub proof fn lemma_palette_in_cube()
    ensures
        palette().len() == thresholds().len() + 1,
        forall|i: int|
            0 <= i < palette().len() ==> #[trigger] palette()[i].r <= 5 && palette()[i].g <= 5
                && palette()[i].b <= 5,
{
    assert forall|i: int| 0 <= i < palette().len() implies #[trigger] palette()[i].r <= 5
        && palette()[i].g <= 5 && palette()[i].b <= 5 by {
        let p = palette();
        assert(0 <= i < 38);
    }
}

fn threshold_table() -> (t: Vec<u32>)
    ensures
        t@ == thresholds(),
{
    let t: Vec<u32> = vec![
        255, 260, 265, 270, 272, 274, 276, 278, 280, 285, 290, 292, 294, 296, 298, 300, 305, 310,
        312, 314, 316, 318, 320, 322, 324, 326, 328, 330, 334, 340, 342, 344, 346, 350, 355, 360,
        365,
    ];
    assert(t@ =~= thresholds());
    t
}

fn palette_table() -> (p: Vec<CubeColor>)
    ensures
        p@ == palette(),
{
    let p: Vec<CubeColor> = vec![
        CubeColor { r: 0, g: 0, b: 0 }, CubeColor { r: 0, g: 0, b: 1 },
        CubeColor { r: 0, g: 0, b: 2 }, CubeColor { r: 0, g: 0, b: 3 },
        CubeColor { r: 0, g: 0, b: 4 }, CubeColor { r: 0, g: 0, b: 5 },
        CubeColor { r: 0, g: 1, b: 5 }, CubeColor { r: 0, g: 1, b: 4 },
        CubeColor { r: 0, g: 1, b: 3 }, CubeColor { r: 0, g: 2, b: 4 },
        CubeColor { r: 1, g: 4, b: 5 }, CubeColor { r: 2, g: 5, b: 5 },
        CubeColor { r: 2, g: 4, b: 5 }, CubeColor { r: 1, g: 2, b: 4 },
        CubeColor { r: 1, g: 2, b: 5 }, CubeColor { r: 2, g: 2, b: 5 },
        CubeColor { r: 2, g: 1, b: 5 }, CubeColor { r: 2, g: 0, b: 5 },
        CubeColor { r: 2, g: 0, b: 4 }, CubeColor { r: 1, g: 0, b: 4 },
        CubeColor { r: 1, g: 0, b: 3 }, CubeColor { r: 1, g: 0, b: 2 },
        CubeColor { r: 2, g: 0, b: 3 }, CubeColor { r: 3, g: 0, b: 4 },
        CubeColor { r: 4, g: 0, b: 5 }, CubeColor { r: 4, g: 0, b: 4 },
        CubeColor { r: 5, g: 0, b: 5 }, CubeColor { r: 5, g: 0, b: 4 },
        CubeColor { r: 5, g: 0, b: 3 }, CubeColor { r: 4, g: 0, b: 3 },
        CubeColor { r: 4, g: 0, b: 2 }, CubeColor { r: 4, g: 0, b: 1 },
        CubeColor { r: 5, g: 0, b: 2 }, CubeColor { r: 5, g: 0, b: 1 },
        CubeColor { r: 5, g: 0, b: 0 }, CubeColor { r: 4, g: 0, b: 0 },
        CubeColor { r: 3, g: 0, b: 0 }, CubeColor { r: 2, g: 0, b: 0 },
    ];
    assert(p@ =~= palette());
    p
}

/// The number of buckets of the palette.
pub fn palette_len() -> (n: usize)
    ensures
        n == palette().len(),
{
    38
}

/// The color of bucket `i`.
pub fn palette_color(i: usize) -> (c: CubeColor)
    requires
        i < palette().len(),
    ensures
        c == palette()[i as int],
{
    let p = palette_table();
    p[i]
}

/// The bucket of a scaled entropy value: the first one whose threshold lies
/// above `scaled`, or the last one.
pub fn bucket(scaled: u32) -> (i: usize)
    ensures
        i == bucket_of(scaled),
        is_bucket_of(i as int, scaled),
        i < palette().len(),
{
    let t = threshold_table();
    let mut i: usize = 0;
    while i < t.len() && t[i] <= scaled
        invariant
            t@ == thresholds(),
            0 <= i <= t@.len(),
            forall|j: int| 0 <= j < i ==> thresholds()[j] <= scaled,
            bucket_from(scaled, i as int) == bucket_of(scaled),
        decreases t@.len() - i,
    {
        i = i + 1;
    }
    i
}

/// The cube color that stands for a scaled entropy value.
pub fn entropy_color(scaled: u32) -> (c: CubeColor)
    ensures
        c == palette()[bucket_of(scaled)],
{
    let i = bucket(scaled);
    palette_color(i)
}

/// The index in the 256-color terminal palette of the cube color (r, g, b).
pub open spec fn color_index(r: nat, g: nat, b: nat) -> nat {
    16 + 36 * r + 6 * g + b
}

/// The terminal palette index of a cube color.
pub open spec fn cube_index(c: CubeColor) -> nat {
    color_index(c.r as nat, c.g as nat, c.b as nat)
}

/// The escape that sets the foreground color, up to the color index.
pub open spec fn foreground_prefix() -> Seq<char> {
    seq!['\x1b', '[', '3', '8', ';', '5', ';']
}

/// The escape that sets the background color, up to the color index.
pub open spec fn background_prefix() -> Seq<char> {
    seq!['\x1b', '[', '4', '8', ';', '5', ';']
}

/// The escape that restores the default colors.
pub open spec fn reset_escape() -> Seq<char> {
    seq!['\x1b', '[', '0', 'm']
}

/// `text` between the escape `prefix` with the color index `index` and the
/// reset escape.
pub open spec fn colored(prefix: Seq<char>, index: nat, text: Seq<char>) -> Seq<char> {
    prefix + decimal(index) + seq!['m'] + text + reset_escape()
}

fn wrap_colored(fore: bool, index: u32, s: &String) -> (out: String)
    ensures
        out@ == colored(
            if fore {
                foreground_prefix()
            } else {
                background_prefix()
            },
            index as nat,
            s@,
        ),
{
    let mut out = String::new();
    if fore {
        proof { reveal_strlit("\x1b[38;5;"); }
        out.append("\x1b[38;5;");
        assert(out@ =~= foreground_prefix());
    } else {
        proof { reveal_strlit("\x1b[48;5;"); }
        out.append("\x1b[48;5;");
        assert(out@ =~= background_prefix());
    }
    push_digits(&mut out, index as u64, 10);
    proof { reveal_strlit("m"); reveal_strlit("\x1b[0m"); }
    out.append("m");
    out.append(s.as_str());
    out.append("\x1b[0m");
    out
}

/// `s` in the foreground color of the bucket of the scaled entropy value
/// `scaled`.
pub fn ansi_rgb_string_special(s: String, scaled: u32) -> (out: String)
    ensures
        out@ == colored(foreground_prefix(), cube_index(palette()[bucket_of(scaled)]), s@),
{
    proof {
        lemma_bucket_in_palette(scaled);
        lemma_palette_in_cube();
    }
    let c = entropy_color(scaled);
    let index = 16 + c.r * 36 + c.g * 6 + c.b;
    wrap_colored(true, index, &s)
}

/// `s` on the background color (r, g, b) of the color cube; `s` alone where a
/// component is above 6.
pub fn ansi_rgb_string(s: String, r: u32, g: u32, b: u32) -> (out: String)
    ensures
        r > 6 || g > 6 || b > 6 ==> out@ == s@,
        r <= 6 && g <= 6 && b <= 6 ==> out@ == colored(
            background_prefix(),
            color_index(r as nat, g as nat, b as nat),
            s@,
        ),
{
    if r > 6 || g > 6 || b > 6 {
        return s;
    }
    let index = 16 + r * 36 + g * 6 + b;
    wrap_colored(false, index, &s)
}

} // verus!
