//! Pixel-buffer layout and textual image emission.

use vstd::prelude::*;

verus! {

/// An already quantized pixel: one 8-bit value per color channel.
#[derive(Clone, Copy, PartialEq, Eq, Structural, Debug)]
pub struct Rgb {
    pub r: u8,
    pub g: u8,
    pub b: u8,
}

/// The character for a single decimal digit.
pub open spec fn digit_char(d: int) -> char {
    if d == 0 {
        '0'
    } else if d == 1 {
        '1'
    } else if d == 2 {
        '2'
    } else if d == 3 {
        '3'
    } else if d == 4 {
        '4'
    } else if d == 5 {
        '5'
    } else if d == 6 {
        '6'
    } else if d == 7 {
        '7'
    } else if d == 8 {
        '8'
    } else {
        '9'
    }
}

/// The decimal representation of a non-negative integer, most significant
/// digit first, with no leading zeros (except for 0 itself).
pub open spec fn dec_rep(n: int) -> Seq<char>
    decreases n,
{
    if n < 10 {
        seq![digit_char(n)]
    } else {
        dec_rep(n / 10) + seq![digit_char(n % 10)]
    }
}

/// The one-character string for a decimal digit.
fn digit_str(d: u32) -> (s: &'static str)
    requires
        d < 10,
    ensures
        s@ == seq![digit_char(d as int)],
{
    proof {
        reveal_strlit("0");
        reveal_strlit("1");
        reveal_strlit("2");
        reveal_strlit("3");
        reveal_strlit("4");
        reveal_strlit("5");
        reveal_strlit("6");
        reveal_strlit("7");
        reveal_strlit("8");
        reveal_strlit("9");
    }
    let s: &'static str = match d {
        0 => "0",
        1 => "1",
        2 => "2",
        3 => "3",
        4 => "4",
        5 => "5",
        6 => "6",
        7 => "7",
        8 => "8",
        _ => "9",
    };
    proof {
        assert(s@ =~= seq![digit_char(d as int)]);
    }
    s
}

/// Format a number in decimal, exactly as `dec_rep` describes it.
pub fn fmt_u32(n: u32) -> (s: String)
    ensures
        s@ == dec_rep(n as int),
    decreases n,
{
    if n < 10 {
        String::from_str(digit_str(n))
    } else {
        let mut s = fmt_u32(n / 10);
        s.append(digit_str(n % 10));
        proof {
            assert(s@ =~= dec_rep(n as int));
        }
        s
    }
}

/// The text a pixel contributes to the emitted image: its three channel
/// values in decimal, each preceded by a single separating space.
pub open spec fn pixel_text(p: Rgb) -> Seq<char> {
    seq![' '] + dec_rep(p.r as int) + seq![' '] + dec_rep(p.g as int) + seq![' '] + dec_rep(
        p.b as int,
    )
}

/// The concatenated text of a whole pixel buffer, in buffer order.
pub open spec fn pixels_text(ps: Seq<Rgb>) -> Seq<char>
    decreases ps.len(),
{
    if ps.len() == 0 {
        Seq::empty()
    } else {
        pixels_text(ps.drop_last()) + pixel_text(ps.last())
    }
}

/// The image header: format tag, width, height, and the maximum channel
/// value, 255.
pub open spec fn ppm_header(w: int, h: int) -> Seq<char> {
    "P3 "@ + dec_rep(w) + " "@ + dec_rep(h) + " 255"@
}

/// The complete textual image: header, then every pixel's three channel
/// values in row-major buffer order, space-separated, with a final newline.
pub open spec fn ppm_text_rep(ps: Seq<Rgb>, w: int, h: int) -> Seq<char> {
    ppm_header(w, h) + pixels_text(ps) + "\n"@
}

proof fn lemma_pixels_text_take(ps: Seq<Rgb>, i: int)
    requires
        0 <= i < ps.len(),
    ensures
        pixels_text(ps.take(i + 1)) == pixels_text(ps.take(i)) + pixel_text(ps[i]),
{
    let t = ps.take(i + 1);
    assert(t.drop_last() =~= ps.take(i));
    assert(t.last() == ps[i]);
}

/// Serialize a quantized pixel buffer into the plain-text image format:
/// a header with the format tag, the image dimensions and the maximum
/// channel value, followed by each pixel's three channel values in
/// row-major order.
pub fn ppm_text(pixels: &Vec<Rgb>, width: u32, height: u32) -> (s: String)
    requires
        pixels@.len() == width * height,
    ensures
        s@ == ppm_text_rep(pixels@, width as int, height as int),
{
    proof {
        reveal_strlit(" ");
        reveal_strlit("\n");
    }
    let mut s = String::from_str("P3 ");
    let w = fmt_u32(width);
    s.append(w.as_str());
    s.append(" ");
    let h = fmt_u32(height);
    s.append(h.as_str());
    s.append(" 255");
    proof {
        assert(s@ =~= ppm_header(width as int, height as int) + pixels_text(
            pixels@.take(0),
        ));
    }
    let mut i: usize = 0;
    while i < pixels.len()
        invariant
            i <= pixels@.len(),
            s@ == ppm_header(width as int, height as int) + pixels_text(pixels@.take(i as int)),
        decreases pixels@.len() - i,
    {
        proof {
            reveal_strlit(" ");
        }
        let p = pixels[i];
        s.append(" ");
        let r = fmt_u32(p.r as u32);
        s.append(r.as_str());
        s.append(" ");
        let g = fmt_u32(p.g as u32);
        s.append(g.as_str());
        s.append(" ");
        let b = fmt_u32(p.b as u32);
        s.append(b.as_str());
        proof {
            lemma_pixels_text_take(pixels@, i as int);
            assert(s@ =~= ppm_header(width as int, height as int) + pixels_text(
                pixels@.take(i + 1),
            ));
        }
        i = i + 1;
    }
    proof {
        assert(pixels@.take(i as int) =~= pixels@);
    }
    s.append("\n");
    proof {
        assert(s@ =~= ppm_text_rep(pixels@, width as int, height as int));
    }
    s
}

/// An already rounded, 255-scaled color channel, clamped into the 8-bit
/// range: values above 255 saturate at 255, values below 0 at 0.
pub open spec fn clamped_channel(scaled: int) -> int {
    if scaled < 0 {
        0
    } else if scaled > 255 {
        255
    } else {
        scaled
    }
}

/// Clamp a rounded, 255-scaled channel value to its 8-bit display value:
/// anything above 255 (a color component above 1.0) becomes 255, anything
/// below 0 becomes 0, and in-range values pass through unchanged.
pub fn quantize_channel(scaled: i64) -> (v: u8)
    ensures
        v == clamped_channel(scaled as int),
{
    if scaled < 0 {
        0
    } else if scaled > 255 {
        255
    } else {
        scaled as u8
    }
}

/// Index of pixel `(x, y)` in the row-major pixel buffer, with the row
/// order flipped: image row 0 is the bottom of the scene, so that the
/// emitted image has its origin at the top left while the world has +Y up.
pub fn pixel_index(x: usize, y: usize, width: usize, height: usize) -> (i: usize)
    requires
        x < width,
        y < height,
        width * height <= usize::MAX,
    ensures
        i == (height - 1 - y) * width + x,
        i < width * height,
{
    proof {
        assert((height - 1 - y) * width + x < width * height) by (nonlinear_arith)
            requires
                x < width,
                y < height,
        ;
    }
    (height - 1 - y) * width + x
}

} // verus!
