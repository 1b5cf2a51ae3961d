use vstd::prelude::*;

verus! {

/// A parsed texture: RGBA pixel data with its dimensions.
#[derive(Debug, Clone)]
pub struct ParsedTexture {
    pub name: String,
    pub width: u32,
    pub height: u32,
    /// Four bytes (red, green, blue, alpha) per pixel, row by row.
    pub pixels: Vec<u8>,
}

/// One palette color.
#[derive(Clone, Copy, PartialEq, Eq, Debug, Structural)]
pub struct PaletteEntry {
    pub r: u8,
    pub g: u8,
    pub b: u8,
    pub a: u8,
}

/// Why a texture description was rejected.
#[derive(Clone, Copy, PartialEq, Eq, Debug, Structural)]
pub enum TextureError {
    /// The width or height is zero.
    InvalidDimensions,
    /// The pixel grid has the wrong number of rows.
    RowCountMismatch { expected: u32, found: usize },
    /// A row has the wrong number of characters.
    RowWidthMismatch { row: usize, found: usize, expected: u32 },
}

/// The value of one hexadecimal digit, upper or lower case.
pub open spec fn spec_hex_val(c: char) -> Option<u8> {
    if '0' <= c && c <= '9' {
        Option::Some(((c as int) - ('0' as int)) as u8)
    } else if 'a' <= c && c <= 'f' {
        Option::Some(((c as int) - ('a' as int) + 10) as u8)
    } else if 'A' <= c && c <= 'F' {
        Option::Some(((c as int) - ('A' as int) + 10) as u8)
    } else {
        Option::None
    }
}

pub fn hex_val(c: char) -> (r: Option<u8>)
    ensures
        r == spec_hex_val(c),
{
    let v = c as u32;
    if c >= '0' && c <= '9' {
        Some((v - 48) as u8)
    } else if c >= 'a' && c <= 'f' {
        Some((v - 97 + 10) as u8)
    } else if c >= 'A' && c <= 'F' {
        Some((v - 65 + 10) as u8)
    } else {
        None
    }
}

/// The byte two hexadecimal digits spell.
pub open spec fn spec_hex_byte(hi: char, lo: char) -> Option<u8> {
    match (spec_hex_val(hi), spec_hex_val(lo)) {
        (Option::Some(h), Option::Some(l)) => Option::Some((h * 16 + l) as u8),
        _ => Option::None,
    }
}

pub fn hex_byte(hi: char, lo: char) -> (r: Option<u8>)
    ensures
        r == spec_hex_byte(hi, lo),
{
    match (hex_val(hi), hex_val(lo)) {
        (Some(h), Some(l)) => Some(h * 16 + l),
        _ => None,
    }
}

/// The palette color a color word denotes: the word "transparent", or a
/// "#rrggbb" color (opaque), or a "#rrggbbaa" color; anything else denotes
/// nothing and the word is dropped.
pub open spec fn spec_parse_color(s: Seq<char>) -> Option<PaletteEntry> {
    if s == "transparent"@ {
        Option::Some(PaletteEntry { r: 0, g: 0, b: 0, a: 0 })
    } else if s.len() == 7 && s[0] == '#' {
        match (spec_hex_byte(s[1], s[2]), spec_hex_byte(s[3], s[4]), spec_hex_byte(s[5], s[6])) {
            (Option::Some(r), Option::Some(g), Option::Some(b)) => Option::Some(
                PaletteEntry { r, g, b, a: 255 },
            ),
            _ => Option::None,
        }
    } else if s.len() == 9 && s[0] == '#' {
        match (
            spec_hex_byte(s[1], s[2]),
            spec_hex_byte(s[3], s[4]),
            spec_hex_byte(s[5], s[6]),
            spec_hex_byte(s[7], s[8]),
        ) {
            (
                Option::Some(r),
                Option::Some(g),
                Option::Some(b),
                Option::Some(a),
            ) => Option::Some(PaletteEntry { r, g, b, a }),
            _ => Option::None,
        }
    } else {
        Option::None
    }
}

/// Parse one palette color word.
pub fn parse_color(s: &Vec<char>) -> (r: Option<PaletteEntry>)
    ensures
        r == spec_parse_color(s@),
{
    proof {
        reveal_strlit("transparent");
    }
    let transparent: [char; 11] = ['t', 'r', 'a', 'n', 's', 'p', 'a', 'r', 'e', 'n', 't'];
    let mut is_transparent = s.len() == 11;
    if is_transparent {
        let mut i: usize = 0;
        while i < 11
            invariant
                i <= 11,
                s@.len() == 11,
                transparent@ =~= "transparent"@,
                is_transparent == forall|j: int| 0 <= j < i ==> s@[j] == "transparent"@[j],
            decreases 11 - i,
        {
            if s[i] != transparent[i] {
                is_transparent = false;
            }
            proof {
                if !is_transparent {
                } else {
                    assert forall|j: int| 0 <= j < i + 1 implies s@[j] == "transparent"@[j] by {}
                }
            }
            i = i + 1;
        }
    }
    if is_transparent {
        proof {
            assert(s@ =~= "transparent"@);
        }
        return Some(PaletteEntry { r: 0, g: 0, b: 0, a: 0 });
    }
    proof {
        assert(s@ != "transparent"@);
    }
    if s.len() == 7 && s[0] == '#' {
        match (hex_byte(s[1], s[2]), hex_byte(s[3], s[4]), hex_byte(s[5], s[6])) {
            (Some(r), Some(g), Some(b)) => Some(PaletteEntry { r, g, b, a: 255 }),
            _ => None,
        }
    } else if s.len() == 9 && s[0] == '#' {
        match (
            hex_byte(s[1], s[2]),
            hex_byte(s[3], s[4]),
            hex_byte(s[5], s[6]),
            hex_byte(s[7], s[8]),
        ) {
            (Some(r), Some(g), Some(b), Some(a)) => Some(PaletteEntry { r, g, b, a }),
            _ => None,
        }
    } else {
        None
    }
}

/// The palette the raw (key word, color word) pairs build, scanning the
/// first `n` pairs: a key's first character is bound to its parsed color;
/// pairs with empty keys or unparsable colors are dropped. Later pairs for
/// the same character shadow earlier ones.
pub open spec fn spec_palette_upto(pairs: Seq<(Seq<char>, Seq<char>)>, n: int) -> Seq<
    (char, PaletteEntry),
>
    decreases n,
{
    if n <= 0 {
        Seq::empty()
    } else {
        spec_palette_upto(pairs, n - 1) + (if pairs[n - 1].0.len() > 0 {
            match spec_parse_color(pairs[n - 1].1) {
                Option::Some(e) => seq![(pairs[n - 1].0[0], e)],
                Option::None => Seq::empty(),
            }
        } else {
            Seq::empty()
        })
    }
}

/// Build the palette from raw key and color words.
pub fn build_palette(pairs: &Vec<(Vec<char>, Vec<char>)>) -> (r: Vec<(char, PaletteEntry)>)
    ensures
        r@ == spec_palette_upto(
            pairs@.map_values(|p: (Vec<char>, Vec<char>)| (p.0@, p.1@)),
            pairs@.len() as int,
        ),
{
    let ghost gpairs = pairs@.map_values(|p: (Vec<char>, Vec<char>)| (p.0@, p.1@));
    let mut out: Vec<(char, PaletteEntry)> = Vec::new();
    let mut i: usize = 0;
    while i < pairs.len()
        invariant
            i <= pairs@.len(),
            gpairs == pairs@.map_values(|p: (Vec<char>, Vec<char>)| (p.0@, p.1@)),
            out@ == spec_palette_upto(gpairs, i as int),
        decreases pairs@.len() - i,
    {
        let (key, color) = &pairs[i];
        proof {
            assert(gpairs[i as int] == (key@, color@));
        }
        if key.len() > 0 {
            if let Some(e) = parse_color(color) {
                out.push((key[0], e));
            }
        }
        i = i + 1;
    }
    out
}

/// The color bound to `c`: the last palette entry for it, if any.
pub open spec fn spec_palette_lookup(palette: Seq<(char, PaletteEntry)>, c: char) -> Option<
    PaletteEntry,
>
    decreases palette.len(),
{
    if palette.len() == 0 {
        Option::None
    } else if palette.last().0 == c {
        Option::Some(palette.last().1)
    } else {
        spec_palette_lookup(palette.drop_last(), c)
    }
}

/// Look a character up in the palette; the last binding wins.
pub fn palette_lookup(palette: &Vec<(char, PaletteEntry)>, c: char) -> (r: Option<PaletteEntry>)
    ensures
        r == spec_palette_lookup(palette@, c),
{
    let mut i: usize = palette.len();
    proof {
        assert(palette@.take(palette@.len() as int) =~= palette@);
    }
    while i > 0
        invariant
            i <= palette@.len(),
            spec_palette_lookup(palette@, c) == spec_palette_lookup(palette@.take(i as int), c),
        decreases i,
    {
        let (k, e) = palette[i - 1];
        proof {
            assert(palette@.take(i as int).last() == palette@[i - 1]);
            assert(palette@.take(i as int).drop_last() =~= palette@.take(i - 1));
        }
        if k == c {
            return Some(e);
        }
        i = i - 1;
    }
    None
}

/// The four bytes one pixel character expands to: its palette color, or
/// opaque magenta when the character is not in the palette.
pub open spec fn spec_pixel_bytes(palette: Seq<(char, PaletteEntry)>, c: char) -> Seq<u8> {
    match spec_palette_lookup(palette, c) {
        Option::Some(e) => seq![e.r, e.g, e.b, e.a],
        Option::None => seq![255u8, 0u8, 255u8, 255u8],
    }
}

/// The bytes of one pixel row, scanning the first `n` characters.
pub open spec fn spec_row_bytes(palette: Seq<(char, PaletteEntry)>, row: Seq<char>, n: int) -> Seq<
    u8,
>
    decreases n,
{
    if n <= 0 {
        Seq::empty()
    } else {
        spec_row_bytes(palette, row, n - 1) + spec_pixel_bytes(palette, row[n - 1])
    }
}

/// The bytes of the whole pixel grid, scanning the first `n` rows.
pub open spec fn spec_grid_bytes(
    palette: Seq<(char, PaletteEntry)>,
    rows: Seq<Seq<char>>,
    n: int,
) -> Seq<u8>
    decreases n,
{
    if n <= 0 {
        Seq::empty()
    } else {
        spec_grid_bytes(palette, rows, n - 1) + spec_row_bytes(
            palette,
            rows[n - 1],
            rows[n - 1].len() as int,
        )
    }
}

/// Expand the pixel character grid to RGBA bytes: the dimensions must be
/// positive, the grid must have exactly `height` rows of exactly `width`
/// characters, and every character maps to its palette color (magenta when
/// unknown). Errors are reported in that order, naming the first bad row.
pub fn expand_pixels(
    palette: &Vec<(char, PaletteEntry)>,
    rows: &Vec<Vec<char>>,
    width: u32,
    height: u32,
) -> (r: Result<Vec<u8>, TextureError>)
    requires
        width < 0x1000_0000,
    ensures
        match r {
            Ok(pixels) => {
                &&& width > 0 && height > 0
                &&& rows@.len() == height
                &&& forall|i: int| 0 <= i < rows@.len() ==> (#[trigger] rows@[i])@.len() == width
                &&& pixels@ == spec_grid_bytes(
                    palette@,
                    rows@.map_values(|row: Vec<char>| row@),
                    rows@.len() as int,
                )
            },
            Err(TextureError::InvalidDimensions) => width == 0 || height == 0,
            Err(TextureError::RowCountMismatch { expected, found }) => {
                &&& width > 0 && height > 0
                &&& expected == height
                &&& found == rows@.len()
                &&& rows@.len() != height
            },
            Err(TextureError::RowWidthMismatch { row, found, expected }) => {
                &&& width > 0 && height > 0
                &&& rows@.len() == height
                &&& 0 <= row < rows@.len()
                &&& found == rows@[row as int]@.len()
                &&& expected == width
                &&& rows@[row as int]@.len() != width
                &&& forall|i: int| 0 <= i < row ==> (#[trigger] rows@[i])@.len() == width
            },
        },
{
    if width == 0 || height == 0 {
        return Err(TextureError::InvalidDimensions);
    }
    if rows.len() != height as usize {
        return Err(TextureError::RowCountMismatch { expected: height, found: rows.len() });
    }
    let ghost grows = rows@.map_values(|row: Vec<char>| row@);
    let mut pixels: Vec<u8> = Vec::new();
    let mut i: usize = 0;
    while i < rows.len()
        invariant
            i <= rows@.len(),
            width > 0,
            height > 0,
            width < 0x1000_0000,
            rows@.len() == height,
            grows == rows@.map_values(|row: Vec<char>| row@),
            forall|j: int| 0 <= j < i ==> (#[trigger] rows@[j])@.len() == width,
            pixels@ == spec_grid_bytes(palette@, grows, i as int),
        decreases rows@.len() - i,
    {
        let row = &rows[i];
        if row.len() != width as usize {
            return Err(
                TextureError::RowWidthMismatch { row: i, found: row.len(), expected: width },
            );
        }
        let mut j: usize = 0;
        while j < row.len()
            invariant
                j <= row@.len(),
                i < rows@.len(),
                grows == rows@.map_values(|row2: Vec<char>| row2@),
                row == &rows@[i as int],
                pixels@ == spec_grid_bytes(palette@, grows, i as int) + spec_row_bytes(
                    palette@,
                    row@,
                    j as int,
                ),
            decreases row@.len() - j,
        {
            let c = row[j];
            match palette_lookup(palette, c) {
                Some(e) => {
                    pixels.push(e.r);
                    pixels.push(e.g);
                    pixels.push(e.b);
                    pixels.push(e.a);
                },
                None => {
                    pixels.push(255);
                    pixels.push(0);
                    pixels.push(255);
                    pixels.push(255);
                },
            }
            proof {
                assert(pixels@ =~= spec_grid_bytes(palette@, grows, i as int) + spec_row_bytes(
                    palette@,
                    row@,
                    j + 1,
                ));
            }
            j = j + 1;
        }
        proof {
            assert(grows[i as int] == row@);
            assert(pixels@ =~= spec_grid_bytes(palette@, grows, i + 1));
        }
        i = i + 1;
    }
    Ok(pixels)
}

/// Assemble a full texture from its raw description: the palette pairs and
/// the trimmed, non-empty pixel rows. The grid errors come out exactly as
/// `expand_pixels` characterizes them, in the same order.
pub fn parse_texture(
    name: String,
    width: u32,
    height: u32,
    palette_pairs: &Vec<(Vec<char>, Vec<char>)>,
    rows: &Vec<Vec<char>>,
) -> (r: Result<ParsedTexture, TextureError>)
    requires
        width < 0x1000_0000,
    ensures
        match r {
            Ok(t) => {
                &&& t.width == width
                &&& t.height == height
                &&& t.name@ == name@
                &&& t.pixels@ == spec_grid_bytes(
                    spec_palette_upto(
                        palette_pairs@.map_values(|p: (Vec<char>, Vec<char>)| (p.0@, p.1@)),
                        palette_pairs@.len() as int,
                    ),
                    rows@.map_values(|row: Vec<char>| row@),
                    rows@.len() as int,
                )
                &&& width > 0 && height > 0
                &&& rows@.len() == height
                &&& forall|i: int| 0 <= i < rows@.len() ==> (#[trigger] rows@[i])@.len() == width
            },
            Err(TextureError::InvalidDimensions) => width == 0 || height == 0,
            Err(TextureError::RowCountMismatch { expected, found }) => {
                &&& width > 0 && height > 0
                &&& expected == height
                &&& found == rows@.len()
                &&& rows@.len() != height
            },
            Err(TextureError::RowWidthMismatch { row, found, expected }) => {
                &&& width > 0 && height > 0
                &&& rows@.len() == height
                &&& 0 <= row < rows@.len()
                &&& found == rows@[row as int]@.len()
                &&& expected == width
                &&& rows@[row as int]@.len() != width
                &&& forall|i: int| 0 <= i < row ==> (#[trigger] rows@[i])@.len() == width
            },
        },
{
    let palette = build_palette(palette_pairs);
    let pixels = match expand_pixels(&palette, rows, width, height) {
        Ok(p) => p,
        Err(e) => {
            return Err(e);
        },
    };
    Ok(ParsedTexture { name, width, height, pixels })
}

} // verus!
