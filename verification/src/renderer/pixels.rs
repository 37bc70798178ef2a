//! Sub-cell "pixel" output: a buffer rendered at a multiple of the cell
//! resolution is packed, cell by cell, into one block, sextant, octant or
//! braille glyph.

use vstd::prelude::*;

verus! {

/// How a character cell is used to display rendered pixels
#[derive(Debug, Clone, Copy, PartialEq, Eq, Hash, Structural)]
pub enum PixelMode {
    /// One pixel per cell, drawn with a `CharStyle` brightness ramp
    Cell,
    /// 1x2 pixels per cell: square pixels, two colors per cell
    HalfBlock,
    /// 2x2 pixels per cell, two colors per cell
    Quadrant,
    /// 2x3 pixels per cell (sextants)
    Sextant,
    /// 2x4 pixels per cell (octants)
    Octant,
    /// 2x4 braille dots per cell, one color, shading by ordered dithering
    Braille,
}

impl Default for PixelMode {
    fn default() -> (r: Self)
        ensures
            r == PixelMode::Cell,
    {
        PixelMode::Cell
    }
}

impl PixelMode {
    /// Position of the mode in the cycle `Cell, HalfBlock, ..., Braille`.
    pub open spec fn position(self) -> nat {
        match self {
            PixelMode::Cell => 0,
            PixelMode::HalfBlock => 1,
            PixelMode::Quadrant => 2,
            PixelMode::Sextant => 3,
            PixelMode::Octant => 4,
            PixelMode::Braille => 5,
        }
    }

    pub open spec fn spec_next(self) -> Self {
        match self {
            PixelMode::Cell => PixelMode::HalfBlock,
            PixelMode::HalfBlock => PixelMode::Quadrant,
            PixelMode::Quadrant => PixelMode::Sextant,
            PixelMode::Sextant => PixelMode::Octant,
            PixelMode::Octant => PixelMode::Braille,
            PixelMode::Braille => PixelMode::Cell,
        }
    }

    pub fn next(self) -> (r: Self)
        ensures
            r == self.spec_next(),
            r.position() == (self.position() + 1) % 6,
    {
        match self {
            PixelMode::Cell => PixelMode::HalfBlock,
            PixelMode::HalfBlock => PixelMode::Quadrant,
            PixelMode::Quadrant => PixelMode::Sextant,
            PixelMode::Sextant => PixelMode::Octant,
            PixelMode::Octant => PixelMode::Braille,
            PixelMode::Braille => PixelMode::Cell,
        }
    }

    pub open spec fn spec_name(self) -> Seq<char> {
        match self {
            PixelMode::Cell => "Cell"@,
            PixelMode::HalfBlock => "HalfBlock"@,
            PixelMode::Quadrant => "Quadrant"@,
            PixelMode::Sextant => "Sextant"@,
            PixelMode::Octant => "Octant"@,
            PixelMode::Braille => "Braille"@,
        }
    }

    pub fn name(self) -> (r: &'static str)
        ensures
            r@ == self.spec_name(),
    {
        match self {
            PixelMode::Cell => "Cell",
            PixelMode::HalfBlock => "HalfBlock",
            PixelMode::Quadrant => "Quadrant",
            PixelMode::Sextant => "Sextant",
            PixelMode::Octant => "Octant",
            PixelMode::Braille => "Braille",
        }
    }

    /// Pixels per cell as `(columns, rows)`.
    pub open spec fn spec_subdivisions(self) -> (u16, u16) {
        match self {
            PixelMode::Cell => (1, 1),
            PixelMode::HalfBlock => (1, 2),
            PixelMode::Quadrant => (2, 2),
            PixelMode::Sextant => (2, 3),
            PixelMode::Octant => (2, 4),
            PixelMode::Braille => (2, 4),
        }
    }

    /// Pixels per cell as `(columns, rows)`
    pub fn subdivisions(self) -> (r: (u16, u16))
        ensures
            r == self.spec_subdivisions(),
    {
        match self {
            PixelMode::Cell => (1, 1),
            PixelMode::HalfBlock => (1, 2),
            PixelMode::Quadrant => (2, 2),
            PixelMode::Sextant => (2, 3),
            PixelMode::Octant | PixelMode::Braille => (2, 4),
        }
    }
}


/// Half-block glyphs indexed by the top (bit 0) and bottom (bit 1) pixel.
pub const HALF_BLOCKS: [char; 4] = [' ', '▀', '▄', '█'];

/// Quadrant glyphs indexed by the row-major 2x2 sub-pixel bit pattern.
pub const QUADRANTS: [char; 16] = [
    ' ', '▘', '▝', '▀', '▖', '▌', '▞', '▛', '▗', '▚', '▐', '▜', '▄', '▙', '▟', '█',
];

/// Sextant glyphs indexed by the row-major 2x3 sub-pixel bit pattern.
pub const SEXTANTS: [char; 64] = [
    ' ', '🬀', '🬁', '🬂', '🬃', '🬄', '🬅', '🬆', '🬇', '🬈', '🬉', '🬊', '🬋', '🬌', '🬍', '🬎',
    '🬏', '🬐', '🬑', '🬒', '🬓', '▌', '🬔', '🬕', '🬖', '🬗', '🬘', '🬙', '🬚', '🬛', '🬜', '🬝',
    '🬞', '🬟', '🬠', '🬡', '🬢', '🬣', '🬤', '🬥', '🬦', '🬧', '▐', '🬨', '🬩', '🬪', '🬫', '🬬',
    '🬭', '🬮', '🬯', '🬰', '🬱', '🬲', '🬳', '🬴', '🬵', '🬶', '🬷', '🬸', '🬹', '🬺', '🬻', '█',
];

/// Octant glyphs indexed by the row-major 2x4 sub-pixel bit pattern.
pub const OCTANTS: [char; 256] = [
    ' ', '𜺨', '𜺫', '🮂', '𜴀', '▘', '𜴁', '𜴂', '𜴃', '𜴄', '▝', '𜴅', '𜴆', '𜴇', '𜴈', '▀',
    '𜴉', '𜴊', '𜴋', '𜴌', '🯦', '𜴍', '𜴎', '𜴏', '𜴐', '𜴑', '𜴒', '𜴓', '𜴔', '𜴕', '𜴖', '𜴗',
    '𜴘', '𜴙', '𜴚', '𜴛', '𜴜', '𜴝', '𜴞', '𜴟', '🯧', '𜴠', '𜴡', '𜴢', '𜴣', '𜴤', '𜴥', '𜴦',
    '𜴧', '𜴨', '𜴩', '𜴪', '𜴫', '𜴬', '𜴭', '𜴮', '𜴯', '𜴰', '𜴱', '𜴲', '𜴳', '𜴴', '𜴵', '🮅',
    '𜺣', '𜴶', '𜴷', '𜴸', '𜴹', '𜴺', '𜴻', '𜴼', '𜴽', '𜴾', '𜴿', '𜵀', '𜵁', '𜵂', '𜵃', '𜵄',
    '▖', '𜵅', '𜵆', '𜵇', '𜵈', '▌', '𜵉', '𜵊', '𜵋', '𜵌', '▞', '𜵍', '𜵎', '𜵏', '𜵐', '▛',
    '𜵑', '𜵒', '𜵓', '𜵔', '𜵕', '𜵖', '𜵗', '𜵘', '𜵙', '𜵚', '𜵛', '𜵜', '𜵝', '𜵞', '𜵟', '𜵠',
    '𜵡', '𜵢', '𜵣', '𜵤', '𜵥', '𜵦', '𜵧', '𜵨', '𜵩', '𜵪', '𜵫', '𜵬', '𜵭', '𜵮', '𜵯', '𜵰',
    '𜺠', '𜵱', '𜵲', '𜵳', '𜵴', '𜵵', '𜵶', '𜵷', '𜵸', '𜵹', '𜵺', '𜵻', '𜵼', '𜵽', '𜵾', '𜵿',
    '𜶀', '𜶁', '𜶂', '𜶃', '𜶄', '𜶅', '𜶆', '𜶇', '𜶈', '𜶉', '𜶊', '𜶋', '𜶌', '𜶍', '𜶎', '𜶏',
    '▗', '𜶐', '𜶑', '𜶒', '𜶓', '▚', '𜶔', '𜶕', '𜶖', '𜶗', '▐', '𜶘', '𜶙', '𜶚', '𜶛', '▜',
    '𜶜', '𜶝', '𜶞', '𜶟', '𜶠', '𜶡', '𜶢', '𜶣', '𜶤', '𜶥', '𜶦', '𜶧', '𜶨', '𜶩', '𜶪', '𜶫',
    '▂', '𜶬', '𜶭', '𜶮', '𜶯', '𜶰', '𜶱', '𜶲', '𜶳', '𜶴', '𜶵', '𜶶', '𜶷', '𜶸', '𜶹', '𜶺',
    '𜶻', '𜶼', '𜶽', '𜶾', '𜶿', '𜷀', '𜷁', '𜷂', '𜷃', '𜷄', '𜷅', '𜷆', '𜷇', '𜷈', '𜷉', '𜷊',
    '𜷋', '𜷌', '𜷍', '𜷎', '𜷏', '𜷐', '𜷑', '𜷒', '𜷓', '𜷔', '𜷕', '𜷖', '𜷗', '𜷘', '𜷙', '𜷚',
    '▄', '𜷛', '𜷜', '𜷝', '𜷞', '▙', '𜷟', '𜷠', '𜷡', '𜷢', '▟', '𜷣', '▆', '𜷤', '𜷥', '█',
];

/// Whether bit `i` of `mask` is set.
pub open spec fn has_bit(mask: usize, i: usize) -> bool {
    (mask >> i) & 1usize == 1usize
}

/// Number of sub-pixels in one cell of a mode.
pub open spec fn cell_pixels(mode: PixelMode) -> nat {
    match mode {
        PixelMode::Cell => 1,
        PixelMode::HalfBlock => 2,
        PixelMode::Quadrant => 4,
        PixelMode::Sextant => 6,
        PixelMode::Octant => 8,
        PixelMode::Braille => 8,
    }
}

/// `flags` are the sub-pixels of one cell in row-major order, and bit `i` of
/// `mask` is set exactly when `flags[i]` is, with no bit beyond them.
pub open spec fn packs(mask: usize, flags: Seq<bool>) -> bool {
    &&& flags.len() <= 8
    &&& mask < (1usize << flags.len())
    &&& forall|i: int| 0 <= i < flags.len() ==> #[trigger] flags[i] == has_bit(mask, i as usize)
}

proof fn lemma_set_bit(m: usize, i: usize, j: usize, k: usize)
    by (bit_vector)
    requires
        i < 8,
        k == i + 1,
        j < 8,
        m < (1usize << i),
    ensures
        (m | (1usize << i)) < (1usize << k),
        m < (1usize << k),
        j < i ==> (((m | (1usize << i)) >> j) & 1usize == 1usize) == ((m >> j) & 1usize == 1usize),
        j == i ==> ((m | (1usize << i)) >> j) & 1usize == 1usize,
        j == i ==> (m >> j) & 1usize == 0usize,
{
}

/// Pack the flags of one cell's sub-pixels (row-major) into a bit mask:
/// bit `i` is flag `i`.
pub fn pack_mask(flags: &[bool]) -> (mask: usize)
    requires
        flags@.len() <= 8,
    ensures
        packs(mask, flags@),
        mask == packed(flags@),
{
    let n = flags.len();
    let mut mask: usize = 0;
    let mut i: usize = 0;
    assert(0usize < (1usize << 0usize)) by (bit_vector);
    while i < n
        invariant
            n == flags@.len(),
            n <= 8,
            i <= n,
            mask < (1usize << i),
            forall|j: int| 0 <= j < i ==> #[trigger] flags@[j] == has_bit(mask, j as usize),
            mask == packed(flags@.take(i as int)),
        decreases n - i,
    {
        let old_mask = mask;
        proof {
            lemma_set_bit(old_mask, i, i, (i + 1) as usize);
        }
        if flags[i] {
            mask = mask | (1usize << i);
        }
        proof {
            lemma_or_zero(old_mask);
        }
        assert forall|j: int| 0 <= j < i + 1 implies #[trigger] flags@[j] == has_bit(mask, j as usize) by {
            lemma_set_bit(old_mask, i, j as usize, (i + 1) as usize);
        }
        assert(flags@.take(i + 1).drop_last() =~= flags@.take(i as int));
        i = i + 1;
    }
    assert(flags@.take(n as int) =~= flags@);
    mask
}

/// Braille dot bit (offset from U+2800) for each row-major position of a
/// 2x4 cell: dots 1, 4, 2, 5, 3, 6, 7, 8.
pub open spec fn braille_dot(i: int) -> u32 {
    seq![0x01u32, 0x08, 0x02, 0x10, 0x04, 0x20, 0x40, 0x80][i]
}

/// The dots lit by the first `n` bits of `mask`.
pub open spec fn braille_dots(mask: usize, n: nat) -> u32
    decreases n,
{
    if n == 0 {
        0
    } else {
        braille_dots(mask, (n - 1) as nat) | (if has_bit(mask, (n - 1) as usize) {
            braille_dot(n - 1)
        } else {
            0
        })
    }
}

/// `char::from_u32`: the character with the given code point, if it is a
/// Unicode scalar value (not a surrogate, at most U+10FFFF).
#[verifier::external_body]
fn char_from_u32(v: u32) -> (r: Option<char>)
    ensures
        (v <= 0xD7FF || (0xE000 <= v && v <= 0x10FFFF)) ==> r == Some(v as char),
        !(v <= 0xD7FF || (0xE000 <= v && v <= 0x10FFFF)) ==> r is None,
{
    char::from_u32(v)
}

proof fn lemma_or_byte(a: u32, b: u32)
    by (bit_vector)
    requires
        a <= 0xFF,
        b <= 0xFF,
    ensures
        a | b <= 0xFF,
        a | 0 == a,
{
}

/// Braille glyph for a row-major 2x4 bit mask (bits above 7 are ignored).
pub fn braille(mask: usize) -> (r: char)
    ensures
        r as u32 == 0x2800 + braille_dots(mask, 8),
{
    let dots: [u32; 8] = [0x01, 0x08, 0x02, 0x10, 0x04, 0x20, 0x40, 0x80];
    let mut bits: u32 = 0;
    let mut i: usize = 0;
    while i < 8
        invariant
            i <= 8,
            bits == braille_dots(mask, i as nat),
            bits <= 0xFF,
            forall|k: int| 0 <= k < 8 ==> #[trigger] dots@[k] == braille_dot(k),
        decreases 8 - i,
    {
        proof {
            lemma_or_byte(bits, dots@[i as int]);
        }
        if (mask >> i) & 1 == 1 {
            bits = bits | dots[i];
        }
        i = i + 1;
    }
    match char_from_u32(0x2800 + bits) {
        Some(c) => c,
        None => ' ',
    }
}

/// The mask of a cell's row-major sub-pixel flags: bit `i` is flag `i`.
pub open spec fn packed(flags: Seq<bool>) -> usize
    decreases flags.len(),
{
    if flags.len() == 0 {
        0
    } else {
        packed(flags.drop_last()) | (if flags.last() {
            1usize << ((flags.len() - 1) as usize)
        } else {
            0usize
        })
    }
}

/// The glyph of a block mode for a cell whose foreground sub-pixels form
/// `mask` (`None` for the modes that have no block table).
pub open spec fn block_glyph(mode: PixelMode, mask: usize) -> Option<char> {
    match mode {
        PixelMode::HalfBlock => Some(HALF_BLOCKS@[mask as int]),
        PixelMode::Quadrant => Some(QUADRANTS@[mask as int]),
        PixelMode::Sextant => Some(SEXTANTS@[mask as int]),
        PixelMode::Octant => Some(OCTANTS@[mask as int]),
        _ => None,
    }
}

/// The glyph for one cell of a sub-cell pixel mode. `flags` holds, in
/// row-major order, the sub-pixels drawn in the foreground: in the block
/// modes the glyph's filled sub-cells are exactly those; in `Braille` the
/// lit dots are exactly those, and a cell with no lit dot is left
/// untouched (`None`).
pub fn cell_glyph(mode: PixelMode, flags: &[bool]) -> (r: Option<char>)
    requires
        mode != PixelMode::Cell,
        flags@.len() == cell_pixels(mode),
    ensures
        mode != PixelMode::Braille ==> r == block_glyph(mode, packed(flags@)),
        mode == PixelMode::Braille ==> (r is None <==> forall|i: int|
            0 <= i < flags@.len() ==> !#[trigger] flags@[i]),
        mode == PixelMode::Braille ==> (r matches Some(c) ==> c as u32 == 0x2800 + braille_dots(
            packed(flags@),
            8,
        )),
{
    proof {
        lemma_small_shifts();
        assert(cell_pixels(mode) <= 8);
    }
    let mask = pack_mask(flags);
    match mode {
        PixelMode::HalfBlock => Some(HALF_BLOCKS[mask]),
        PixelMode::Quadrant => Some(QUADRANTS[mask]),
        PixelMode::Sextant => Some(SEXTANTS[mask]),
        PixelMode::Octant => Some(OCTANTS[mask]),
        _ => {
            if mask == 0 {
                assert forall|i: int| 0 <= i < flags@.len() implies !#[trigger] flags@[i] by {
                    lemma_no_bits_of_zero(i as usize);
                }
                None
            } else {
                assert(exists|i: int| 0 <= i < flags@.len() && #[trigger] flags@[i]) by {
                    if forall|i: int| 0 <= i < flags@.len() ==> !#[trigger] flags@[i] {
                        let n = flags@.len() as usize;
                        assert(n > 0 ==> !flags@[0]);
                        assert(n > 1 ==> !flags@[1]);
                        assert(n > 2 ==> !flags@[2]);
                        assert(n > 3 ==> !flags@[3]);
                        assert(n > 4 ==> !flags@[4]);
                        assert(n > 5 ==> !flags@[5]);
                        assert(n > 6 ==> !flags@[6]);
                        assert(n > 7 ==> !flags@[7]);
                        lemma_zero_when_no_bits(mask, n);
                    }
                }
                Some(braille(mask))
            }
        },
    }
}

proof fn lemma_zero_when_no_bits(mask: usize, n: usize)
    by (bit_vector)
    requires
        n <= 8,
        mask < (1usize << n),
        n > 0 ==> (mask >> 0usize) & 1usize != 1usize,
        n > 1 ==> (mask >> 1usize) & 1usize != 1usize,
        n > 2 ==> (mask >> 2usize) & 1usize != 1usize,
        n > 3 ==> (mask >> 3usize) & 1usize != 1usize,
        n > 4 ==> (mask >> 4usize) & 1usize != 1usize,
        n > 5 ==> (mask >> 5usize) & 1usize != 1usize,
        n > 6 ==> (mask >> 6usize) & 1usize != 1usize,
        n > 7 ==> (mask >> 7usize) & 1usize != 1usize,
    ensures
        mask == 0,
{
}

proof fn lemma_or_zero(m: usize)
    by (bit_vector)
    ensures
        m | 0usize == m,
{
}

proof fn lemma_small_shifts()
    by (bit_vector)
    ensures
        1usize << 2usize == 4usize,
        1usize << 4usize == 16usize,
        1usize << 6usize == 64usize,
        1usize << 8usize == 256usize,
{
}

proof fn lemma_no_bits_of_zero(i: usize)
    by (bit_vector)
    ensures
        (0usize >> i) & 1usize != 1usize,
{
}

/// Top-left sub-pixel coordinate of cell `(cx, cy)` plus the offset of the
/// row-major sub-pixel `i` within it.
pub open spec fn spec_subpixel(mode: PixelMode, cx: int, cy: int, i: int) -> (int, int) {
    let (sx, sy) = mode.spec_subdivisions();
    (cx * sx + i % (sx as int), cy * sy + i / (sx as int))
}

/// Each pixel mode lays its sub-pixels out as its glyph table expects: a
/// half-block cell is one column of two rows (sub-pixel 0 the top half,
/// drawn `▀`, sub-pixel 1 the bottom half, `▄`); quadrant, sextant, octant
/// and braille cells are two columns of two, three and four rows, filled
/// row by row. A sub-pixel never leaves its own cell.
pub proof fn lemma_subpixel_layout(cx: int, cy: int, i: int)
    ensures
        0 <= i < 2 ==> spec_subpixel(PixelMode::HalfBlock, cx, cy, i) == (cx, 2 * cy + i),
        0 <= i < 4 ==> spec_subpixel(PixelMode::Quadrant, cx, cy, i) == (2 * cx + i % 2, 2 * cy + i / 2),
        0 <= i < 6 ==> spec_subpixel(PixelMode::Sextant, cx, cy, i) == (2 * cx + i % 2, 3 * cy + i / 2),
        0 <= i < 8 ==> spec_subpixel(PixelMode::Octant, cx, cy, i) == (2 * cx + i % 2, 4 * cy + i / 2),
        0 <= i < 8 ==> spec_subpixel(PixelMode::Braille, cx, cy, i) == (2 * cx + i % 2, 4 * cy + i / 2),
        spec_subpixel(PixelMode::Cell, cx, cy, 0) == (cx, cy),
        HALF_BLOCKS@[1] == '▀' && HALF_BLOCKS@[2] == '▄',
        forall|m: PixelMode|
            m != PixelMode::Cell ==> #[trigger] cell_pixels(m) == m.spec_subdivisions().0
                * m.spec_subdivisions().1,
{
    assert(HALF_BLOCKS@[1] == '▀' && HALF_BLOCKS@[2] == '▄');
    assert(i % 1 == 0 && i / 1 == i) by (nonlinear_arith);
    assert(cx * 1 == cx && cx * 2 == 2 * cx && cy * 2 == 2 * cy && cy * 3 == 3 * cy && cy * 4 == 4
        * cy);
    assert(0int % 1 == 0 && 0int / 1 == 0 && cy * 1 == cy) by (nonlinear_arith);
    assert forall|m: PixelMode| m != PixelMode::Cell implies #[trigger] cell_pixels(m)
        == m.spec_subdivisions().0 * m.spec_subdivisions().1 by {
        match m {
            PixelMode::HalfBlock => assert(cell_pixels(m) == 1 * 2),
            PixelMode::Quadrant => assert(cell_pixels(m) == 2 * 2),
            PixelMode::Sextant => assert(cell_pixels(m) == 2 * 3),
            PixelMode::Octant => assert(cell_pixels(m) == 2 * 4),
            PixelMode::Braille => assert(cell_pixels(m) == 2 * 4),
            PixelMode::Cell => {},
        }
    }
}

/// Position of the row-major sub-pixel `i` of cell `(cx, cy)` in a pixel
/// buffer rendered at `mode.subdivisions()` pixels per cell.
pub fn subpixel(mode: PixelMode, cx: u16, cy: u16, i: u16) -> (r: (u16, u16))
    requires
        (i as nat) < cell_pixels(mode),
        (cx as int + 1) * (mode.spec_subdivisions().0 as int) <= 65536,
        (cy as int + 1) * (mode.spec_subdivisions().1 as int) <= 65536,
    ensures
        (r.0 as int, r.1 as int) == spec_subpixel(mode, cx as int, cy as int, i as int),
{
    let (sx, sy) = mode.subdivisions();
    assert(i % sx < sx && i / sx < sy) by {
        assert(sx == 1 || sx == 2);
    }
    assert(cx * sx + i % sx < (cx as int + 1) * sx) by (nonlinear_arith)
        requires
            i % sx < sx,
    ;
    assert(cy * sy + i / sx < (cy as int + 1) * sy) by (nonlinear_arith)
        requires
            i / sx < sy,
    ;
    (cx * sx + i % sx, cy * sy + i / sx)
}

pub open spec fn min_u16(a: u16, b: u16) -> u16 {
    if a <= b {
        a
    } else {
        b
    }
}

/// Columns and rows of cells filled when a pixel buffer of
/// `pixels_width` x `pixels_height` is drawn into an area of
/// `area_width` x `area_height` cells: only whole cells of the buffer, and
/// only as many as fit in the area.
pub fn cell_grid(mode: PixelMode, area_width: u16, area_height: u16, pixels_width: u16, pixels_height: u16) -> (r: (u16, u16))
    ensures
        r.0 == min_u16(area_width, pixels_width / mode.spec_subdivisions().0),
        r.1 == min_u16(area_height, pixels_height / mode.spec_subdivisions().1),
{
    let (sx, sy) = mode.subdivisions();
    let cols = pixels_width / sx;
    let rows = pixels_height / sy;
    (if area_width <= cols { area_width } else { cols }, if area_height <= rows { area_height } else { rows })
}

/// Every sub-pixel of every cell in the grid that `cell_grid` gives lies
/// inside the pixel buffer, so drawing a cell never reads past its edge.
pub proof fn lemma_grid_reads_inside_buffer(
    mode: PixelMode,
    area_width: u16,
    area_height: u16,
    pixels_width: u16,
    pixels_height: u16,
    cx: u16,
    cy: u16,
    i: u16,
)
    requires
        cx < min_u16(area_width, pixels_width / mode.spec_subdivisions().0),
        cy < min_u16(area_height, pixels_height / mode.spec_subdivisions().1),
        (i as nat) < cell_pixels(mode),
    ensures
        0 <= spec_subpixel(mode, cx as int, cy as int, i as int).0 < pixels_width,
        0 <= spec_subpixel(mode, cx as int, cy as int, i as int).1 < pixels_height,
        (cx as int + 1) * (mode.spec_subdivisions().0 as int) <= 65536,
        (cy as int + 1) * (mode.spec_subdivisions().1 as int) <= 65536,
{
    let sx: int = mode.spec_subdivisions().0 as int;
    let sy: int = mode.spec_subdivisions().1 as int;
    let pw: int = pixels_width as int;
    let ph: int = pixels_height as int;
    let ii: int = i as int;
    let x: int = spec_subpixel(mode, cx as int, cy as int, i as int).0;
    let y: int = spec_subpixel(mode, cx as int, cy as int, i as int).1;
    assert(x == cx * sx + ii % sx && y == cy * sy + ii / sx);
    assert(sx == 1 || sx == 2);
    assert(1 <= sy <= 4);
    assert(cx < pw / sx && cy < ph / sy);
    assert(ii % sx < sx && ii / sx < sy && ii % sx >= 0 && ii / sx >= 0) by {
        match mode {
            PixelMode::Cell => assert(ii == 0),
            PixelMode::HalfBlock => assert(ii / 1 == ii),
            PixelMode::Quadrant => assert(ii / 2 < 2),
            PixelMode::Sextant => assert(ii / 2 < 3),
            _ => assert(ii / 2 < 4),
        }
    }
    assert((pw / sx) * sx <= pw) by (nonlinear_arith)
        requires
            sx >= 1,
            pw >= 0,
    ;
    assert((ph / sy) * sy <= ph) by (nonlinear_arith)
        requires
            sy >= 1,
            ph >= 0,
    ;
    assert(cx * sx + ii % sx < pw) by (nonlinear_arith)
        requires
            ii % sx < sx,
            cx < pw / sx,
            (pw / sx) * sx <= pw,
            sx >= 1,
    ;
    assert(cy * sy + ii / sx < ph) by (nonlinear_arith)
        requires
            ii / sx < sy,
            cy < ph / sy,
            (ph / sy) * sy <= ph,
            sy >= 1,
    ;
    assert((cx + 1) * sx <= 65536) by (nonlinear_arith)
        requires
            cx < pw / sx,
            (pw / sx) * sx <= pw,
            pw <= 65535,
            sx >= 1,
    ;
    assert((cy + 1) * sy <= 65536) by (nonlinear_arith)
        requires
            cy < ph / sy,
            (ph / sy) * sy <= ph,
            ph <= 65535,
            sy >= 1,
    ;
    assert(cx * sx >= 0 && cy * sy >= 0) by (nonlinear_arith)
        requires
            cx >= 0,
            cy >= 0,
            sx >= 1,
            sy >= 1,
    ;
}

/// The 4x4 ordered-dither (Bayer) matrix, by row then column.
pub open spec fn bayer_matrix(row: int, col: int) -> u8 {
    seq![
        seq![0u8, 8, 2, 10],
        seq![12u8, 4, 14, 6],
        seq![3u8, 11, 1, 9],
        seq![15u8, 7, 13, 5],
    ][row][col]
}

/// Rank of a pixel position in the 4x4 ordered-dither (Bayer) matrix; the
/// dither threshold of the position is `(rank + 0.5) / 16`.
pub fn bayer_rank(x: u16, y: u16) -> (r: u8)
    ensures
        r == bayer_matrix((y % 4) as int, (x % 4) as int),
{
    let m: [[u8; 4]; 4] = [[0, 8, 2, 10], [12, 4, 14, 6], [3, 11, 1, 9], [15, 7, 13, 5]];
    let row = m[(y % 4) as usize];
    row[(x % 4) as usize]
}

/// Within any 4x4 block the dither ranks are the 16 values `0..16`, each
/// once: distinct positions have distinct ranks, and every rank is below 16.
pub proof fn lemma_bayer_ranks_permute(r1: int, c1: int, r2: int, c2: int)
    requires
        0 <= r1 < 4,
        0 <= c1 < 4,
        0 <= r2 < 4,
        0 <= c2 < 4,
    ensures
        bayer_matrix(r1, c1) < 16,
        (r1, c1) != (r2, c2) ==> bayer_matrix(r1, c1) != bayer_matrix(r2, c2),
{
}

/// The braille dots of an 8-bit mask, written out term by term.
pub open spec fn braille_dots_written_out(mask: usize) -> u32 {
    0u32 | (if has_bit(mask, 0) { 0x01u32 } else { 0u32 }) | (if has_bit(mask, 1) { 0x08u32 } else { 0u32 })
        | (if has_bit(mask, 2) { 0x02u32 } else { 0u32 }) | (if has_bit(mask, 3) { 0x10u32 } else { 0u32 })
        | (if has_bit(mask, 4) { 0x04u32 } else { 0u32 }) | (if has_bit(mask, 5) { 0x20u32 } else { 0u32 })
        | (if has_bit(mask, 6) { 0x40u32 } else { 0u32 }) | (if has_bit(mask, 7) { 0x80u32 } else { 0u32 })
}

proof fn lemma_braille_dots_written_out(mask: usize)
    ensures
        braille_dots(mask, 8) == braille_dots_written_out(mask),
{
    reveal_with_fuel(braille_dots, 9);
    assert(braille_dot(0) == 0x01 && braille_dot(1) == 0x08 && braille_dot(2) == 0x02 && braille_dot(3)
        == 0x10);
    assert(braille_dot(4) == 0x04 && braille_dot(5) == 0x20 && braille_dot(6) == 0x40 && braille_dot(7)
        == 0x80);
}

proof fn lemma_written_out_injective(m1: usize, m2: usize)
    by (bit_vector)
    requires
        m1 < 256,
        m2 < 256,
        braille_dots_written_out(m1) == braille_dots_written_out(m2),
    ensures
        m1 == m2,
{
}

/// Distinct 8-bit masks give distinct braille glyphs: every pattern of
/// lit dots has its own character.
pub proof fn lemma_braille_injective(m1: usize, m2: usize)
    requires
        m1 < 256,
        m2 < 256,
        braille_dots(m1, 8) == braille_dots(m2, 8),
    ensures
        m1 == m2,
{
    lemma_braille_dots_written_out(m1);
    lemma_braille_dots_written_out(m2);
    lemma_written_out_injective(m1, m2);
}

impl PixelMode {
    /// The variant reached after `k` calls of `next`.
    pub open spec fn after(self, k: nat) -> Self
        decreases k,
    {
        if k == 0 {
            self
        } else {
            self.after((k - 1) as nat).spec_next()
        }
    }
}

/// Cycling with `next` visits every variant before coming back: after
/// 6 steps it returns to where it started, and never earlier.
pub proof fn lemma_pixel_mode_cycle(start: PixelMode)
    ensures
        start.after(6) == start,
        forall|k: nat| 0 < k < 6 ==> #[trigger] start.after(k) != start,
{
    lemma_pixel_mode_after_position(start, 6);
    assert forall|k: nat| 0 < k < 6 implies #[trigger] start.after(k) != start by {
        assert(start.after(k).position() == (start.position() + k) % 6) by {
            lemma_pixel_mode_after_position(start, k);
        }
    }
}

proof fn lemma_pixel_mode_after_position(start: PixelMode, k: nat)
    ensures
        start.after(k).position() == (start.position() + k) % 6,
    decreases k,
{
    if k > 0 {
        lemma_pixel_mode_after_position(start, (k - 1) as nat);
    }
}

} // verus!
