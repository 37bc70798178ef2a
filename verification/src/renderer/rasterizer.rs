//! Render settings that a viewer cycles through: solid or wireframe
//! drawing, the character ramp that turns brightness into glyphs, and the
//! color palette.

use vstd::prelude::*;

verus! {

/// Render mode: solid fill or wireframe edges
#[derive(Debug, Clone, Copy, PartialEq, Eq, Hash, Structural)]
pub enum RenderMode {
    Solid,
    Wireframe,
}

impl Default for RenderMode {
    fn default() -> (r: Self)
        ensures
            r == RenderMode::Solid,
    {
        RenderMode::Solid
    }
}

impl RenderMode {
    /// Position of the mode in the cycle `Solid, Wireframe`.
    pub open spec fn position(self) -> nat {
        match self {
            RenderMode::Solid => 0,
            RenderMode::Wireframe => 1,
        }
    }

    pub open spec fn spec_next(self) -> Self {
        match self {
            RenderMode::Solid => RenderMode::Wireframe,
            RenderMode::Wireframe => RenderMode::Solid,
        }
    }

    /// The other mode.
    pub fn next(self) -> (r: Self)
        ensures
            r == self.spec_next(),
            r.position() == (self.position() + 1) % 2,
    {
        match self {
            RenderMode::Solid => RenderMode::Wireframe,
            RenderMode::Wireframe => RenderMode::Solid,
        }
    }

    pub open spec fn spec_name(self) -> Seq<char> {
        match self {
            RenderMode::Solid => "Solid"@,
            RenderMode::Wireframe => "Wire"@,
        }
    }

    pub fn name(self) -> (r: &'static str)
        ensures
            r@ == self.spec_name(),
    {
        match self {
            RenderMode::Solid => "Solid",
            RenderMode::Wireframe => "Wire",
        }
    }
}

/// Character set styles for ASCII rendering
#[derive(Debug, Clone, Copy, PartialEq, Eq, Hash, Structural)]
pub enum CharStyle {
    /// Standard ASCII gradient
    Ascii,
    /// Unicode block characters
    Blocks,
    /// Braille dot patterns
    Braille,
    /// Extended ASCII for finer gradients
    Dense,
    /// Simple few-character set
    Minimal,
    /// Line-based hatching
    Hatching,
    /// Dot/circle patterns
    Dots,
    /// Star/sparkle patterns
    Stars,
}

impl Default for CharStyle {
    fn default() -> (r: Self)
        ensures
            r == CharStyle::Ascii,
    {
        CharStyle::Ascii
    }
}

impl CharStyle {
    /// Position of the style in the cycle `Ascii, Blocks, ..., Stars`.
    pub open spec fn position(self) -> nat {
        match self {
            CharStyle::Ascii => 0,
            CharStyle::Blocks => 1,
            CharStyle::Braille => 2,
            CharStyle::Dense => 3,
            CharStyle::Minimal => 4,
            CharStyle::Hatching => 5,
            CharStyle::Dots => 6,
            CharStyle::Stars => 7,
        }
    }

    pub open spec fn spec_next(self) -> Self {
        match self {
            CharStyle::Ascii => CharStyle::Blocks,
            CharStyle::Blocks => CharStyle::Braille,
            CharStyle::Braille => CharStyle::Dense,
            CharStyle::Dense => CharStyle::Minimal,
            CharStyle::Minimal => CharStyle::Hatching,
            CharStyle::Hatching => CharStyle::Dots,
            CharStyle::Dots => CharStyle::Stars,
            CharStyle::Stars => CharStyle::Ascii,
        }
    }

    pub fn next(self) -> (r: Self)
        ensures
            r == self.spec_next(),
            r.position() == (self.position() + 1) % 8,
    {
        match self {
            CharStyle::Ascii => CharStyle::Blocks,
            CharStyle::Blocks => CharStyle::Braille,
            CharStyle::Braille => CharStyle::Dense,
            CharStyle::Dense => CharStyle::Minimal,
            CharStyle::Minimal => CharStyle::Hatching,
            CharStyle::Hatching => CharStyle::Dots,
            CharStyle::Dots => CharStyle::Stars,
            CharStyle::Stars => CharStyle::Ascii,
        }
    }

    pub open spec fn spec_name(self) -> Seq<char> {
        match self {
            CharStyle::Ascii => "ASCII"@,
            CharStyle::Blocks => "Blocks"@,
            CharStyle::Braille => "Braille"@,
            CharStyle::Dense => "Dense"@,
            CharStyle::Minimal => "Minimal"@,
            CharStyle::Hatching => "Hatching"@,
            CharStyle::Dots => "Dots"@,
            CharStyle::Stars => "Stars"@,
        }
    }

    pub fn name(self) -> (r: &'static str)
        ensures
            r@ == self.spec_name(),
    {
        match self {
            CharStyle::Ascii => "ASCII",
            CharStyle::Blocks => "Blocks",
            CharStyle::Braille => "Braille",
            CharStyle::Dense => "Dense",
            CharStyle::Minimal => "Minimal",
            CharStyle::Hatching => "Hatching",
            CharStyle::Dots => "Dots",
            CharStyle::Stars => "Stars",
        }
    }

    /// The brightness ramp of the style, darkest first.
    pub open spec fn ramp(self) -> Seq<char> {
        match self {
            CharStyle::Ascii => seq![' ', '.', ',', '-', '~', ':', ';', '=', '!', '*', '#', '$', '@'],
            CharStyle::Blocks => seq![' ', '░', '░', '▒', '▒', '▓', '▓', '█', '█'],
            CharStyle::Braille => seq![' ', '⠁', '⠃', '⠇', '⠏', '⠟', '⠿', '⡿', '⣿'],
            CharStyle::Dense => seq![' ', '`', '.', '-', '\'', ':', '_', ',', '^', '=', ';', '>', '<',
                '+', '!', 'r', 'c', '*', '/', 'z', '?', 's', 'L', 'T', 'v',
                ')', 'J', '7', '(', '|', 'F', 'i', '{', 'C', '}', 'f', 'I',
                '3', '1', 't', 'l', 'u', '[', 'n', 'e', 'o', 'Z', '5', 'Y',
                'x', 'j', 'y', 'a', ']', '2', 'E', 'S', 'w', 'q', 'k', 'P',
                '6', 'h', '9', 'd', '4', 'V', 'p', 'O', 'G', 'b', 'U', 'A',
                'K', 'X', 'H', 'm', '8', 'R', 'D', '#', '$', 'B', 'g', '0',
                'M', 'N', 'W', 'Q', '%', '&', '@'],
            CharStyle::Minimal => seq![' ', '.', ':', '+', '*', '#', '@'],
            CharStyle::Hatching => seq![' ', '·', '-', '/', '|', '\\', '+', 'x', 'X', '#', '▓', '█'],
            CharStyle::Dots => seq![' ', '·', '∙', '•', '●', '◉', '◎', '○', '◌', '◍', '◉', '●', '⬤'],
            CharStyle::Stars => seq![' ', '·', '˙', '*', '✦', '✧', '★', '☆', '✪', '✫', '✬', '✯', '✵'],
        }
    }

    /// The brightness ramp of the style, darkest (a space) first.
    pub fn chars(self) -> (r: &'static [char])
        ensures
            r@ == self.ramp(),
    {
        match self {
            CharStyle::Ascii => &[' ', '.', ',', '-', '~', ':', ';', '=', '!', '*', '#', '$', '@'],
            CharStyle::Blocks => &[' ', '░', '░', '▒', '▒', '▓', '▓', '█', '█'],
            CharStyle::Braille => &[' ', '⠁', '⠃', '⠇', '⠏', '⠟', '⠿', '⡿', '⣿'],
            CharStyle::Dense => &[' ', '`', '.', '-', '\'', ':', '_', ',', '^', '=', ';', '>', '<',
                '+', '!', 'r', 'c', '*', '/', 'z', '?', 's', 'L', 'T', 'v',
                ')', 'J', '7', '(', '|', 'F', 'i', '{', 'C', '}', 'f', 'I',
                '3', '1', 't', 'l', 'u', '[', 'n', 'e', 'o', 'Z', '5', 'Y',
                'x', 'j', 'y', 'a', ']', '2', 'E', 'S', 'w', 'q', 'k', 'P',
                '6', 'h', '9', 'd', '4', 'V', 'p', 'O', 'G', 'b', 'U', 'A',
                'K', 'X', 'H', 'm', '8', 'R', 'D', '#', '$', 'B', 'g', '0',
                'M', 'N', 'W', 'Q', '%', '&', '@'],
            CharStyle::Minimal => &[' ', '.', ':', '+', '*', '#', '@'],
            CharStyle::Hatching => &[' ', '·', '-', '/', '|', '\\', '+', 'x', 'X', '#', '▓', '█'],
            CharStyle::Dots => &[' ', '·', '∙', '•', '●', '◉', '◎', '○', '◌', '◍', '◉', '●', '⬤'],
            CharStyle::Stars => &[' ', '·', '˙', '*', '✦', '✧', '★', '☆', '✪', '✫', '✬', '✯', '✵'],
        }
    }
}

/// Color palettes that map brightness to a color
#[derive(Debug, Clone, Copy, PartialEq, Eq, Hash, Structural)]
pub enum ColorPalette {
    Cyan,
    Fire,
    Matrix,
    Purple,
    Grayscale,
    Rainbow,
}

impl Default for ColorPalette {
    fn default() -> (r: Self)
        ensures
            r == ColorPalette::Cyan,
    {
        ColorPalette::Cyan
    }
}

impl ColorPalette {
    /// Position of the palette in the cycle `Cyan, Fire, ..., Rainbow`.
    pub open spec fn position(self) -> nat {
        match self {
            ColorPalette::Cyan => 0,
            ColorPalette::Fire => 1,
            ColorPalette::Matrix => 2,
            ColorPalette::Purple => 3,
            ColorPalette::Grayscale => 4,
            ColorPalette::Rainbow => 5,
        }
    }

    pub open spec fn spec_next(self) -> Self {
        match self {
            ColorPalette::Cyan => ColorPalette::Fire,
            ColorPalette::Fire => ColorPalette::Matrix,
            ColorPalette::Matrix => ColorPalette::Purple,
            ColorPalette::Purple => ColorPalette::Grayscale,
            ColorPalette::Grayscale => ColorPalette::Rainbow,
            ColorPalette::Rainbow => ColorPalette::Cyan,
        }
    }

    pub fn next(self) -> (r: Self)
        ensures
            r == self.spec_next(),
            r.position() == (self.position() + 1) % 6,
    {
        match self {
            ColorPalette::Cyan => ColorPalette::Fire,
            ColorPalette::Fire => ColorPalette::Matrix,
            ColorPalette::Matrix => ColorPalette::Purple,
            ColorPalette::Purple => ColorPalette::Grayscale,
            ColorPalette::Grayscale => ColorPalette::Rainbow,
            ColorPalette::Rainbow => ColorPalette::Cyan,
        }
    }

    pub open spec fn spec_name(self) -> Seq<char> {
        match self {
            ColorPalette::Cyan => "Cyan"@,
            ColorPalette::Fire => "Fire"@,
            ColorPalette::Matrix => "Matrix"@,
            ColorPalette::Purple => "Purple"@,
            ColorPalette::Grayscale => "Grayscale"@,
            ColorPalette::Rainbow => "Rainbow"@,
        }
    }

    pub fn name(self) -> (r: &'static str)
        ensures
            r@ == self.spec_name(),
    {
        match self {
            ColorPalette::Cyan => "Cyan",
            ColorPalette::Fire => "Fire",
            ColorPalette::Matrix => "Matrix",
            ColorPalette::Purple => "Purple",
            ColorPalette::Grayscale => "Grayscale",
            ColorPalette::Rainbow => "Rainbow",
        }
    }
}

impl RenderMode {
    /// The variant reached after `k` calls of `next`.
    pub open spec fn after(self, k: nat) -> Self
        decreases k,
    {
        if k == 0 {
            self
        } else {
            self.after((k - 1) as nat).spec_next()
        }
    }
}

/// Cycling with `next` visits every variant before coming back: after
/// 2 steps it returns to where it started, and never earlier.
pub proof fn lemma_render_mode_cycle(start: RenderMode)
    ensures
        start.after(2) == start,
        forall|k: nat| 0 < k < 2 ==> #[trigger] start.after(k) != start,
{
    lemma_render_mode_after_position(start, 2);
    assert forall|k: nat| 0 < k < 2 implies #[trigger] start.after(k) != start by {
        assert(start.after(k).position() == (start.position() + k) % 2) by {
            lemma_render_mode_after_position(start, k);
        }
    }
}

proof fn lemma_render_mode_after_position(start: RenderMode, k: nat)
    ensures
        start.after(k).position() == (start.position() + k) % 2,
    decreases k,
{
    if k > 0 {
        lemma_render_mode_after_position(start, (k - 1) as nat);
    }
}

impl CharStyle {
    /// The variant reached after `k` calls of `next`.
    pub open spec fn after(self, k: nat) -> Self
        decreases k,
    {
        if k == 0 {
            self
        } else {
            self.after((k - 1) as nat).spec_next()
        }
    }
}

/// Cycling with `next` visits every variant before coming back: after
/// 8 steps it returns to where it started, and never earlier.
pub proof fn lemma_char_style_cycle(start: CharStyle)
    ensures
        start.after(8) == start,
        forall|k: nat| 0 < k < 8 ==> #[trigger] start.after(k) != start,
{
    lemma_char_style_after_position(start, 8);
    assert forall|k: nat| 0 < k < 8 implies #[trigger] start.after(k) != start by {
        assert(start.after(k).position() == (start.position() + k) % 8) by {
            lemma_char_style_after_position(start, k);
        }
    }
}

proof fn lemma_char_style_after_position(start: CharStyle, k: nat)
    ensures
        start.after(k).position() == (start.position() + k) % 8,
    decreases k,
{
    if k > 0 {
        lemma_char_style_after_position(start, (k - 1) as nat);
    }
}

impl ColorPalette {
    /// The variant reached after `k` calls of `next`.
    pub open spec fn after(self, k: nat) -> Self
        decreases k,
    {
        if k == 0 {
            self
        } else {
            self.after((k - 1) as nat).spec_next()
        }
    }
}

/// Cycling with `next` visits every variant before coming back: after
/// 6 steps it returns to where it started, and never earlier.
pub proof fn lemma_color_palette_cycle(start: ColorPalette)
    ensures
        start.after(6) == start,
        forall|k: nat| 0 < k < 6 ==> #[trigger] start.after(k) != start,
{
    lemma_color_palette_after_position(start, 6);
    assert forall|k: nat| 0 < k < 6 implies #[trigger] start.after(k) != start by {
        assert(start.after(k).position() == (start.position() + k) % 6) by {
            lemma_color_palette_after_position(start, k);
        }
    }
}

proof fn lemma_color_palette_after_position(start: ColorPalette, k: nat)
    ensures
        start.after(k).position() == (start.position() + k) % 6,
    decreases k,
{
    if k > 0 {
        lemma_color_palette_after_position(start, (k - 1) as nat);
    }
}


/// The index of cell `(x, y)` in a row-major grid of `width` by `height`
/// cells, or `None` outside the grid.
pub fn grid_index(width: u16, height: u16, x: u16, y: u16) -> (r: Option<usize>)
    ensures
        r == (if x < width && y < height {
            Some((y * width + x) as usize)
        } else {
            None::<usize>
        }),
        r matches Some(i) ==> i < width * height,
{
    if x < width && y < height {
        proof {
            assert(y * width + x < width * height) by (nonlinear_arith)
                requires
                    x < width,
                    y < height,
            ;
            assert(width * height <= 65535 * 65535) by (nonlinear_arith)
                requires
                    width <= 65535,
                    height <= 65535,
            ;
        }
        Some((y as usize) * (width as usize) + (x as usize))
    } else {
        None
    }
}

} // verus!
