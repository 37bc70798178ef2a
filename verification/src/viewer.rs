//! Decisions of the interactive viewer: which view comes next, how shapes
//! rotate, and which transition plays.

use crate::renderer::{CharStyle, ColorPalette, PixelMode, RenderMode};
use vstd::prelude::*;
use vstd::string::*;

verus! {


/// What the viewer is showing
#[derive(Debug, Clone, Copy, PartialEq, Eq, Hash, Structural)]
pub enum ShapeType {
    Torus,
    Cube,
    Sphere,
    CustomMesh,
    AnimatedGif,
    Countdown,
}

impl ShapeType {
    /// Position of the view in the cycle `Torus, Cube, Sphere, CustomMesh,
    /// AnimatedGif, Countdown`.
    pub open spec fn position(self) -> nat {
        match self {
            ShapeType::Torus => 0,
            ShapeType::Cube => 1,
            ShapeType::Sphere => 2,
            ShapeType::CustomMesh => 3,
            ShapeType::AnimatedGif => 4,
            ShapeType::Countdown => 5,
        }
    }

    /// The view at a position of the cycle.
    pub open spec fn at(p: nat) -> Self {
        if p == 0 {
            ShapeType::Torus
        } else if p == 1 {
            ShapeType::Cube
        } else if p == 2 {
            ShapeType::Sphere
        } else if p == 3 {
            ShapeType::CustomMesh
        } else if p == 4 {
            ShapeType::AnimatedGif
        } else {
            ShapeType::Countdown
        }
    }

    /// Whether the view can be shown: the built-in shapes always, the others
    /// only once their content is loaded.
    pub open spec fn available(self, has_custom: bool, has_gif: bool, has_countdown: bool) -> bool {
        match self {
            ShapeType::CustomMesh => has_custom,
            ShapeType::AnimatedGif => has_gif,
            ShapeType::Countdown => has_countdown,
            _ => true,
        }
    }

    pub open spec fn spec_next(self, has_custom: bool, has_gif: bool, has_countdown: bool) -> Self {
        match self {
            ShapeType::Torus => ShapeType::Cube,
            ShapeType::Cube => ShapeType::Sphere,
            ShapeType::Sphere => if has_custom {
                ShapeType::CustomMesh
            } else if has_gif {
                ShapeType::AnimatedGif
            } else if has_countdown {
                ShapeType::Countdown
            } else {
                ShapeType::Torus
            },
            ShapeType::CustomMesh => if has_gif {
                ShapeType::AnimatedGif
            } else if has_countdown {
                ShapeType::Countdown
            } else {
                ShapeType::Torus
            },
            ShapeType::AnimatedGif => if has_countdown {
                ShapeType::Countdown
            } else {
                ShapeType::Torus
            },
            ShapeType::Countdown => ShapeType::Torus,
        }
    }

    /// The next view in the cycle that can be shown, skipping content that
    /// is not loaded.
    pub fn next(self, has_custom: bool, has_gif: bool, has_countdown: bool) -> (r: Self)
        ensures
            r == self.spec_next(has_custom, has_gif, has_countdown),
    {
        match self {
            ShapeType::Torus => ShapeType::Cube,
            ShapeType::Cube => ShapeType::Sphere,
            ShapeType::Sphere => {
                if has_custom {
                    ShapeType::CustomMesh
                } else if has_gif {
                    ShapeType::AnimatedGif
                } else if has_countdown {
                    ShapeType::Countdown
                } else {
                    ShapeType::Torus
                }
            },
            ShapeType::CustomMesh => {
                if has_gif {
                    ShapeType::AnimatedGif
                } else if has_countdown {
                    ShapeType::Countdown
                } else {
                    ShapeType::Torus
                }
            },
            ShapeType::AnimatedGif => {
                if has_countdown {
                    ShapeType::Countdown
                } else {
                    ShapeType::Torus
                }
            },
            ShapeType::Countdown => ShapeType::Torus,
        }
    }
}

/// Switching views lands on the first view after the current one, in cycle
/// order and wrapping around, that can be shown: the result can be shown,
/// and every view strictly between the two in the cycle cannot.
pub proof fn lemma_shape_switch_skips_missing_content(
    current: ShapeType,
    has_custom: bool,
    has_gif: bool,
    has_countdown: bool,
)
    ensures
        current.spec_next(has_custom, has_gif, has_countdown).available(has_custom, has_gif, has_countdown),
        ({
            let r = current.spec_next(has_custom, has_gif, has_countdown);
            let gap = (r.position() + 6 - current.position() - 1) % 6;
            forall|d: nat|
                1 <= d <= gap ==> !#[trigger] ShapeType::at((current.position() + d) % 6).available(
                    has_custom,
                    has_gif,
                    has_countdown,
                )
        }),
        current.spec_next(has_custom, has_gif, has_countdown) != current,
{
}

/// How shapes rotate in the viewer
#[derive(Debug, Clone, Copy, PartialEq, Eq, Hash, Structural)]
pub enum RotationMode {
    /// Y-axis only (like a turntable)
    Horizontal,
    /// Full 3D rotation (X, Y, Z axes)
    Full360,
    /// No auto-rotation; the user rotates by hand
    Manual,
}

impl Default for RotationMode {
    fn default() -> (r: Self)
        ensures
            r == RotationMode::Horizontal,
    {
        RotationMode::Horizontal
    }
}

impl RotationMode {
    /// Position of the variant in the cycle `Horizontal, Full360, Manual`.
    pub open spec fn position(self) -> nat {
        match self {
            RotationMode::Horizontal => 0,
            RotationMode::Full360 => 1,
            RotationMode::Manual => 2,
        }
    }

    pub open spec fn spec_next(self) -> Self {
        match self {
            RotationMode::Horizontal => RotationMode::Full360,
            RotationMode::Full360 => RotationMode::Manual,
            RotationMode::Manual => RotationMode::Horizontal,
        }
    }

    /// The variant after this one, wrapping around after the last.
    pub fn next(self) -> (r: Self)
        ensures
            r == self.spec_next(),
            r.position() == (self.position() + 1) % 3,
    {
        match self {
            RotationMode::Horizontal => RotationMode::Full360,
            RotationMode::Full360 => RotationMode::Manual,
            RotationMode::Manual => RotationMode::Horizontal,
        }
    }

    pub open spec fn spec_name(self) -> Seq<char> {
        match self {
            RotationMode::Horizontal => "Y-Rot"@,
            RotationMode::Full360 => "360°"@,
            RotationMode::Manual => "Manual"@,
        }
    }

    pub fn name(self) -> (r: &'static str)
        ensures
            r@ == self.spec_name(),
    {
        match self {
            RotationMode::Horizontal => "Y-Rot",
            RotationMode::Full360 => "360°",
            RotationMode::Manual => "Manual",
        }
    }
}

impl RotationMode {
    /// Whether shapes turn on their own in this mode.
    pub fn is_auto(self) -> (r: bool)
        ensures
            r == (self != RotationMode::Manual),
    {
        !matches!(self, RotationMode::Manual)
    }
}

impl RotationMode {
    /// The variant reached after `k` calls of `next`.
    pub open spec fn after(self, k: nat) -> Self
        decreases k,
    {
        if k == 0 {
            self
        } else {
            self.after((k - 1) as nat).spec_next()
        }
    }
}

/// Cycling with `next` visits every variant before coming back: after
/// 3 steps it returns to where it started, and never earlier.
pub proof fn lemma_rotation_mode_cycle(start: RotationMode)
    ensures
        start.after(3) == start,
        forall|k: nat| 0 < k < 3 ==> #[trigger] start.after(k) != start,
{
    lemma_rotation_mode_after_position(start, 3);
    assert forall|k: nat| 0 < k < 3 implies #[trigger] start.after(k) != start by {
        assert(start.after(k).position() == (start.position() + k) % 3) by {
            lemma_rotation_mode_after_position(start, k);
        }
    }
}

proof fn lemma_rotation_mode_after_position(start: RotationMode, k: nat)
    ensures
        start.after(k).position() == (start.position() + k) % 3,
    decreases k,
{
    if k > 0 {
        lemma_rotation_mode_after_position(start, (k - 1) as nat);
    }
}

/// Transition effect played when the view changes
#[derive(Debug, Clone, Copy, PartialEq, Eq, Hash, Structural)]
pub enum TransitionStyle {
    Dissolve,
    FadeOut,
    Coalesce,
}

impl Default for TransitionStyle {
    fn default() -> (r: Self)
        ensures
            r == TransitionStyle::Dissolve,
    {
        TransitionStyle::Dissolve
    }
}

impl TransitionStyle {
    /// Position of the variant in the cycle `Dissolve, FadeOut, Coalesce`.
    pub open spec fn position(self) -> nat {
        match self {
            TransitionStyle::Dissolve => 0,
            TransitionStyle::FadeOut => 1,
            TransitionStyle::Coalesce => 2,
        }
    }

    pub open spec fn spec_next(self) -> Self {
        match self {
            TransitionStyle::Dissolve => TransitionStyle::FadeOut,
            TransitionStyle::FadeOut => TransitionStyle::Coalesce,
            TransitionStyle::Coalesce => TransitionStyle::Dissolve,
        }
    }

    /// The variant after this one, wrapping around after the last.
    pub fn next(self) -> (r: Self)
        ensures
            r == self.spec_next(),
            r.position() == (self.position() + 1) % 3,
    {
        match self {
            TransitionStyle::Dissolve => TransitionStyle::FadeOut,
            TransitionStyle::FadeOut => TransitionStyle::Coalesce,
            TransitionStyle::Coalesce => TransitionStyle::Dissolve,
        }
    }
}

impl TransitionStyle {
    /// The variant reached after `k` calls of `next`.
    pub open spec fn after(self, k: nat) -> Self
        decreases k,
    {
        if k == 0 {
            self
        } else {
            self.after((k - 1) as nat).spec_next()
        }
    }
}

/// Cycling with `next` visits every variant before coming back: after
/// 3 steps it returns to where it started, and never earlier.
pub proof fn lemma_transition_style_cycle(start: TransitionStyle)
    ensures
        start.after(3) == start,
        forall|k: nat| 0 < k < 3 ==> #[trigger] start.after(k) != start,
{
    lemma_transition_style_after_position(start, 3);
    assert forall|k: nat| 0 < k < 3 implies #[trigger] start.after(k) != start by {
        assert(start.after(k).position() == (start.position() + k) % 3) by {
            lemma_transition_style_after_position(start, k);
        }
    }
}

proof fn lemma_transition_style_after_position(start: TransitionStyle, k: nat)
    ensures
        start.after(k).position() == (start.position() + k) % 3,
    decreases k,
{
    if k > 0 {
        lemma_transition_style_after_position(start, (k - 1) as nat);
    }
}


/// The default level of detail.
pub const DEFAULT_DENSITY: usize = 8;

/// The lowest level of detail.
pub const MIN_DENSITY: usize = 2;

/// The highest level of detail.
pub const MAX_DENSITY: usize = 20;

/// A key the viewer tells apart.
#[derive(Debug, Clone, Copy, PartialEq, Eq, Structural)]
pub enum Key {
    Char(char),
    Esc,
    Tab,
    Up,
    Down,
    Left,
    Right,
    Other,
}

/// Which content is loaded besides the built-in shapes.
#[derive(Debug, Clone, Copy, PartialEq, Eq, Structural)]
pub struct Loaded {
    pub custom: bool,
    pub gif: bool,
    pub countdown: bool,
}

/// A screen effect that a key starts.
#[derive(Debug, Clone, Copy, PartialEq, Eq, Structural)]
pub enum Flash {
    /// The transition of the given style (on switching shapes or styles)
    Transition(TransitionStyle),
    /// A fade from white (new palette)
    ColorFlash,
    /// A coalesce (new character style)
    StyleCoalesce,
    /// A quick dissolve (new render mode)
    WireDissolve,
    /// A cyan fade with a dissolve (reset)
    ResetFlash,
}

/// A direction of manual rotation: about the X axis (`i` and `k`) or the
/// Y axis (`j` and `l`).
#[derive(Debug, Clone, Copy, PartialEq, Eq, Structural)]
pub enum Turn {
    TiltUp,
    TiltDown,
    SpinRight,
    SpinLeft,
}

/// What the application does after a key press, besides the state change.
#[derive(Debug, Clone, Copy, PartialEq, Eq, Structural)]
pub enum Command {
    Nothing,
    Quit,
    /// Pause or resume the countdown, if there is one
    TogglePause,
    Effect(Flash),
    /// Put every shape back in its starting orientation
    ResetRotation,
    ZoomIn,
    ZoomOut,
    SlowDown,
    SpeedUp,
    Rotate(Turn),
    /// Rebuild the shapes at the current level of detail
    ApplyDetail,
    /// Reset speed and zoom, apply detail, speed and zoom, reset the
    /// countdown, and flash
    Reset,
}

/// The viewer's settings that keys change.
#[derive(Debug, Clone, Copy, PartialEq, Eq, Structural)]
pub struct ViewState {
    pub shape: ShapeType,
    pub show_help: bool,
    pub palette: ColorPalette,
    pub char_style: CharStyle,
    pub render_mode: RenderMode,
    pub pixel_mode: PixelMode,
    pub dither: bool,
    pub rotation_mode: RotationMode,
    pub transition_style: TransitionStyle,
    pub detail: usize,
}

/// The state and command a key press leads to.
pub open spec fn key_reaction(s: ViewState, key: Key, loaded: Loaded) -> (ViewState, Command) {
    match key {
        Key::Esc | Key::Char('q') => (s, Command::Quit),
        Key::Char(' ') => if s.shape == ShapeType::Countdown {
            (s, Command::TogglePause)
        } else {
            (
                ViewState {
                    shape: s.shape.spec_next(loaded.custom, loaded.gif, loaded.countdown),
                    ..s
                },
                Command::Effect(Flash::Transition(s.transition_style)),
            )
        },
        Key::Tab => (
            ViewState { shape: s.shape.spec_next(loaded.custom, loaded.gif, loaded.countdown), ..s },
            Command::Effect(Flash::Transition(s.transition_style)),
        ),
        Key::Char('h') => (ViewState { show_help: !s.show_help, ..s }, Command::Nothing),
        Key::Char('t') => (
            ViewState { transition_style: s.transition_style.spec_next(), ..s },
            Command::Effect(Flash::Transition(s.transition_style.spec_next())),
        ),
        Key::Char('c') => (
            ViewState { palette: s.palette.spec_next(), ..s },
            Command::Effect(Flash::ColorFlash),
        ),
        Key::Char('s') => (
            ViewState { char_style: s.char_style.spec_next(), ..s },
            Command::Effect(Flash::StyleCoalesce),
        ),
        Key::Char('p') => (ViewState { pixel_mode: s.pixel_mode.spec_next(), ..s }, Command::Nothing),
        Key::Char('d') => (ViewState { dither: !s.dither, ..s }, Command::Nothing),
        Key::Char('w') => (
            ViewState { render_mode: s.render_mode.spec_next(), ..s },
            Command::Effect(Flash::WireDissolve),
        ),
        Key::Char('m') => (
            ViewState { rotation_mode: s.rotation_mode.spec_next(), ..s },
            if s.rotation_mode.spec_next() == RotationMode::Horizontal {
                Command::ResetRotation
            } else {
                Command::Nothing
            },
        ),
        Key::Up => (s, Command::ZoomIn),
        Key::Down => (s, Command::ZoomOut),
        Key::Left => (s, Command::SlowDown),
        Key::Right => (s, Command::SpeedUp),
        Key::Char('i') => (s, Command::Rotate(Turn::TiltUp)),
        Key::Char('k') => (s, Command::Rotate(Turn::TiltDown)),
        Key::Char('l') => (s, Command::Rotate(Turn::SpinRight)),
        Key::Char('j') => (s, Command::Rotate(Turn::SpinLeft)),
        Key::Char('+') | Key::Char('=') | Key::Char(']') => (
            ViewState {
                detail: if s.detail + 1 < MAX_DENSITY {
                    (s.detail + 1) as usize
                } else {
                    MAX_DENSITY
                },
                ..s
            },
            Command::ApplyDetail,
        ),
        Key::Char('-') | Key::Char('[') => (
            ViewState {
                detail: if s.detail >= 1 && s.detail - 1 > MIN_DENSITY {
                    (s.detail - 1) as usize
                } else {
                    MIN_DENSITY
                },
                ..s
            },
            Command::ApplyDetail,
        ),
        Key::Char('r') => (
            ViewState {
                detail: DEFAULT_DENSITY,
                palette: ColorPalette::Cyan,
                char_style: CharStyle::Ascii,
                transition_style: TransitionStyle::Dissolve,
                render_mode: RenderMode::Solid,
                rotation_mode: RotationMode::Horizontal,
                ..s
            },
            Command::Reset,
        ),
        _ => (s, Command::Nothing),
    }
}

impl ViewState {
    /// The settings the viewer starts with: the torus, help shown, default
    /// styles and the default level of detail.
    pub fn new() -> (r: Self)
        ensures
            r.shape == ShapeType::Torus,
            r.show_help,
            r.palette == ColorPalette::Cyan,
            r.char_style == CharStyle::Ascii,
            r.render_mode == RenderMode::Solid,
            r.pixel_mode == PixelMode::Cell,
            !r.dither,
            r.rotation_mode == RotationMode::Horizontal,
            r.transition_style == TransitionStyle::Dissolve,
            r.detail == DEFAULT_DENSITY,
    {
        ViewState {
            shape: ShapeType::Torus,
            show_help: true,
            palette: ColorPalette::Cyan,
            char_style: CharStyle::Ascii,
            render_mode: RenderMode::Solid,
            pixel_mode: PixelMode::Cell,
            dither: false,
            rotation_mode: RotationMode::Horizontal,
            transition_style: TransitionStyle::Dissolve,
            detail: DEFAULT_DENSITY,
        }
    }

    /// React to a key press: change the settings and say what else to do.
    pub fn handle_key(&mut self, key: Key, loaded: Loaded) -> (r: Command)
        ensures
            (*final(self), r) == key_reaction(*old(self), key, loaded),
    {
        match key {
            Key::Esc | Key::Char('q') => Command::Quit,
            Key::Char(' ') => {
                if self.shape == ShapeType::Countdown {
                    Command::TogglePause
                } else {
                    self.shape = self.shape.next(loaded.custom, loaded.gif, loaded.countdown);
                    Command::Effect(Flash::Transition(self.transition_style))
                }
            },
            Key::Tab => {
                self.shape = self.shape.next(loaded.custom, loaded.gif, loaded.countdown);
                Command::Effect(Flash::Transition(self.transition_style))
            },
            Key::Char('h') => {
                self.show_help = !self.show_help;
                Command::Nothing
            },
            Key::Char('t') => {
                self.transition_style = self.transition_style.next();
                Command::Effect(Flash::Transition(self.transition_style))
            },
            Key::Char('c') => {
                self.palette = self.palette.next();
                Command::Effect(Flash::ColorFlash)
            },
            Key::Char('s') => {
                self.char_style = self.char_style.next();
                Command::Effect(Flash::StyleCoalesce)
            },
            Key::Char('p') => {
                self.pixel_mode = self.pixel_mode.next();
                Command::Nothing
            },
            Key::Char('d') => {
                self.dither = !self.dither;
                Command::Nothing
            },
            Key::Char('w') => {
                self.render_mode = self.render_mode.next();
                Command::Effect(Flash::WireDissolve)
            },
            Key::Char('m') => {
                self.rotation_mode = self.rotation_mode.next();
                if self.rotation_mode == RotationMode::Horizontal {
                    Command::ResetRotation
                } else {
                    Command::Nothing
                }
            },
            Key::Up => Command::ZoomIn,
            Key::Down => Command::ZoomOut,
            Key::Left => Command::SlowDown,
            Key::Right => Command::SpeedUp,
            Key::Char('i') => Command::Rotate(Turn::TiltUp),
            Key::Char('k') => Command::Rotate(Turn::TiltDown),
            Key::Char('l') => Command::Rotate(Turn::SpinRight),
            Key::Char('j') => Command::Rotate(Turn::SpinLeft),
            Key::Char('+') | Key::Char('=') | Key::Char(']') => {
                self.detail = if self.detail < MAX_DENSITY - 1 {
                    self.detail + 1
                } else {
                    MAX_DENSITY
                };
                Command::ApplyDetail
            },
            Key::Char('-') | Key::Char('[') => {
                let lowered = if self.detail >= 1 {
                    self.detail - 1
                } else {
                    0
                };
                self.detail = if lowered > MIN_DENSITY {
                    lowered
                } else {
                    MIN_DENSITY
                };
                Command::ApplyDetail
            },
            Key::Char('r') => {
                self.detail = DEFAULT_DENSITY;
                self.palette = ColorPalette::default();
                self.char_style = CharStyle::default();
                self.transition_style = TransitionStyle::default();
                self.render_mode = RenderMode::default();
                self.rotation_mode = RotationMode::default();
                Command::Reset
            },
            _ => Command::Nothing,
        }
    }

    /// The pixel mode for the shape shown: the countdown is drawn from
    /// text, so it always uses one pixel per cell.
    pub fn effective_pixel_mode(&self) -> (r: PixelMode)
        ensures
            r == (if self.shape == ShapeType::Countdown {
                PixelMode::Cell
            } else {
                self.pixel_mode
            }),
    {
        if self.shape == ShapeType::Countdown {
            PixelMode::Cell
        } else {
            self.pixel_mode
        }
    }
}

/// The level of detail stays between its bounds whatever key is pressed.
pub proof fn lemma_detail_stays_in_bounds(s: ViewState, key: Key, loaded: Loaded)
    requires
        MIN_DENSITY <= s.detail <= MAX_DENSITY,
    ensures
        MIN_DENSITY <= key_reaction(s, key, loaded).0.detail <= MAX_DENSITY,
{
}

/// The manual-rotation keys pair up in opposite directions: `i` tilts up
/// and `k` down, `l` spins right and `j` left; none of them changes a
/// setting.
pub proof fn lemma_rotation_keys_oppose(s: ViewState, loaded: Loaded)
    ensures
        key_reaction(s, Key::Char('i'), loaded) == (s, Command::Rotate(Turn::TiltUp)),
        key_reaction(s, Key::Char('k'), loaded) == (s, Command::Rotate(Turn::TiltDown)),
        key_reaction(s, Key::Char('l'), loaded) == (s, Command::Rotate(Turn::SpinRight)),
        key_reaction(s, Key::Char('j'), loaded) == (s, Command::Rotate(Turn::SpinLeft)),
        key_reaction(s, Key::Char('i'), loaded).1 != key_reaction(s, Key::Char('k'), loaded).1,
        key_reaction(s, Key::Char('l'), loaded).1 != key_reaction(s, Key::Char('j'), loaded).1,
{
}

/// What the style keys do: `t`, `c`, `s`, `p`, `w` and `m` step the
/// transition, palette, character style, pixel mode, render mode and
/// rotation mode and leave every other setting alone; `h` and `d` flip
/// help and dithering; Tab switches to the next loaded view with the
/// current transition.
pub proof fn lemma_style_keys(s: ViewState, loaded: Loaded)
    ensures
        key_reaction(s, Key::Tab, loaded).0 == (ViewState {
            shape: s.shape.spec_next(loaded.custom, loaded.gif, loaded.countdown),
            ..s
        }),
        key_reaction(s, Key::Tab, loaded).1 == Command::Effect(Flash::Transition(s.transition_style)),
        key_reaction(s, Key::Char('h'), loaded).0 == (ViewState { show_help: !s.show_help, ..s }),
        key_reaction(s, Key::Char('d'), loaded).0 == (ViewState { dither: !s.dither, ..s }),
        key_reaction(s, Key::Char('t'), loaded).0 == (ViewState {
            transition_style: s.transition_style.spec_next(),
            ..s
        }),
        key_reaction(s, Key::Char('c'), loaded).0 == (ViewState { palette: s.palette.spec_next(), ..s }),
        key_reaction(s, Key::Char('c'), loaded).1 == Command::Effect(Flash::ColorFlash),
        key_reaction(s, Key::Char('s'), loaded).0 == (ViewState {
            char_style: s.char_style.spec_next(),
            ..s
        }),
        key_reaction(s, Key::Char('s'), loaded).1 == Command::Effect(Flash::StyleCoalesce),
        key_reaction(s, Key::Char('p'), loaded).0 == (ViewState {
            pixel_mode: s.pixel_mode.spec_next(),
            ..s
        }),
        key_reaction(s, Key::Char('w'), loaded).0 == (ViewState {
            render_mode: s.render_mode.spec_next(),
            ..s
        }),
        key_reaction(s, Key::Char('w'), loaded).1 == Command::Effect(Flash::WireDissolve),
        key_reaction(s, Key::Char('m'), loaded).0 == (ViewState {
            rotation_mode: s.rotation_mode.spec_next(),
            ..s
        }),
        key_reaction(s, Key::Char('m'), loaded).1 == (if s.rotation_mode == RotationMode::Manual {
            Command::ResetRotation
        } else {
            Command::Nothing
        }),
        s.shape == ShapeType::Countdown ==> key_reaction(s, Key::Char(' '), loaded) == (
            s,
            Command::TogglePause,
        ),
        s.shape != ShapeType::Countdown ==> key_reaction(s, Key::Char(' '), loaded) == key_reaction(
            s,
            Key::Tab,
            loaded,
        ),
{
}

/// What the other keys do: the arrows zoom and change speed, `+` and `-`
/// step the level of detail by one within its bounds, `r` restores the
/// default styles and detail while keeping the view and pixel mode, and
/// unknown keys do nothing.
pub proof fn lemma_motion_and_reset_keys(s: ViewState, loaded: Loaded)
    requires
        MIN_DENSITY <= s.detail <= MAX_DENSITY,
    ensures
        key_reaction(s, Key::Up, loaded) == (s, Command::ZoomIn),
        key_reaction(s, Key::Down, loaded) == (s, Command::ZoomOut),
        key_reaction(s, Key::Left, loaded) == (s, Command::SlowDown),
        key_reaction(s, Key::Right, loaded) == (s, Command::SpeedUp),
        s.detail < MAX_DENSITY ==> key_reaction(s, Key::Char('+'), loaded).0 == (ViewState {
            detail: (s.detail + 1) as usize,
            ..s
        }),
        s.detail > MIN_DENSITY ==> key_reaction(s, Key::Char('-'), loaded).0 == (ViewState {
            detail: (s.detail - 1) as usize,
            ..s
        }),
        key_reaction(s, Key::Char('+'), loaded).1 == Command::ApplyDetail,
        key_reaction(s, Key::Char('-'), loaded).1 == Command::ApplyDetail,
        key_reaction(s, Key::Char('r'), loaded).0 == (ViewState {
            detail: DEFAULT_DENSITY,
            palette: ColorPalette::Cyan,
            char_style: CharStyle::Ascii,
            transition_style: TransitionStyle::Dissolve,
            render_mode: RenderMode::Solid,
            rotation_mode: RotationMode::Horizontal,
            ..s
        }),
        key_reaction(s, Key::Char('r'), loaded).1 == Command::Reset,
        key_reaction(s, Key::Other, loaded) == (s, Command::Nothing),
        key_reaction(s, Key::Char('z'), loaded) == (s, Command::Nothing),
{
}

/// Quitting changes no setting.
pub proof fn lemma_quit_keeps_state(s: ViewState, loaded: Loaded)
    ensures
        key_reaction(s, Key::Char('q'), loaded) == (s, Command::Quit),
        key_reaction(s, Key::Esc, loaded) == (s, Command::Quit),
{
}

/// Toggling help, or dithering, twice gives back the settings.
pub proof fn lemma_toggles_undo(s: ViewState, loaded: Loaded)
    ensures
        key_reaction(key_reaction(s, Key::Char('h'), loaded).0, Key::Char('h'), loaded).0 == s,
        key_reaction(key_reaction(s, Key::Char('d'), loaded).0, Key::Char('d'), loaded).0 == s,
{
}

/// What timer mode does after a key press.
#[derive(Debug, Clone, Copy, PartialEq, Eq, Structural)]
pub enum TimerCommand {
    Nothing,
    Quit,
    /// Reset the countdown to its full time
    ResetCountdown,
}

/// React to a key in timer mode: `q` or Esc quits and `r` resets the
/// countdown; other keys do nothing.
pub fn timer_key(key: Key) -> (r: TimerCommand)
    ensures
        r == (match key {
            Key::Esc | Key::Char('q') => TimerCommand::Quit,
            Key::Char('r') => TimerCommand::ResetCountdown,
            _ => TimerCommand::Nothing,
        }),
{
    match key {
        Key::Esc | Key::Char('q') => TimerCommand::Quit,
        Key::Char('r') => TimerCommand::ResetCountdown,
        _ => TimerCommand::Nothing,
    }
}

/// The palette of timer mode: fire once the countdown has finished, the
/// chosen one before.
pub fn timer_palette(finished: bool, chosen: ColorPalette) -> (r: ColorPalette)
    ensures
        r == (if finished {
            ColorPalette::Fire
        } else {
            chosen
        }),
{
    if finished {
        ColorPalette::Fire
    } else {
        chosen
    }
}

/// Whether timer mode shows the GIF in a column beside the countdown:
/// only with a GIF and a screen wider than 40 and taller than 15 cells.
pub fn timer_shows_gif(has_gif: bool, width: u16, height: u16) -> (r: bool)
    ensures
        r == (has_gif && width > 40 && height > 15),
{
    has_gif && width > 40 && height > 15
}

/// Whether a key ends monitor mode (cancelling the command): `q` or Esc.
pub fn cancels_monitor(key: Key) -> (r: bool)
    ensures
        r == (key == Key::Esc || key == Key::Char('q')),
{
    matches!(key, Key::Esc | Key::Char('q'))
}


/// The animation work of one frame.
#[derive(Debug, Clone, Copy, PartialEq, Eq, Structural)]
pub enum FrameWork {
    /// Advance the GIF
    AdvanceGif,
    /// Let the countdown tick
    AdvanceCountdown,
    /// Turn the shape about the Y axis only
    Turntable,
    /// Turn the shape about all three axes
    FullRotation,
    /// Leave everything where it is
    Hold,
}

/// What a frame animates: a GIF or countdown always advances; a shape turns
/// as its rotation mode says, and not at all in manual mode.
pub fn frame_work(shape: ShapeType, mode: RotationMode) -> (r: FrameWork)
    ensures
        shape == ShapeType::AnimatedGif ==> r == FrameWork::AdvanceGif,
        shape == ShapeType::Countdown ==> r == FrameWork::AdvanceCountdown,
        shape != ShapeType::AnimatedGif && shape != ShapeType::Countdown ==> r == (match mode {
            RotationMode::Horizontal => FrameWork::Turntable,
            RotationMode::Full360 => FrameWork::FullRotation,
            RotationMode::Manual => FrameWork::Hold,
        }),
{
    match shape {
        ShapeType::AnimatedGif => FrameWork::AdvanceGif,
        ShapeType::Countdown => FrameWork::AdvanceCountdown,
        _ => match mode {
            RotationMode::Horizontal => FrameWork::Turntable,
            RotationMode::Full360 => FrameWork::FullRotation,
            RotationMode::Manual => FrameWork::Hold,
        },
    }
}

/// Whether manual rotation turns the shape shown: GIFs and countdowns do
/// not turn.
pub fn turns_by_hand(shape: ShapeType) -> (r: bool)
    ensures
        r == (shape != ShapeType::AnimatedGif && shape != ShapeType::Countdown),
{
    !matches!(shape, ShapeType::AnimatedGif | ShapeType::Countdown)
}

/// The title of the shape shown: the built-in shapes by name, loaded
/// content by the name it was given, and a countdown (when there is one)
/// with its title.
pub open spec fn shape_title(
    shape: ShapeType,
    custom_name: Seq<char>,
    gif_name: Seq<char>,
    countdown: Option<Option<Seq<char>>>,
) -> Seq<char> {
    match shape {
        ShapeType::Torus => "Torus"@,
        ShapeType::Cube => "Cube"@,
        ShapeType::Sphere => "Sphere"@,
        ShapeType::CustomMesh => custom_name,
        ShapeType::AnimatedGif => gif_name,
        ShapeType::Countdown => match countdown {
            Some(Some(title)) => "Countdown: "@ + title,
            _ => "Countdown"@,
        },
    }
}

/// The name of the shape shown; `countdown` is the loaded countdown's
/// title, if a countdown is loaded.
pub fn shape_name(
    shape: ShapeType,
    custom_name: &str,
    gif_name: &str,
    countdown: Option<Option<&str>>,
) -> (r: String)
    ensures
        r@ == shape_title(
            shape,
            custom_name@,
            gif_name@,
            match countdown {
                Some(Some(t)) => Some(Some(t@)),
                Some(None) => Some(None),
                None => None,
            },
        ),
{
    match shape {
        ShapeType::Torus => "Torus".to_owned(),
        ShapeType::Cube => "Cube".to_owned(),
        ShapeType::Sphere => "Sphere".to_owned(),
        ShapeType::CustomMesh => custom_name.to_owned(),
        ShapeType::AnimatedGif => gif_name.to_owned(),
        ShapeType::Countdown => match countdown {
            Some(Some(title)) => {
                let mut name = "Countdown: ".to_owned();
                name.append(title);
                name
            },
            _ => "Countdown".to_owned(),
        },
    }
}

} // verus!
