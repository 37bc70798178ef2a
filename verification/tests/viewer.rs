use zoa::viewer::{
    cancels_monitor, frame_work, shape_name, timer_key, timer_palette, timer_shows_gif, turns_by_hand,
    Command, Flash, FrameWork, Key, Loaded, RotationMode, ShapeType, TimerCommand, TransitionStyle, Turn,
    ViewState, DEFAULT_DENSITY, MAX_DENSITY, MIN_DENSITY,
};
use zoa::widget::{animates, ContentKind};
use zoa::{parse_args, CharStyle, ColorPalette, PixelMode, RenderMode, Shape};

const NOTHING: Loaded = Loaded { custom: false, gif: false, countdown: false };
const ALL: Loaded = Loaded { custom: true, gif: true, countdown: true };

#[test]
fn shapes_cycle_through_loaded_content() {
    let mut s = ShapeType::Torus;
    let mut seen = Vec::new();
    for _ in 0..6 {
        seen.push(s);
        s = s.next(true, true, true);
    }
    assert_eq!(s, ShapeType::Torus);
    assert_eq!(seen[3], ShapeType::CustomMesh);
    assert_eq!(ShapeType::Sphere.next(false, false, false), ShapeType::Torus);
    assert_eq!(ShapeType::Sphere.next(false, false, true), ShapeType::Countdown);
    assert_eq!(ShapeType::CustomMesh.next(true, false, false), ShapeType::Torus);
}

#[test]
fn keys_change_settings() {
    let mut v = ViewState::new();
    assert_eq!(v.handle_key(Key::Char('q'), NOTHING), Command::Quit);
    assert_eq!(v.handle_key(Key::Esc, NOTHING), Command::Quit);
    assert_eq!(v, ViewState::new());

    assert_eq!(v.handle_key(Key::Tab, NOTHING), Command::Effect(Flash::Transition(TransitionStyle::Dissolve)));
    assert_eq!(v.shape, ShapeType::Cube);
    assert_eq!(
        v.handle_key(Key::Char('t'), NOTHING),
        Command::Effect(Flash::Transition(TransitionStyle::FadeOut))
    );
    assert_eq!(v.handle_key(Key::Char('c'), NOTHING), Command::Effect(Flash::ColorFlash));
    assert_eq!(v.palette, ColorPalette::Fire);
    assert_eq!(v.handle_key(Key::Char('s'), NOTHING), Command::Effect(Flash::StyleCoalesce));
    assert_eq!(v.char_style, CharStyle::Blocks);
    assert_eq!(v.handle_key(Key::Char('w'), NOTHING), Command::Effect(Flash::WireDissolve));
    assert_eq!(v.render_mode, RenderMode::Wireframe);
    assert_eq!(v.handle_key(Key::Char('p'), NOTHING), Command::Nothing);
    assert_eq!(v.pixel_mode, PixelMode::HalfBlock);
    assert_eq!(v.handle_key(Key::Up, NOTHING), Command::ZoomIn);
    assert_eq!(v.handle_key(Key::Down, NOTHING), Command::ZoomOut);
    assert_eq!(v.handle_key(Key::Left, NOTHING), Command::SlowDown);
    assert_eq!(v.handle_key(Key::Right, NOTHING), Command::SpeedUp);
    assert_eq!(v.handle_key(Key::Char('i'), NOTHING), Command::Rotate(Turn::TiltUp));
    assert_eq!(v.handle_key(Key::Char('j'), NOTHING), Command::Rotate(Turn::SpinLeft));
    assert_eq!(v.handle_key(Key::Char('z'), NOTHING), Command::Nothing);
    assert_eq!(v.handle_key(Key::Other, NOTHING), Command::Nothing);

    assert_eq!(v.handle_key(Key::Char('r'), NOTHING), Command::Reset);
    assert_eq!(v.palette, ColorPalette::Cyan);
    assert_eq!(v.char_style, CharStyle::Ascii);
    assert_eq!(v.render_mode, RenderMode::Solid);
    assert_eq!(v.transition_style, TransitionStyle::Dissolve);
    // Reset keeps the shape and the pixel mode
    assert_eq!(v.shape, ShapeType::Cube);
    assert_eq!(v.pixel_mode, PixelMode::HalfBlock);
}

#[test]
fn space_pauses_a_countdown_and_switches_otherwise() {
    let mut v = ViewState::new();
    v.shape = ShapeType::Countdown;
    assert_eq!(v.handle_key(Key::Char(' '), ALL), Command::TogglePause);
    assert_eq!(v.shape, ShapeType::Countdown);
    v.shape = ShapeType::Sphere;
    v.handle_key(Key::Char(' '), ALL);
    assert_eq!(v.shape, ShapeType::CustomMesh);
}

#[test]
fn rotation_mode_resets_on_turntable() {
    let mut v = ViewState::new();
    assert_eq!(v.handle_key(Key::Char('m'), NOTHING), Command::Nothing);
    assert_eq!(v.rotation_mode, RotationMode::Full360);
    assert_eq!(v.handle_key(Key::Char('m'), NOTHING), Command::Nothing);
    assert_eq!(v.handle_key(Key::Char('m'), NOTHING), Command::ResetRotation);
    assert_eq!(v.rotation_mode, RotationMode::Horizontal);
    assert!(RotationMode::Full360.is_auto());
    assert!(!RotationMode::Manual.is_auto());
    assert_eq!(RotationMode::Full360.name(), "360°");
}

#[test]
fn detail_stays_between_bounds() {
    let mut v = ViewState::new();
    assert_eq!(v.detail, DEFAULT_DENSITY);
    for _ in 0..30 {
        assert_eq!(v.handle_key(Key::Char('+'), NOTHING), Command::ApplyDetail);
        assert!(v.detail <= MAX_DENSITY);
    }
    assert_eq!(v.detail, MAX_DENSITY);
    for _ in 0..30 {
        v.handle_key(Key::Char('['), NOTHING);
        assert!(v.detail >= MIN_DENSITY);
    }
    assert_eq!(v.detail, MIN_DENSITY);
    v.handle_key(Key::Char(']'), NOTHING);
    v.handle_key(Key::Char('='), NOTHING);
    assert_eq!(v.detail, MIN_DENSITY + 2);
}

#[test]
fn toggles_undo_themselves() {
    let mut v = ViewState::new();
    let start = v;
    v.handle_key(Key::Char('h'), NOTHING);
    assert!(!v.show_help);
    v.handle_key(Key::Char('h'), NOTHING);
    v.handle_key(Key::Char('d'), NOTHING);
    assert!(v.dither);
    v.handle_key(Key::Char('d'), NOTHING);
    assert_eq!(v, start);
}

#[test]
fn countdown_draws_one_pixel_per_cell() {
    let mut v = ViewState::new();
    v.pixel_mode = PixelMode::Braille;
    assert_eq!(v.effective_pixel_mode(), PixelMode::Braille);
    v.shape = ShapeType::Countdown;
    assert_eq!(v.effective_pixel_mode(), PixelMode::Cell);
}

#[test]
fn frames_animate_by_shape_and_mode() {
    assert_eq!(frame_work(ShapeType::AnimatedGif, RotationMode::Manual), FrameWork::AdvanceGif);
    assert_eq!(frame_work(ShapeType::Countdown, RotationMode::Full360), FrameWork::AdvanceCountdown);
    assert_eq!(frame_work(ShapeType::Cube, RotationMode::Horizontal), FrameWork::Turntable);
    assert_eq!(frame_work(ShapeType::CustomMesh, RotationMode::Full360), FrameWork::FullRotation);
    assert_eq!(frame_work(ShapeType::Torus, RotationMode::Manual), FrameWork::Hold);
    assert!(turns_by_hand(ShapeType::Sphere));
    assert!(!turns_by_hand(ShapeType::AnimatedGif));
}

#[test]
fn shape_names() {
    assert_eq!(shape_name(ShapeType::Torus, "m", "g", None), "Torus");
    assert_eq!(shape_name(ShapeType::CustomMesh, "bunny (12 tris)", "g", None), "bunny (12 tris)");
    assert_eq!(shape_name(ShapeType::AnimatedGif, "m", "cat", None), "cat");
    assert_eq!(shape_name(ShapeType::Countdown, "m", "g", Some(Some("Tea"))), "Countdown: Tea");
    assert_eq!(shape_name(ShapeType::Countdown, "m", "g", Some(None)), "Countdown");
    assert_eq!(shape_name(ShapeType::Countdown, "m", "g", None), "Countdown");
}

#[test]
fn timer_mode_decisions() {
    assert_eq!(timer_key(Key::Char('q')), TimerCommand::Quit);
    assert_eq!(timer_key(Key::Esc), TimerCommand::Quit);
    assert_eq!(timer_key(Key::Char('r')), TimerCommand::ResetCountdown);
    assert_eq!(timer_key(Key::Tab), TimerCommand::Nothing);
    assert_eq!(timer_palette(true, ColorPalette::Matrix), ColorPalette::Fire);
    assert_eq!(timer_palette(false, ColorPalette::Matrix), ColorPalette::Matrix);
    assert!(timer_shows_gif(true, 41, 16));
    assert!(!timer_shows_gif(true, 40, 16));
    assert!(!timer_shows_gif(true, 41, 15));
    assert!(!timer_shows_gif(false, 200, 60));
    assert!(cancels_monitor(Key::Char('q')));
    assert!(!cancels_monitor(Key::Char('r')));
}

#[test]
fn widget_animation_rules() {
    assert!(animates(true, None));
    assert!(!animates(false, None));
    assert!(!animates(false, Some(ContentKind::Mesh)));
    assert!(animates(false, Some(ContentKind::Gif)));
    assert!(animates(false, Some(ContentKind::Countdown)));
    assert!(animates(false, Some(ContentKind::Custom)));
    assert_eq!(Shape::Sphere.next(), Shape::Torus);
}

fn args(list: &[&str]) -> Vec<String> {
    list.iter().map(|s| s.to_string()).collect()
}

#[test]
fn command_line_is_read() {
    let a = parse_args(&args(&["zoa", "--countdown", "5m", "model.stl", "other.obj", "--timer"]));
    assert_eq!(a.countdown.as_deref(), Some("5m"));
    assert_eq!(a.model_path.as_deref(), Some("model.stl"));
    assert!(a.timer);
    assert!(!a.show_help);
    assert!(a.run_command.is_none());

    let a = parse_args(&args(&["zoa", "--run", "cargo build", "--model", "bunny.stl", "-c", "1:30", "-h"]));
    assert_eq!(a.run_command.as_deref(), Some("cargo build"));
    assert_eq!(a.model_path.as_deref(), Some("bunny.stl"));
    assert_eq!(a.countdown.as_deref(), Some("1:30"));
    assert!(a.show_help);

    // An option without its value is passed over, as are unknown options
    let a = parse_args(&args(&["zoa", "--verbose", "--run"]));
    assert!(a.run_command.is_none());
    assert!(a.model_path.is_none());
    // The program's own name is never a model
    let a = parse_args(&args(&["model.obj"]));
    assert!(a.model_path.is_none());
    // --model overrides a positional path; a later positional does not
    let a = parse_args(&args(&["zoa", "a.stl", "--model", "b.stl", "c.stl"]));
    assert_eq!(a.model_path.as_deref(), Some("b.stl"));
}
