use zoa::shapes::gif::GifFrame;
use zoa::{AnimatedGif, TimeSpan};

fn frame(ms: u64) -> GifFrame {
    GifFrame::new(1, 1, vec![0, 0, 0, 0], TimeSpan::from_millis(ms)).unwrap()
}

fn dt(secs: f32) -> TimeSpan {
    let d = std::time::Duration::try_from_secs_f32(secs).unwrap_or(std::time::Duration::ZERO);
    TimeSpan::new(d.as_secs(), d.subsec_nanos())
}

fn encode(frames: Vec<(u32, u32, Vec<u8>, u32)>) -> Vec<u8> {
    let mut bytes = Vec::new();
    {
        let mut encoder = image::codecs::gif::GifEncoder::new(&mut bytes);
        let frames = frames.into_iter().map(|(w, h, rgba, ms)| {
            image::Frame::from_parts(
                image::RgbaImage::from_raw(w, h, rgba).unwrap(),
                0,
                0,
                image::Delay::from_numer_denom_ms(ms, 1),
            )
        });
        encoder.encode_frames(frames).unwrap();
    }
    bytes
}

#[test]
fn test_gif_scaling_logic() {
    // Test the scaling math at various buffer sizes
    let img_width = 498usize;
    let img_height = 498usize;

    let test_cases = [(80, 24, "small"), (120, 40, "medium"), (200, 60, "large"), (40, 20, "tiny")];

    for (buf_w, buf_h, _) in test_cases {
        let scale_x = img_width as f32 / buf_w as f32;
        let scale_y = (img_height as f32 / buf_h as f32) * 0.5;
        let scale = scale_x.max(scale_y).max(1.0);

        let out_w = ((img_width as f32 / scale) as usize).min(buf_w);
        let out_h = ((img_height as f32 / scale * 0.5) as usize).min(buf_h);

        // Output should fit within buffer
        assert!(out_w <= buf_w, "Output width exceeds buffer");
        assert!(out_h <= buf_h, "Output height exceeds buffer");
        // Output should use reasonable portion of buffer
        assert!(out_w > buf_w / 4, "Output too small horizontally");
        assert!(out_h > buf_h / 4, "Output too small vertically");
    }
}

#[test]
fn test_frame_timing_carries_remainder() {
    let mut gif = AnimatedGif::from_frames(String::new(), vec![frame(100), frame(100), frame(100)]).unwrap();

    // Three 60ms ticks = 180ms: one frame advanced, 80ms carried over
    for _ in 0..3 {
        gif.update(dt(0.06));
    }
    assert_eq!(gif.current_frame(), 1);

    // A long stall skips ahead instead of advancing a single frame
    gif.update(dt(0.25));
    assert_eq!(gif.current_frame(), 1); // 80+250ms: advances through 2, 0, then 1

    // Invalid deltas are ignored rather than panicking
    gif.update(dt(-1.0));
    gif.update(dt(f32::NAN));
}

#[test]
fn playback_rests_inside_the_current_delay() {
    let mut gif = AnimatedGif::from_frames("t".to_string(), vec![frame(100), frame(40), frame(250)]).unwrap();
    gif.update(TimeSpan::from_millis(390));
    // 100 + 40 + 250 = 390: exactly one loop
    assert_eq!(gif.current_frame(), 0);
    assert_eq!(gif.elapsed(), TimeSpan::zero());
    gif.update(TimeSpan::from_millis(139));
    assert_eq!(gif.current_frame(), 1);
    assert_eq!(gif.elapsed(), TimeSpan::from_millis(39));
}

#[test]
fn playback_is_additive() {
    let frames = || vec![frame(30), frame(70), frame(50)];
    let mut a = AnimatedGif::from_frames(String::new(), frames()).unwrap();
    let mut b = AnimatedGif::from_frames(String::new(), frames()).unwrap();
    a.update(TimeSpan::from_millis(45));
    a.update(TimeSpan::from_millis(170));
    b.update(TimeSpan::from_millis(215));
    assert_eq!(a.current_frame(), b.current_frame());
    assert_eq!(a.elapsed(), b.elapsed());
    assert_eq!(b.current_frame(), 1);
    assert_eq!(b.elapsed(), TimeSpan::from_millis(35));
}

#[test]
fn frames_need_pixels_and_a_delay() {
    assert!(GifFrame::new(2, 2, vec![0; 15], TimeSpan::from_millis(10)).is_none());
    assert!(GifFrame::new(2, 2, vec![0; 16], TimeSpan::zero()).is_none());
    let f = GifFrame::new(2, 1, vec![1, 2, 3, 4, 5, 6, 7, 8], TimeSpan::from_millis(10)).unwrap();
    assert_eq!(f.pixel(1, 0), [5, 6, 7, 8]);
    assert_eq!((f.width(), f.height()), (2, 1));
    assert!(AnimatedGif::from_frames(String::new(), Vec::new()).is_none());
}

#[test]
fn decodes_frames_and_delays() {
    let red = vec![255, 0, 0, 255, 255, 0, 0, 255, 255, 0, 0, 255, 255, 0, 0, 255];
    let blue = vec![0, 0, 255, 255, 0, 0, 255, 255, 0, 0, 255, 255, 0, 0, 255, 255];
    let bytes = encode(vec![(2, 2, red, 200), (2, 2, blue, 0)]);
    let gif = AnimatedGif::from_bytes("anim".to_string(), &bytes).unwrap();
    assert_eq!(gif.frame_count(), 2);
    assert_eq!((gif.width, gif.height), (2, 2));
    assert_eq!(gif.name, "anim");
    assert!(!gif.used_chafa);
    assert_eq!(gif.current_frame(), 0);
    let first = gif.frame();
    assert_eq!(first.delay(), TimeSpan::from_millis(200));
    assert_eq!(first.pixel(1, 1), [255, 0, 0, 255]);

    // A zero delay is shown for 100 ms
    let mut gif = gif;
    gif.update(TimeSpan::from_millis(200));
    assert_eq!(gif.current_frame(), 1);
    assert_eq!(gif.frame().delay(), TimeSpan::from_millis(100));
    assert_eq!(gif.frame().pixel(0, 0), [0, 0, 255, 255]);
}

#[test]
fn undecodable_bytes_are_an_error() {
    let err = AnimatedGif::from_bytes("x".to_string(), b"not a gif").err().unwrap();
    assert!(!err.is_empty());
    assert!(AnimatedGif::from_bytes("x".to_string(), &[]).is_err());
}
