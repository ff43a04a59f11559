use auto_shake::capture::{step, LoopAction, LoopEvent, LoopState, COOLDOWN_MS, IDLE_SLEEP_MS, RETRY_SLEEP_MS};
use auto_shake::config::{AppConfig, OcrConfig};
use auto_shake::detect::detect_white_blob;
use auto_shake::frame::{extract, luma, Frame, LumaImage};

fn region(x: i32, y: i32, w: u32, h: u32) -> OcrConfig {
    OcrConfig { capture_width: w, capture_height: h, capture_x: x, capture_y: y }
}

/// A snapshot whose pixel (x, y) has red = x, green = y, blue = 7.
fn gradient_frame(w: u32, h: u32) -> Frame {
    let mut data = Vec::new();
    for y in 0..h {
        for x in 0..w {
            data.extend_from_slice(&[x as u8, y as u8, 7, 255]);
        }
    }
    Frame::from_rgba(w, h, data).unwrap()
}

fn expected_luma(r: u32, g: u32, b: u32) -> u8 {
    ((299 * r + 587 * g + 114 * b + 500) / 1000) as u8
}

/// A `w` by `h` black image with the given bright rectangles painted in.
fn image_with(w: u32, h: u32, rects: &[(u32, u32, u32, u32)]) -> LumaImage {
    let mut data = vec![0u8; (w * h) as usize];
    for &(rx, ry, rw, rh) in rects {
        for y in ry..ry + rh {
            for x in rx..rx + rw {
                data[(y * w + x) as usize] = 255;
            }
        }
    }
    LumaImage::from_luma(w, h, data).unwrap()
}

#[test]
fn default_config_values() {
    let c = AppConfig::default();
    assert_eq!(c.ocr, region(122, 40, 1162, 586));
    assert_eq!(c.hotkeys.toggle_box, "F3");
    assert_eq!(c.hotkeys.toggle_action, "F4");
    assert_eq!(c.hotkeys.exit_app, "F5");
    assert!(c.ui.enable_overlay);
    assert_eq!((c.ui.status_x, c.ui.status_y), (85, 1));
}

#[test]
fn frame_rejects_wrong_byte_count() {
    assert!(Frame::from_rgba(2, 2, vec![0; 15]).is_none());
    assert!(Frame::from_rgba(2, 2, vec![0; 16]).is_some());
    assert!(LumaImage::from_luma(3, 2, vec![0; 5]).is_none());
    assert!(LumaImage::from_luma(3, 2, vec![0; 6]).is_some());
}

#[test]
fn luma_white_black_and_gray() {
    assert_eq!(luma(255, 255, 255), 255);
    assert_eq!(luma(0, 0, 0), 0);
    for v in 0..=255u8 {
        assert_eq!(luma(v, v, v), v);
    }
    assert_eq!(luma(255, 0, 0), 76);
    assert_eq!(luma(0, 255, 0), 150);
    assert_eq!(luma(0, 0, 255), 29);
    assert_eq!(luma(10, 20, 30), luma(10, 20, 30));
    assert_eq!(luma(10, 20, 30), expected_luma(10, 20, 30));
}

#[test]
fn extract_inside_region_is_exact() {
    let f = gradient_frame(20, 10);
    let img = extract(&f, region(3, 2, 5, 4)).unwrap();
    assert_eq!((img.width, img.height), (5, 4));
    assert_eq!(img.data.len(), 20);
    assert_eq!(img.get_pixel(0, 0), expected_luma(3, 2, 7));
    assert_eq!(img.get_pixel(4, 3), expected_luma(7, 5, 7));
}

#[test]
fn extract_clamps_negative_corner() {
    let f = gradient_frame(20, 10);
    let img = extract(&f, region(-5, -3, 4, 4)).unwrap();
    assert_eq!((img.width, img.height), (4, 4));
    assert_eq!(img.get_pixel(0, 0), expected_luma(0, 0, 7));
    assert_eq!(img.get_pixel(3, 2), expected_luma(3, 2, 7));
}

#[test]
fn extract_cuts_at_far_edges() {
    let f = gradient_frame(20, 10);
    let img = extract(&f, region(17, 8, 100, 100)).unwrap();
    assert_eq!((img.width, img.height), (3, 2));
    assert_eq!(img.get_pixel(2, 1), expected_luma(19, 9, 7));
}

#[test]
fn extract_origin_beyond_frame_is_none() {
    let f = gradient_frame(20, 10);
    assert!(extract(&f, region(20, 0, 5, 5)).is_none());
    assert!(extract(&f, region(0, 10, 5, 5)).is_none());
    assert!(extract(&f, region(500, 500, 5, 5)).is_none());
    assert!(extract(&f, region(0, 0, 0, 5)).is_none());
}

#[test]
fn blob_all_black_is_false() {
    assert!(!detect_white_blob(&image_with(60, 60, &[])));
}

#[test]
fn blob_single_pixel_is_false() {
    assert!(!detect_white_blob(&image_with(60, 60, &[(30, 30, 1, 1)])));
}

#[test]
fn blob_span_boundary() {
    // spans are counted edge pixel to edge pixel: 42 pixels span 41
    assert!(detect_white_blob(&image_with(60, 60, &[(0, 0, 42, 42)])));
    assert!(!detect_white_blob(&image_with(60, 60, &[(0, 0, 41, 41)])));
    assert!(!detect_white_blob(&image_with(60, 60, &[(0, 0, 40, 40)])));
    assert!(!detect_white_blob(&image_with(60, 60, &[(0, 0, 50, 41)])));
}

#[test]
fn blob_threshold_is_inclusive() {
    let mut data = vec![0u8; 60 * 60];
    data[0] = 240;
    data[59 * 60 + 59] = 240;
    assert!(detect_white_blob(&LumaImage::from_luma(60, 60, data.clone()).unwrap()));
    data[0] = 239;
    assert!(!detect_white_blob(&LumaImage::from_luma(60, 60, data).unwrap()));
}

#[test]
fn blob_two_corner_dots_is_true() {
    assert!(detect_white_blob(&image_with(50, 50, &[(0, 0, 1, 1), (49, 49, 1, 1)])));
}

#[test]
fn inactive_loop_never_captures() {
    let mut state = LoopState::Idle;
    let mut captures = 0;
    for _ in 0..25 {
        let (next, action) = step(state, LoopEvent::Polled { active: false, region: region(0, 0, 10, 10) });
        if action == LoopAction::Capture {
            captures += 1;
        }
        assert_eq!(action, LoopAction::Sleep { millis: IDLE_SLEEP_MS });
        state = next;
    }
    assert_eq!(captures, 0);
    assert_eq!(state, LoopState::Idle);
}

/// A snapshot that is black but for a bright square at (10, 10) of side 45.
fn marker_frame() -> Frame {
    let (w, h) = (80u32, 80u32);
    let mut data = Vec::new();
    for y in 0..h {
        for x in 0..w {
            let v = if (10..55).contains(&x) && (10..55).contains(&y) { 255 } else { 0 };
            data.extend_from_slice(&[v, v, v, 255]);
        }
    }
    Frame::from_rgba(w, h, data).unwrap()
}

#[test]
fn detection_presses_once_then_cools_down() {
    let r = region(0, 0, 80, 80);
    let (s1, a1) = step(LoopState::Idle, LoopEvent::Polled { active: true, region: r });
    assert_eq!(a1, LoopAction::Capture);
    assert_eq!(s1, LoopState::Sampling { region: r });
    let (s2, a2) = step(s1, LoopEvent::FrameCaptured { frame: marker_frame() });
    assert_eq!(a2, LoopAction::PressKey);
    assert_eq!(s2, LoopState::Cooldown);
    let (s3, a3) = step(s2, LoopEvent::KeySent);
    assert_eq!(a3, LoopAction::Sleep { millis: COOLDOWN_MS });
    assert_eq!(s3, LoopState::Idle);
    // the next cycle sees no marker: no second press
    let (s4, a4) = step(s3, LoopEvent::Polled { active: true, region: r });
    assert_eq!(a4, LoopAction::Capture);
    let (s5, a5) = step(s4, LoopEvent::FrameCaptured { frame: gradient_frame(80, 80) });
    assert_eq!(a5, LoopAction::Sleep { millis: RETRY_SLEEP_MS });
    assert_eq!(s5, LoopState::Idle);
}

#[test]
fn marker_outside_region_is_ignored() {
    let r = region(60, 60, 20, 20);
    let (s1, _) = step(LoopState::Idle, LoopEvent::Polled { active: true, region: r });
    let (_, a) = step(s1, LoopEvent::FrameCaptured { frame: marker_frame() });
    assert_eq!(a, LoopAction::Sleep { millis: RETRY_SLEEP_MS });
}

#[test]
fn unavailable_frame_skips_cycle() {
    let r = region(0, 0, 10, 10);
    let (s1, _) = step(LoopState::Idle, LoopEvent::Polled { active: true, region: r });
    let (s2, a2) = step(s1, LoopEvent::FrameUnavailable);
    assert_eq!(s2, LoopState::Idle);
    assert_eq!(a2, LoopAction::Sleep { millis: RETRY_SLEEP_MS });
    // an off-screen region yields no image, also a skipped cycle
    let (s3, _) = step(LoopState::Idle, LoopEvent::Polled { active: true, region: region(500, 0, 10, 10) });
    let (s4, a4) = step(s3, LoopEvent::FrameCaptured { frame: marker_frame() });
    assert_eq!((s4, a4), (LoopState::Idle, LoopAction::Sleep { millis: RETRY_SLEEP_MS }));
}

#[test]
fn out_of_order_event_skips_cycle() {
    let (s, a) = step(LoopState::Idle, LoopEvent::KeySent);
    assert_eq!((s, a), (LoopState::Idle, LoopAction::Sleep { millis: RETRY_SLEEP_MS }));
}
