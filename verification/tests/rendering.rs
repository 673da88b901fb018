use cerise::render::render;
use cerise::scene::{new_world, spawn_frame, spawn_vco};
use cerise::synth::{Vco, VcoWaveform};
use cerise::util::{Parent, Pos, Size, Transform};

const BORDER: [u8; 4] = [0xe3, 0x7b, 0x8f, 0xff];
const BACKGROUND: [u8; 4] = [0x15, 0x1e, 0x24, 0xff];

fn pixel(buf: &[u8], width: usize, x: usize, y: usize) -> [u8; 4] {
    let base = (y * width + x) * 4;
    [buf[base], buf[base + 1], buf[base + 2], buf[base + 3]]
}

#[test]
fn empty_scene_fills_buffer_with_background() {
    let world = new_world();
    let (width, height) = (64usize, 48usize);
    let mut buf = vec![7u8; width * height * 4];
    render(&world, &mut buf, width, height);
    for y in 0..height {
        for x in 0..width {
            assert_eq!(pixel(&buf, width, x, y), BACKGROUND);
        }
    }
}

#[test]
fn single_frame_marks_its_bounding_rectangle() {
    let mut world = new_world();
    spawn_frame(&mut world, String::from("oscillator"), Pos(50, 50), Size(260, 60));
    let (width, height) = (320usize, 120usize);
    let mut buf = vec![0u8; width * height * 4];
    render(&world, &mut buf, width, height);
    for y in 0..height {
        for x in 0..width {
            let inside = 50 <= x && x <= 310 && 50 <= y && y <= 110;
            let expected = if inside { BORDER } else { BACKGROUND };
            assert_eq!(pixel(&buf, width, x, y), expected, "pixel ({}, {})", x, y);
        }
    }
}

#[test]
fn dangling_parent_link_does_not_disturb_rendering() {
    let (width, height) = (160usize, 120usize);

    let mut plain = new_world();
    spawn_frame(&mut plain, String::from("oscillator"), Pos(20, 30), Size(60, 40));
    let mut expected = vec![0u8; width * height * 4];
    render(&plain, &mut expected, width, height);

    let mut linked = new_world();
    spawn_frame(&mut linked, String::from("oscillator"), Pos(20, 30), Size(60, 40));
    spawn_vco(
        &mut linked,
        Vco { waveform: VcoWaveform::Sine, frequency: 440, amplitude_milli: 500 },
        Size(250, 50),
        Parent { entity: 0xdead_0000_0000_0042, transform: Transform(10, 10) },
    );
    let mut actual = vec![0u8; width * height * 4];
    render(&linked, &mut actual, width, height);

    assert_eq!(actual, expected);
}

#[test]
fn rectangle_reaching_outside_the_buffer_is_clipped() {
    let mut world = new_world();
    spawn_frame(&mut world, String::from("offscreen"), Pos(-30, -30), Size(20, 20));
    spawn_frame(&mut world, String::from("corner"), Pos(56, 40), Size(100, 100));
    let (width, height) = (64usize, 48usize);
    let mut buf = vec![0u8; width * height * 4];
    render(&world, &mut buf, width, height);
    for y in 0..height {
        for x in 0..width {
            let inside = 56 <= x && 40 <= y;
            let expected = if inside { BORDER } else { BACKGROUND };
            assert_eq!(pixel(&buf, width, x, y), expected, "pixel ({}, {})", x, y);
        }
    }
}

#[test]
fn overlapping_frames_blend_into_one_region() {
    let mut world = new_world();
    spawn_frame(&mut world, String::from("left"), Pos(0, 0), Size(10, 10));
    spawn_frame(&mut world, String::from("right"), Pos(5, 5), Size(10, 10));
    let (width, height) = (32usize, 24usize);
    let mut buf = vec![0u8; width * height * 4];
    render(&world, &mut buf, width, height);
    for y in 0..height {
        for x in 0..width {
            let in_left = x <= 10 && y <= 10;
            let in_right = 5 <= x && x <= 15 && 5 <= y && y <= 15;
            let expected = if in_left || in_right { BORDER } else { BACKGROUND };
            assert_eq!(pixel(&buf, width, x, y), expected, "pixel ({}, {})", x, y);
        }
    }
}

#[test]
fn rendering_twice_is_idempotent() {
    let mut world = new_world();
    spawn_frame(&mut world, String::from("oscillator"), Pos(50, 50), Size(260, 60));
    let (width, height) = (320usize, 120usize);
    let mut first = vec![0u8; width * height * 4];
    render(&world, &mut first, width, height);
    let mut second = first.clone();
    render(&world, &mut second, width, height);
    assert_eq!(first, second);
}

#[test]
fn zero_size_frame_marks_a_single_pixel() {
    let mut world = new_world();
    spawn_frame(&mut world, String::from("dot"), Pos(3, 4), Size(0, 0));
    let (width, height) = (8usize, 8usize);
    let mut buf = vec![0u8; width * height * 4];
    render(&world, &mut buf, width, height);
    for y in 0..height {
        for x in 0..width {
            let expected = if x == 3 && y == 4 { BORDER } else { BACKGROUND };
            assert_eq!(pixel(&buf, width, x, y), expected, "pixel ({}, {})", x, y);
        }
    }
}
