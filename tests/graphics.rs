use early_console::graphics::{
    FrameBuffer, HardwarePixel, HardwarePixelFormat, Pixel, PixelPosition, Resolution,
};

fn frame_buffer(format: HardwarePixelFormat, stride: usize, width: usize, height: usize) -> FrameBuffer {
    let resolution = Resolution { horizontal: width, vertical: height };
    FrameBuffer::new(vec![0u32; stride * height], format, stride, resolution).unwrap()
}

fn at(horizontal: usize, vertical: usize) -> PixelPosition {
    PixelPosition { horizontal, vertical }
}

#[test]
fn draw_then_read_inside() {
    let mut fb = frame_buffer(HardwarePixelFormat::Bgr, 640, 640, 200);
    let c = Pixel::rgb(10, 20, 30);
    fb.draw_pixel_if_visible(at(639, 199), c);
    assert_eq!(fb.get_pixel_if_visible(at(639, 199)), Some(c));
    fb.draw_pixel_if_visible(at(0, 0), Pixel::white());
    assert_eq!(fb.get_pixel_if_visible(at(0, 0)), Some(Pixel::white()));
    assert_eq!(fb.get_pixel_if_visible(at(1, 0)), Some(Pixel::black()));
}

#[test]
fn draw_outside_changes_nothing() {
    let mut fb = frame_buffer(HardwarePixelFormat::Rgb, 648, 640, 200);
    let before = fb.memory().clone();
    fb.draw_pixel_if_visible(at(640, 0), Pixel::white());
    fb.draw_pixel_if_visible(at(0, 200), Pixel::white());
    fb.draw_pixel_if_visible(at(645, 3), Pixel::white());
    assert_eq!(fb.memory(), &before);
    assert_eq!(fb.get_pixel_if_visible(at(640, 0)), None);
    assert_eq!(fb.get_pixel_if_visible(at(0, 200)), None);
}

#[test]
fn addressing_uses_the_stride() {
    let mut fb = frame_buffer(HardwarePixelFormat::Rgb, 700, 640, 200);
    fb.draw_pixel_if_visible(at(5, 2), Pixel::rgb(1, 2, 3));
    assert_eq!(fb.memory()[2 * 700 + 5], 0x0003_0201);
    assert_eq!(fb.memory().iter().filter(|w| **w != 0).count(), 1);
}

#[test]
fn hardware_pixel_byte_orders() {
    let p = Pixel::rgb(1, 2, 3);
    assert_eq!(HardwarePixel::new(p, HardwarePixelFormat::Bgr).0, 0x0001_0203);
    assert_eq!(HardwarePixel::new(p, HardwarePixelFormat::Rgb).0, 0x0003_0201);
    assert_eq!(HardwarePixel(0x0001_0203).into_pixel(HardwarePixelFormat::Bgr), p);
    assert_eq!(HardwarePixel(0x0003_0201).into_pixel(HardwarePixelFormat::Rgb), p);
    assert_eq!(HardwarePixel(0x0001_0203).into_pixel(HardwarePixelFormat::Rgb), Pixel::rgb(3, 2, 1));
}

#[test]
fn copy_one_pixel_copies_the_stored_word() {
    let mut fb = frame_buffer(HardwarePixelFormat::Bgr, 640, 640, 200);
    fb.draw_pixel_if_visible(at(3, 4), Pixel::rgb(9, 8, 7));
    fb.copy_one_pixel(at(100, 150), at(3, 4));
    assert_eq!(fb.get_pixel_if_visible(at(100, 150)), Some(Pixel::rgb(9, 8, 7)));
    assert_eq!(fb.get_pixel_if_visible(at(3, 4)), Some(Pixel::rgb(9, 8, 7)));
}

#[test]
fn fill_paints_every_visible_pixel_only() {
    let mut fb = frame_buffer(HardwarePixelFormat::Rgb, 324, 320, 200);
    let c = Pixel::rgb(5, 6, 7);
    fb.fill(c);
    for v in 0..200 {
        for h in 0..320 {
            assert_eq!(fb.get_pixel_if_visible(at(h, v)), Some(c));
        }
        for h in 320..324 {
            assert_eq!(fb.memory()[v * 324 + h], 0);
        }
    }
    fb.blacken();
    assert_eq!(fb.get_pixel_if_visible(at(17, 33)), Some(Pixel::black()));
}

#[test]
fn resolution_support_range() {
    let r = |horizontal, vertical| Resolution { horizontal, vertical };
    assert!(r(320, 200).is_supported());
    assert!(r(1920, 1080).is_supported());
    assert!(!r(319, 200).is_supported());
    assert!(!r(320, 199).is_supported());
    assert!(!r(1921, 1080).is_supported());
    assert!(!r(1920, 1081).is_supported());
}

#[test]
fn resolution_accepts_positions_inside_only() {
    let r = Resolution { horizontal: 640, vertical: 200 };
    assert!(r.accepts_position(at(639, 199)));
    assert!(!r.accepts_position(at(640, 0)));
    assert!(!r.accepts_position(at(0, 200)));
}

#[test]
fn frame_buffer_new_checks_the_descriptor() {
    let res = Resolution { horizontal: 640, vertical: 200 };
    assert!(FrameBuffer::new(vec![0; 640 * 200], HardwarePixelFormat::Bgr, 640, res).is_some());
    assert!(FrameBuffer::new(vec![0; 640 * 200 - 1], HardwarePixelFormat::Bgr, 640, res).is_none());
    assert!(FrameBuffer::new(vec![0; 639 * 200], HardwarePixelFormat::Bgr, 639, res).is_none());
    let small = Resolution { horizontal: 300, vertical: 200 };
    assert!(FrameBuffer::new(vec![0; 300 * 200], HardwarePixelFormat::Bgr, 300, small).is_none());
    let fb = FrameBuffer::new(vec![0; 648 * 200], HardwarePixelFormat::Rgb, 648, res).unwrap();
    assert_eq!(fb.resolution(), res);
    assert_eq!(fb.stride(), 648);
    assert_eq!(fb.pixel_format(), HardwarePixelFormat::Rgb);
}

#[test]
fn fill_keeps_padding_words() {
    let res = Resolution { horizontal: 320, vertical: 200 };
    let memory = vec![0xAB00_0001u32; 330 * 200];
    let mut fb = FrameBuffer::new(memory, HardwarePixelFormat::Bgr, 330, res).unwrap();
    fb.fill(Pixel::rgb(1, 2, 3));
    assert_eq!(fb.memory()[5 * 330 + 7], 0x0001_0203);
    assert_eq!(fb.memory()[5 * 330 + 320], 0xAB00_0001);
    assert_eq!(fb.memory()[199 * 330 + 329], 0xAB00_0001);
}

#[test]
fn copy_one_pixel_copies_the_whole_word() {
    let res = Resolution { horizontal: 320, vertical: 200 };
    let mut memory = vec![0u32; 320 * 200];
    memory[3] = 0xFF12_3456;
    let mut fb = FrameBuffer::new(memory, HardwarePixelFormat::Rgb, 320, res).unwrap();
    fb.copy_one_pixel(at(0, 1), at(3, 0));
    assert_eq!(fb.memory()[320], 0xFF12_3456);
    assert_eq!(fb.memory().iter().filter(|w| **w != 0).count(), 2);
}
