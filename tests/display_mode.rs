use early_console::display_mode::{
    compare_horizontal_resolutions, get_horizontal_resolution, has_supported_resolution, is_supported, select_highest_supported_mode,
    supports_32bit_pixels_direct_drawing, DisplayMode,
};
use early_console::graphics::{HardwarePixelFormat, Resolution};
use std::cmp::Ordering;

fn mode(format: Option<HardwarePixelFormat>, horizontal: usize, vertical: usize) -> DisplayMode {
    DisplayMode { pixel_format: format, resolution: Resolution { horizontal, vertical } }
}

#[test]
fn no_usable_mode() {
    assert_eq!(select_highest_supported_mode(&vec![]), None);
    let modes = vec![mode(None, 800, 600), mode(Some(HardwarePixelFormat::Bgr), 2560, 1440)];
    assert_eq!(select_highest_supported_mode(&modes), None);
}

#[test]
fn highest_usable_mode_is_chosen() {
    let modes = vec![
        mode(Some(HardwarePixelFormat::Bgr), 800, 600),
        mode(None, 1920, 1080),
        mode(Some(HardwarePixelFormat::Rgb), 1024, 768),
        mode(Some(HardwarePixelFormat::Bgr), 3840, 2160),
        mode(Some(HardwarePixelFormat::Bgr), 640, 480),
    ];
    assert_eq!(select_highest_supported_mode(&modes), Some(2));
}

#[test]
fn last_of_equal_modes_is_chosen() {
    let modes = vec![
        mode(Some(HardwarePixelFormat::Bgr), 1024, 768),
        mode(Some(HardwarePixelFormat::Rgb), 1024, 600),
        mode(Some(HardwarePixelFormat::Bgr), 800, 600),
    ];
    assert_eq!(select_highest_supported_mode(&modes), Some(1));
}

#[test]
fn mode_predicates() {
    let m = mode(Some(HardwarePixelFormat::Rgb), 1920, 1080);
    assert!(supports_32bit_pixels_direct_drawing(&m));
    assert!(has_supported_resolution(&m));
    assert!(is_supported(&m));
    assert_eq!(get_horizontal_resolution(&m), 1920);
    let n = mode(None, 320, 200);
    assert!(!supports_32bit_pixels_direct_drawing(&n));
    assert!(has_supported_resolution(&n));
    assert!(!is_supported(&n));
    assert!(!has_supported_resolution(&mode(Some(HardwarePixelFormat::Rgb), 320, 1081)));
}

#[test]
fn horizontal_resolutions_compare() {
    let a = mode(None, 800, 600);
    let b = mode(Some(HardwarePixelFormat::Bgr), 1024, 200);
    let c = mode(Some(HardwarePixelFormat::Rgb), 800, 1080);
    assert_eq!(compare_horizontal_resolutions(&a, &b), Ordering::Less);
    assert_eq!(compare_horizontal_resolutions(&b, &a), Ordering::Greater);
    assert_eq!(compare_horizontal_resolutions(&a, &c), Ordering::Equal);
}
