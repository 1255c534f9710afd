//! Choosing the display mode that the console is drawn in.
use vstd::prelude::*;
use core::cmp::Ordering;
use crate::graphics::{HardwarePixelFormat, Resolution};

verus! {

/// What the console needs to know of a display mode: its pixel format, where it is a
/// 32-bit direct-color one, and its resolution.
#[derive(Clone, Copy, Debug, PartialEq, Eq, Structural)]
pub struct DisplayMode {
    pub pixel_format: Option<HardwarePixelFormat>,
    pub resolution: Resolution,
}

impl DisplayMode {
    /// A 32-bit direct-color format and a supported resolution.
    pub open spec fn usable(self) -> bool {
        self.pixel_format is Some && self.resolution.supported()
    }
}

pub fn supports_32bit_pixels_direct_drawing(mode: &DisplayMode) -> (r: bool)
    ensures
        r == mode.pixel_format is Some,
{
    mode.pixel_format.is_some()
}

pub fn has_supported_resolution(mode: &DisplayMode) -> (r: bool)
    ensures
        r == mode.resolution.supported(),
{
    mode.resolution.is_supported()
}

pub fn is_supported(mode: &DisplayMode) -> (r: bool)
    ensures
        r == mode.usable(),
{
    supports_32bit_pixels_direct_drawing(mode) && has_supported_resolution(mode)
}

pub fn get_horizontal_resolution(mode: &DisplayMode) -> (r: usize)
    ensures
        r == mode.resolution.horizontal,
{
    mode.resolution.horizontal
}

/// How the horizontal resolutions of two modes compare.
pub fn compare_horizontal_resolutions(mode1: &DisplayMode, mode2: &DisplayMode) -> (r: Ordering)
    ensures
        r == (if mode1.resolution.horizontal < mode2.resolution.horizontal {
            Ordering::Less
        } else if mode1.resolution.horizontal == mode2.resolution.horizontal {
            Ordering::Equal
        } else {
            Ordering::Greater
        }),
{
    let h1 = get_horizontal_resolution(mode1);
    let h2 = get_horizontal_resolution(mode2);
    if h1 < h2 {
        Ordering::Less
    } else if h1 == h2 {
        Ordering::Equal
    } else {
        Ordering::Greater
    }
}

/// The usable mode of greatest horizontal resolution, the last of them where several tie;
/// `None` where no mode is usable.
pub fn select_highest_supported_mode(modes: &Vec<DisplayMode>) -> (r: Option<usize>)
    ensures
        r is None <==> forall|i: int| 0 <= i < modes@.len() ==> !(#[trigger] modes@[i]).usable(),
        r matches Some(i) ==> {
            &&& i < modes@.len()
            &&& modes@[i as int].usable()
            &&& forall|j: int|
                0 <= j < modes@.len() && (#[trigger] modes@[j]).usable()
                    ==> modes@[j].resolution.horizontal <= modes@[i as int].resolution.horizontal
            &&& forall|j: int|
                i < j < modes@.len() && (#[trigger] modes@[j]).usable()
                    ==> modes@[j].resolution.horizontal < modes@[i as int].resolution.horizontal
        },
{
    let mut best: Option<usize> = None;
    let mut k: usize = 0;
    while k < modes.len()
        invariant
            k <= modes@.len(),
            best is None <==> forall|i: int| 0 <= i < k ==> !(#[trigger] modes@[i]).usable(),
            best matches Some(b) ==> {
                &&& b < k
                &&& modes@[b as int].usable()
                &&& forall|j: int|
                    0 <= j < k && (#[trigger] modes@[j]).usable()
                        ==> modes@[j].resolution.horizontal <= modes@[b as int].resolution.horizontal
                &&& forall|j: int|
                    b < j < k && (#[trigger] modes@[j]).usable()
                        ==> modes@[j].resolution.horizontal < modes@[b as int].resolution.horizontal
            },
        decreases modes@.len() - k,
    {
        let mode = &modes[k];
        if is_supported(mode) {
            match best {
                None => {
                    best = Some(k);
                },
                Some(b) => match compare_horizontal_resolutions(mode, &modes[b]) {
                    Ordering::Less => {},
                    _ => {
                        best = Some(k);
                    },
                },
            }
        }
        k += 1;
    }
    best
}

} // verus!
