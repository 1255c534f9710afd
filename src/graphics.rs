//! Pixels, geometry and the frame buffer that holds the pixel memory.
use vstd::prelude::*;

verus! {

/// Smallest supported horizontal resolution, in pixels.
pub const MIN_HORIZONTAL_RESOLUTION: usize = 320;

/// Smallest supported vertical resolution, in pixels.
pub const MIN_VERTICAL_RESOLUTION: usize = 200;

/// Largest supported horizontal resolution, in pixels.
pub const MAX_HORIZONTAL_RESOLUTION: usize = 1920;

/// Largest supported vertical resolution, in pixels.
pub const MAX_VERTICAL_RESOLUTION: usize = 1080;

/// A logical color, one byte per channel.
#[derive(Clone, Copy, Debug, PartialEq, Eq, Structural)]
pub struct Pixel {
    pub red: u8,
    pub green: u8,
    pub blue: u8,
}

impl Pixel {
    pub fn rgb(red: u8, green: u8, blue: u8) -> (r: Pixel)
        ensures
            r == (Pixel { red, green, blue }),
    {
        Pixel { red, green, blue }
    }

    pub fn black() -> (r: Pixel)
        ensures
            r == (Pixel { red: 0, green: 0, blue: 0 }),
    {
        Pixel::rgb(0, 0, 0)
    }

    pub fn white() -> (r: Pixel)
        ensures
            r == (Pixel { red: 255, green: 255, blue: 255 }),
    {
        Pixel::rgb(255, 255, 255)
    }
}

/// The byte order of a 32-bit hardware pixel, lowest byte first.
#[derive(Clone, Copy, Debug, PartialEq, Eq, Structural)]
pub enum HardwarePixelFormat {
    /// Blue, green, red, reserved.
    Bgr,
    /// Red, green, blue, reserved.
    Rgb,
}

/// A pixel as the display hardware stores it.
#[derive(Clone, Copy, Debug, PartialEq, Eq, Structural)]
pub struct HardwarePixel(pub u32);

/// Three bytes packed little-endian into a word whose top byte is zero.
pub open spec fn pack_bytes(b0: u8, b1: u8, b2: u8) -> u32 {
    (b0 as u32) | ((b1 as u32) << 8u32) | ((b2 as u32) << 16u32)
}

/// Byte `0`, `1` or `2` of a word, counting from the least significant one.
pub open spec fn byte_of(x: u32, k: u32) -> u8 {
    ((x >> (8 * k)) & 0xffu32) as u8
}

/// The hardware word that encodes `p` in format `f`.
pub open spec fn hardware_value(p: Pixel, f: HardwarePixelFormat) -> u32 {
    match f {
        HardwarePixelFormat::Bgr => pack_bytes(p.blue, p.green, p.red),
        HardwarePixelFormat::Rgb => pack_bytes(p.red, p.green, p.blue),
    }
}

/// The logical color that the hardware word `x` encodes in format `f`.
pub open spec fn pixel_value(x: u32, f: HardwarePixelFormat) -> Pixel {
    match f {
        HardwarePixelFormat::Bgr => Pixel { red: byte_of(x, 2), green: byte_of(x, 1), blue: byte_of(x, 0) },
        HardwarePixelFormat::Rgb => Pixel { red: byte_of(x, 0), green: byte_of(x, 1), blue: byte_of(x, 2) },
    }
}

proof fn lemma_pack_bytes(b0: u8, b1: u8, b2: u8)
    by (bit_vector)
    ensures
        ((((b0 as u32) | ((b1 as u32) << 8u32) | ((b2 as u32) << 16u32)) >> 0u32) & 0xffu32) as u8 == b0,
        ((((b0 as u32) | ((b1 as u32) << 8u32) | ((b2 as u32) << 16u32)) >> 8u32) & 0xffu32) as u8 == b1,
        ((((b0 as u32) | ((b1 as u32) << 8u32) | ((b2 as u32) << 16u32)) >> 16u32) & 0xffu32) as u8 == b2,
{
}

/// Encoding a color for the hardware and decoding it again gives the color back.
pub proof fn lemma_hardware_round_trip(p: Pixel, f: HardwarePixelFormat)
    ensures
        pixel_value(hardware_value(p, f), f) == p,
{
    lemma_pack_bytes(p.blue, p.green, p.red);
    lemma_pack_bytes(p.red, p.green, p.blue);
}

impl HardwarePixel {
    pub fn new(pixel: Pixel, pixel_format: HardwarePixelFormat) -> (r: HardwarePixel)
        ensures
            r.0 == hardware_value(pixel, pixel_format),
    {
        let (b0, b1, b2) = match pixel_format {
            HardwarePixelFormat::Bgr => (pixel.blue, pixel.green, pixel.red),
            HardwarePixelFormat::Rgb => (pixel.red, pixel.green, pixel.blue),
        };
        HardwarePixel((b0 as u32) | ((b1 as u32) << 8u32) | ((b2 as u32) << 16u32))
    }

    /// The logical color that this word encodes in `pixel_format`.
    pub fn into_pixel(self, pixel_format: HardwarePixelFormat) -> (r: Pixel)
        ensures
            r == pixel_value(self.0, pixel_format),
    {
        let x = self.0;
        let b0 = (x & 0xffu32) as u8;
        let b1 = ((x >> 8u32) & 0xffu32) as u8;
        let b2 = ((x >> 16u32) & 0xffu32) as u8;
        assert(b0 == byte_of(x, 0) && b1 == byte_of(x, 1) && b2 == byte_of(x, 2)) by {
            assert((x >> 0u32) == x) by (bit_vector);
        }
        match pixel_format {
            HardwarePixelFormat::Bgr => Pixel::rgb(b2, b1, b0),
            HardwarePixelFormat::Rgb => Pixel::rgb(b0, b1, b2),
        }
    }
}

#[derive(Clone, Copy, Debug, PartialEq, Eq, Structural)]
pub struct PixelPosition {
    pub horizontal: usize,
    pub vertical: usize,
}

#[derive(Clone, Copy, Debug, PartialEq, Eq, Structural)]
pub struct Resolution {
    pub horizontal: usize,
    pub vertical: usize,
}

impl Resolution {
    pub open spec fn supported(self) -> bool {
        &&& MIN_HORIZONTAL_RESOLUTION <= self.horizontal <= MAX_HORIZONTAL_RESOLUTION
        &&& MIN_VERTICAL_RESOLUTION <= self.vertical <= MAX_VERTICAL_RESOLUTION
    }

    pub open spec fn contains(self, position: PixelPosition) -> bool {
        position.horizontal < self.horizontal && position.vertical < self.vertical
    }

    pub fn is_supported(&self) -> (r: bool)
        ensures
            r == self.supported(),
    {
        MIN_HORIZONTAL_RESOLUTION <= self.horizontal && self.horizontal
            <= MAX_HORIZONTAL_RESOLUTION && MIN_VERTICAL_RESOLUTION <= self.vertical
            && self.vertical <= MAX_VERTICAL_RESOLUTION
    }

    pub fn accepts_position(&self, position: PixelPosition) -> (r: bool)
        ensures
            r == self.contains(position),
    {
        position.horizontal < self.horizontal && position.vertical < self.vertical
    }
}

/// A screen of `rows` rows of `columns` pixels, all of color `pixel`.
pub open spec fn solid(rows: nat, columns: nat, pixel: Pixel) -> Seq<Seq<Pixel>> {
    Seq::new(rows, |v: int| Seq::new(columns, |h: int| pixel))
}

/// Whether `p` lies on `screen`.
pub open spec fn on_screen(screen: Seq<Seq<Pixel>>, p: PixelPosition) -> bool {
    p.vertical < screen.len() && p.horizontal < screen[p.vertical as int].len()
}

/// `screen` with the pixel at `p` set to `c`, or unchanged where `p` is off the screen.
pub open spec fn paint(screen: Seq<Seq<Pixel>>, p: PixelPosition, c: Pixel) -> Seq<Seq<Pixel>> {
    if on_screen(screen, p) {
        screen.update(p.vertical as int, screen[p.vertical as int].update(p.horizontal as int, c))
    } else {
        screen
    }
}

/// The pixel of `screen` at `p`, or `None` where `p` is off the screen.
pub open spec fn look(screen: Seq<Seq<Pixel>>, p: PixelPosition) -> Option<Pixel> {
    if on_screen(screen, p) {
        Some(screen[p.vertical as int][p.horizontal as int])
    } else {
        None
    }
}

/// The index, in memory of `stride` words per scanline, of the word at `v`, `h`.
pub open spec fn word_index(stride: int, v: int, h: int) -> int {
    v * stride + h
}

proof fn lemma_word_index_facts(s: int, rows: int)
    requires
        0 < s,
    ensures
        forall|v1: int, h1: int, v2: int, h2: int|
            0 <= h1 < s && 0 <= h2 < s && 0 <= v1 && 0 <= v2 && #[trigger] word_index(s, v1, h1)
                == #[trigger] word_index(s, v2, h2) ==> v1 == v2 && h1 == h2,
        forall|v: int, h: int|
            0 <= v < rows && 0 <= h < s ==> 0 <= #[trigger] word_index(s, v, h) < s * rows,
{
    assert forall|v1: int, h1: int, v2: int, h2: int|
        0 <= h1 < s && 0 <= h2 < s && 0 <= v1 && 0 <= v2 && #[trigger] word_index(s, v1, h1)
            == #[trigger] word_index(s, v2, h2) implies v1 == v2 && h1 == h2 by {
        lemma_offset_injective(s, v1, h1, v2, h2);
    }
    assert forall|v: int, h: int| 0 <= v < rows && 0 <= h < s implies 0 <= #[trigger] word_index(
        s,
        v,
        h,
    ) < s * rows by {
        lemma_offset_in_bounds(s, v, h, rows);
    }
}

proof fn lemma_offset_injective(s: int, v1: int, h1: int, v2: int, h2: int)
    requires
        0 <= h1 < s,
        0 <= h2 < s,
        0 <= v1,
        0 <= v2,
        v1 * s + h1 == v2 * s + h2,
    ensures
        v1 == v2,
        h1 == h2,
{
    if v1 < v2 {
        assert((v1 + 1) * s <= v2 * s) by (nonlinear_arith)
            requires
                v1 + 1 <= v2,
                0 < s,
        ;
        assert(false) by (nonlinear_arith)
            requires
                (v1 + 1) * s <= v2 * s,
                v1 * s + h1 == v2 * s + h2,
                h1 < s,
                0 <= h2,
        ;
    } else if v2 < v1 {
        assert((v2 + 1) * s <= v1 * s) by (nonlinear_arith)
            requires
                v2 + 1 <= v1,
                0 < s,
        ;
        assert(false) by (nonlinear_arith)
            requires
                (v2 + 1) * s <= v1 * s,
                v1 * s + h1 == v2 * s + h2,
                h2 < s,
                0 <= h1,
        ;
    }
}

proof fn lemma_offset_in_bounds(s: int, v: int, h: int, rows: int)
    requires
        0 <= h < s,
        0 <= v < rows,
    ensures
        0 <= v * s + h < rows * s,
        v * s + h < s * rows,
{
    assert(0 <= v * s) by (nonlinear_arith)
        requires
            0 <= v,
            0 <= s,
    ;
    assert((v + 1) * s <= rows * s) by (nonlinear_arith)
        requires
            v + 1 <= rows,
            0 <= s,
    ;
    assert((v + 1) * s == v * s + s) by (nonlinear_arith);
    assert(rows * s == s * rows) by (nonlinear_arith);
}

/// Exclusive owner of the pixel memory of a display: `stride` hardware pixels per
/// scanline, of which the first `resolution.horizontal` are visible.
pub struct FrameBuffer {
    pixels: Vec<u32>,
    pixel_format: HardwarePixelFormat,
    stride: usize,
    resolution: Resolution,
}

impl FrameBuffer {
    pub closed spec fn wf(&self) -> bool {
        &&& self.resolution.supported()
        &&& self.resolution.horizontal <= self.stride
        &&& self.pixels@.len() == self.stride * self.resolution.vertical
    }

    pub closed spec fn resolution_spec(&self) -> Resolution {
        self.resolution
    }

    pub closed spec fn memory_spec(&self) -> Seq<u32> {
        self.pixels@
    }

    pub closed spec fn stride_spec(&self) -> usize {
        self.stride
    }

    pub closed spec fn format_spec(&self) -> HardwarePixelFormat {
        self.pixel_format
    }

    /// The visible pixels, row by row.
    pub closed spec fn screen(&self) -> Seq<Seq<Pixel>> {
        Seq::new(
            self.resolution.vertical as nat,
            |v: int|
                Seq::new(
                    self.resolution.horizontal as nat,
                    |h: int| pixel_value(self.pixels@[v * self.stride + h], self.pixel_format),
                ),
        )
    }

    /// The resolution is supported, and the screen has one row per vertical pixel, each of one
    /// pixel per horizontal pixel.
    pub proof fn lemma_screen_shape(&self)
        requires
            self.wf(),
        ensures
            self.resolution_spec().supported(),
            self.screen().len() == self.resolution_spec().vertical,
            forall|v: int|
                0 <= v < self.screen().len() ==> #[trigger] self.screen()[v].len()
                    == self.resolution_spec().horizontal,
    {
    }

    /// A pixel drawn at a position inside the resolution reads back as drawn; outside it,
    /// drawing leaves the screen as it was and reading finds nothing.
    pub proof fn lemma_draw_then_read(&self, p: PixelPosition, c: Pixel)
        requires
            self.wf(),
        ensures
            self.resolution_spec().contains(p) ==> look(paint(self.screen(), p, c), p) == Some(c),
            !self.resolution_spec().contains(p) ==> paint(self.screen(), p, c) == self.screen(),
            !self.resolution_spec().contains(p) ==> look(self.screen(), p) == None::<Pixel>,
    {
    }

    /// Takes over `pixels`, the memory of a display of `resolution` whose scanlines are
    /// `stride` pixels long. Succeeds exactly when the resolution is supported, the
    /// stride holds a visible line and the memory holds `stride` pixels per line.
    pub fn new(
        pixels: Vec<u32>,
        pixel_format: HardwarePixelFormat,
        stride: usize,
        resolution: Resolution,
    ) -> (r: Option<FrameBuffer>)
        ensures
            r is Some <==> (resolution.supported() && resolution.horizontal <= stride
                && pixels@.len() == stride * resolution.vertical),
            r matches Some(fb) ==> {
                &&& fb.wf()
                &&& fb.resolution_spec() == resolution
                &&& fb.format_spec() == pixel_format
                &&& fb.stride_spec() == stride
                &&& fb.memory_spec() == pixels@
                &&& forall|v: int, h: int|
                    0 <= v < resolution.vertical && 0 <= h < resolution.horizontal
                        ==> #[trigger] fb.screen()[v][h] == pixel_value(
                        pixels@[v * stride + h],
                        pixel_format,
                    )
            },
    {
        let len = pixels.len();
        if !resolution.is_supported() || stride < resolution.horizontal {
            return None;
        }
        match stride.checked_mul(resolution.vertical) {
            Some(n) => {
                if n != len {
                    return None;
                }
            },
            None => {
                return None;
            },
        }
        Some(FrameBuffer { pixels, pixel_format, stride, resolution })
    }

    pub fn resolution(&self) -> (r: Resolution)
        ensures
            r == self.resolution_spec(),
    {
        self.resolution
    }

    pub fn pixel_format(&self) -> (r: HardwarePixelFormat)
        ensures
            r == self.format_spec(),
    {
        self.pixel_format
    }

    /// The hardware pixel memory, `stride` words per scanline.
    pub fn memory(&self) -> (r: &Vec<u32>)
        ensures
            r@ == self.memory_spec(),
    {
        &self.pixels
    }

    pub fn stride(&self) -> (r: usize)
        ensures
            r == self.stride_spec(),
    {
        self.stride
    }

    pub fn get_pixel_if_visible(&self, position: PixelPosition) -> (r: Option<Pixel>)
        requires
            self.wf(),
        ensures
            r == look(self.screen(), position),
    {
        if !self.resolution.accepts_position(position) {
            return None;
        }
        proof {
            lemma_offset_in_bounds(
                self.stride as int,
                position.vertical as int,
                position.horizontal as int,
                self.resolution.vertical as int,
            );
        }
        // The memory's length is a usize and bounds the offset, so the offset fits too.
        let _words = self.pixels.len();
        let s = self.stride;
        let offset = position.vertical * s + position.horizontal;
        Some(HardwarePixel(self.pixels[offset]).into_pixel(self.pixel_format))
    }

    pub fn draw_pixel_if_visible(&mut self, position: PixelPosition, pixel: Pixel)
        requires
            old(self).wf(),
        ensures
            final(self).wf(),
            final(self).resolution_spec() == old(self).resolution_spec(),
            final(self).format_spec() == old(self).format_spec(),
            final(self).stride_spec() == old(self).stride_spec(),
            final(self).screen() == paint(old(self).screen(), position, pixel),
            old(self).resolution_spec().contains(position) ==> final(self).memory_spec()
                == old(self).memory_spec().update(
                word_index(
                    old(self).stride_spec() as int,
                    position.vertical as int,
                    position.horizontal as int,
                ),
                hardware_value(pixel, old(self).format_spec()),
            ),
            !old(self).resolution_spec().contains(position) ==> final(self).memory_spec()
                == old(self).memory_spec(),
    {
        if !self.resolution.accepts_position(position) {
            return;
        }
        self.draw_pixel_unchecked(position, pixel);
    }

    /// Stores the word `value` at the visible position `position`.
    fn store(&mut self, position: PixelPosition, value: u32)
        requires
            old(self).wf(),
            old(self).resolution.contains(position),
        ensures
            final(self).wf(),
            final(self).resolution == old(self).resolution,
            final(self).pixel_format == old(self).pixel_format,
            final(self).stride == old(self).stride,
            final(self).pixels@ == old(self).pixels@.update(
                word_index(old(self).stride as int, position.vertical as int, position.horizontal as int),
                value,
            ),
            final(self).screen() == paint(
                old(self).screen(),
                position,
                pixel_value(value, old(self).pixel_format),
            ),
    {
        let ghost before = self.screen();
        let s = self.stride;
        proof {
            lemma_offset_in_bounds(
                s as int,
                position.vertical as int,
                position.horizontal as int,
                self.resolution.vertical as int,
            );
        }
        // The memory's length is a usize and bounds the offset, so the offset fits too.
        let _words = self.pixels.len();
        let offset = position.vertical * s + position.horizontal;
        self.pixels.set(offset, value);
        let ghost painted = paint(before, position, pixel_value(value, self.pixel_format));
        assert forall|v: int, h: int|
            0 <= v < self.resolution.vertical && 0 <= h
                < self.resolution.horizontal implies #[trigger] self.screen()[v][h]
            == painted[v][h] by {
            lemma_offset_in_bounds(s as int, v, h, self.resolution.vertical as int);
            if v * s + h == offset {
                lemma_offset_injective(
                    s as int,
                    v,
                    h,
                    position.vertical as int,
                    position.horizontal as int,
                );
            }
        }
        assert(self.screen() =~~= painted);
    }

    fn draw_pixel_unchecked(&mut self, position: PixelPosition, pixel: Pixel)
        requires
            old(self).wf(),
            old(self).resolution.contains(position),
        ensures
            final(self).wf(),
            final(self).resolution == old(self).resolution,
            final(self).pixel_format == old(self).pixel_format,
            final(self).stride == old(self).stride,
            final(self).pixels@ == old(self).pixels@.update(
                word_index(old(self).stride as int, position.vertical as int, position.horizontal as int),
                hardware_value(pixel, old(self).pixel_format),
            ),
            final(self).screen() == paint(old(self).screen(), position, pixel),
    {
        let hardware_pixel = HardwarePixel::new(pixel, self.pixel_format);
        proof {
            lemma_hardware_round_trip(pixel, self.pixel_format);
        }
        self.store(position, hardware_pixel.0);
    }

    /// Copies the stored word at `src` to `dest`, both visible, without converting it.
    pub fn copy_one_pixel(&mut self, dest: PixelPosition, src: PixelPosition)
        requires
            old(self).wf(),
            old(self).resolution_spec().contains(dest),
            old(self).resolution_spec().contains(src),
        ensures
            final(self).wf(),
            final(self).resolution_spec() == old(self).resolution_spec(),
            final(self).format_spec() == old(self).format_spec(),
            final(self).stride_spec() == old(self).stride_spec(),
            final(self).memory_spec() == old(self).memory_spec().update(
                word_index(old(self).stride_spec() as int, dest.vertical as int, dest.horizontal as int),
                old(self).memory_spec()[word_index(
                    old(self).stride_spec() as int,
                    src.vertical as int,
                    src.horizontal as int,
                )],
            ),
            final(self).screen() == paint(
                old(self).screen(),
                dest,
                old(self).screen()[src.vertical as int][src.horizontal as int],
            ),
    {
        proof {
            lemma_offset_in_bounds(
                self.stride as int,
                src.vertical as int,
                src.horizontal as int,
                self.resolution.vertical as int,
            );
        }
        // The memory's length is a usize and bounds the offset, so the offset fits too.
        let _words = self.pixels.len();
        let value = self.pixels[src.vertical * self.stride + src.horizontal];
        self.store(dest, value);
    }

    pub fn blacken(&mut self)
        requires
            old(self).wf(),
        ensures
            final(self).wf(),
            final(self).resolution_spec() == old(self).resolution_spec(),
            final(self).format_spec() == old(self).format_spec(),
            final(self).screen() == solid(
                old(self).resolution_spec().vertical as nat,
                old(self).resolution_spec().horizontal as nat,
                Pixel { red: 0, green: 0, blue: 0 },
            ),
            final(self).stride_spec() == old(self).stride_spec(),
            final(self).memory_spec().len() == old(self).memory_spec().len(),
            forall|v: int, h: int|
                0 <= v < old(self).resolution_spec().vertical && 0 <= h
                    < old(self).resolution_spec().horizontal ==> final(self).memory_spec()[#[trigger] word_index(
                    old(self).stride_spec() as int,
                    v,
                    h,
                )] == hardware_value(Pixel { red: 0, green: 0, blue: 0 }, old(self).format_spec()),
            forall|v: int, h: int|
                0 <= v < old(self).resolution_spec().vertical && old(self).resolution_spec().horizontal
                    <= h < old(self).stride_spec() ==> final(self).memory_spec()[#[trigger] word_index(
                    old(self).stride_spec() as int,
                    v,
                    h,
                )] == old(self).memory_spec()[word_index(old(self).stride_spec() as int, v, h)],
    {
        self.fill(Pixel::black());
    }

    /// Paints every visible pixel with `pixel`.
    pub fn fill(&mut self, pixel: Pixel)
        requires
            old(self).wf(),
        ensures
            final(self).wf(),
            final(self).resolution_spec() == old(self).resolution_spec(),
            final(self).format_spec() == old(self).format_spec(),
            final(self).screen() == solid(
                old(self).resolution_spec().vertical as nat,
                old(self).resolution_spec().horizontal as nat,
                pixel,
            ),
            final(self).stride_spec() == old(self).stride_spec(),
            final(self).memory_spec().len() == old(self).memory_spec().len(),
            forall|v: int, h: int|
                0 <= v < old(self).resolution_spec().vertical && 0 <= h
                    < old(self).resolution_spec().horizontal ==> final(self).memory_spec()[#[trigger] word_index(
                    old(self).stride_spec() as int,
                    v,
                    h,
                )] == hardware_value(pixel, old(self).format_spec()),
            forall|v: int, h: int|
                0 <= v < old(self).resolution_spec().vertical && old(self).resolution_spec().horizontal
                    <= h < old(self).stride_spec() ==> final(self).memory_spec()[#[trigger] word_index(
                    old(self).stride_spec() as int,
                    v,
                    h,
                )] == old(self).memory_spec()[word_index(old(self).stride_spec() as int, v, h)],
    {
        let ghost res = self.resolution;
        let ghost fmt = self.pixel_format;
        let ghost s = self.stride as int;
        let ghost m0 = self.pixels@;
        let ghost word = hardware_value(pixel, fmt);
        proof {
            lemma_word_index_facts(s, res.vertical as int);
        }
        let mut vertical: usize = 0;
        while vertical < self.resolution.vertical
            invariant
                self.wf(),
                self.resolution == res,
                self.pixel_format == fmt,
                self.stride == s,
                m0.len() == s * res.vertical,
                word == hardware_value(pixel, fmt),
                0 <= vertical <= res.vertical,
                forall|v: int, h: int|
                    0 <= v < vertical && 0 <= h < res.horizontal ==> self.pixels@[#[trigger] word_index(
                        s,
                        v,
                        h,
                    )] == word,
                forall|v: int, h: int|
                    0 <= v < res.vertical && res.horizontal <= h < s ==> self.pixels@[#[trigger] word_index(
                        s,
                        v,
                        h,
                    )] == m0[word_index(s, v, h)],
                forall|v: int, h: int|
                    0 <= v < vertical && 0 <= h < res.horizontal ==> #[trigger] self.screen()[v][h]
                        == pixel,
            decreases res.vertical - vertical,
        {
            let mut horizontal: usize = 0;
            while horizontal < self.resolution.horizontal
                invariant
                    self.wf(),
                    self.resolution == res,
                    self.pixel_format == fmt,
                    self.stride == s,
                    m0.len() == s * res.vertical,
                    word == hardware_value(pixel, fmt),
                    0 <= vertical < res.vertical,
                    0 <= horizontal <= res.horizontal,
                    forall|v: int, h: int|
                        0 <= v < vertical && 0 <= h < res.horizontal ==> self.pixels@[#[trigger] word_index(
                            s,
                            v,
                            h,
                        )] == word,
                    forall|h: int|
                        0 <= h < horizontal ==> self.pixels@[#[trigger] word_index(s, vertical as int, h)]
                            == word,
                    forall|v: int, h: int|
                        0 <= v < res.vertical && res.horizontal <= h < s ==> self.pixels@[#[trigger] word_index(
                            s,
                            v,
                            h,
                        )] == m0[word_index(s, v, h)],
                    forall|v: int, h: int|
                        0 <= v < vertical && 0 <= h < res.horizontal
                            ==> #[trigger] self.screen()[v][h] == pixel,
                    forall|h: int| 0 <= h < horizontal ==> #[trigger] self.screen()[vertical as int][h] == pixel,
                decreases res.horizontal - horizontal,
            {
                let ghost before = self.pixels@;
                self.draw_pixel_unchecked(PixelPosition { horizontal, vertical }, pixel);
                proof {
                    lemma_word_index_facts(s, res.vertical as int);
                    let at = word_index(s, vertical as int, horizontal as int);
                    assert forall|v: int, h: int|
                        0 <= v < vertical && 0 <= h < res.horizontal implies self.pixels@[#[trigger] word_index(
                            s,
                            v,
                            h,
                        )] == word by {
                        assert(word_index(s, v, h) != at);
                        assert(before[word_index(s, v, h)] == word);
                    }
                    assert forall|h: int| 0 <= h <= horizontal implies self.pixels@[#[trigger] word_index(
                        s,
                        vertical as int,
                        h,
                    )] == word by {
                        if h < horizontal {
                            assert(word_index(s, vertical as int, h) != at);
                            assert(before[word_index(s, vertical as int, h)] == word);
                        }
                    }
                }
                horizontal += 1;
            }
            vertical += 1;
        }
        assert(self.screen() =~~= solid(res.vertical as nat, res.horizontal as nat, pixel));
    }
}

} // verus!
