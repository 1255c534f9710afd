//! The bitmap font: one 8 by 8 glyph for each printable ASCII character.
use vstd::prelude::*;

verus! {

/// Width of a glyph cell, in pixels.
pub const CHAR_WIDTH: usize = 8;

/// Height of a glyph cell, in pixels.
pub const CHAR_HEIGHT: usize = 8;

/// The first printable character, the space.
pub const FIRST_PRINTABLE_CHAR: u8 = 0x20;

/// The last printable character, the tilde.
pub const LAST_PRINTABLE_CHAR: u8 = 0x7e;

/// Whether a glyph pixel takes the foreground or the background color.
#[derive(Clone, Copy, Debug, PartialEq, Eq, Structural)]
pub enum CharBit {
    Foreground,
    Background,
}

/// Whether `byte` is a printable ASCII character.
pub open spec fn is_printable(byte: u8) -> bool {
    FIRST_PRINTABLE_CHAR <= byte <= LAST_PRINTABLE_CHAR
}

/// The glyph of printable character number `index` (counted from the space): byte `k`
/// is row `k` from the top, bit `j` of a row is column `j` from the left.
pub open spec fn glyph_rows(index: u8) -> u64 {
    match index {
        0 => 0x0000000000000000u64,
        1 => 0x00180018183c3c18u64,
        2 => 0x0000000000003636u64,
        3 => 0x0036367f367f3636u64,
        4 => 0x000c1f301e033e0cu64,
        5 => 0x0063660c18336300u64,
        6 => 0x006e333b6e1c361cu64,
        7 => 0x0000000000030606u64,
        8 => 0x00180c0606060c18u64,
        9 => 0x00060c1818180c06u64,
        10 => 0x0000663cff3c6600u64,
        11 => 0x00000c0c3f0c0c00u64,
        12 => 0x060c0c0000000000u64,
        13 => 0x000000003f000000u64,
        14 => 0x000c0c0000000000u64,
        15 => 0x000103060c183060u64,
        16 => 0x003e676f7b73633eu64,
        17 => 0x003f0c0c0c0c0e0cu64,
        18 => 0x003f33061c30331eu64,
        19 => 0x001e33301c30331eu64,
        20 => 0x0078307f33363c38u64,
        21 => 0x001e3330301f033fu64,
        22 => 0x001e33331f03061cu64,
        23 => 0x000c0c0c1830333fu64,
        24 => 0x001e33331e33331eu64,
        25 => 0x000e18303e33331eu64,
        26 => 0x000c0c00000c0c00u64,
        27 => 0x060c0c00000c0c00u64,
        28 => 0x00180c0603060c18u64,
        29 => 0x00003f00003f0000u64,
        30 => 0x00060c1830180c06u64,
        31 => 0x000c000c1830331eu64,
        32 => 0x001e037b7b7b633eu64,
        33 => 0x0033333f33331e0cu64,
        34 => 0x003f66663e66663fu64,
        35 => 0x003c66030303663cu64,
        36 => 0x001f36666666361fu64,
        37 => 0x007f46161e16467fu64,
        38 => 0x000f06161e16467fu64,
        39 => 0x007c66730303663cu64,
        40 => 0x003333333f333333u64,
        41 => 0x001e0c0c0c0c0c1eu64,
        42 => 0x001e333330303078u64,
        43 => 0x006766361e366667u64,
        44 => 0x007f66460606060fu64,
        45 => 0x0063636b7f7f7763u64,
        46 => 0x006363737b6f6763u64,
        47 => 0x001c36636363361cu64,
        48 => 0x000f06063e66663fu64,
        49 => 0x00381e3b3333331eu64,
        50 => 0x006766363e66663fu64,
        51 => 0x001e33380e07331eu64,
        52 => 0x001e0c0c0c0c2d3fu64,
        53 => 0x003f333333333333u64,
        54 => 0x000c1e3333333333u64,
        55 => 0x0063777f6b636363u64,
        56 => 0x0063361c1c366363u64,
        57 => 0x001e0c0c1e333333u64,
        58 => 0x007f664c1831637fu64,
        59 => 0x001e06060606061eu64,
        60 => 0x00406030180c0603u64,
        61 => 0x001e18181818181eu64,
        62 => 0x0000000063361c08u64,
        63 => 0xff00000000000000u64,
        64 => 0x0000000000180c0cu64,
        65 => 0x006e333e301e0000u64,
        66 => 0x003b66663e060607u64,
        67 => 0x001e3303331e0000u64,
        68 => 0x006e33333e303038u64,
        69 => 0x001e033f331e0000u64,
        70 => 0x000f06060f06361cu64,
        71 => 0x1f303e33336e0000u64,
        72 => 0x006766666e360607u64,
        73 => 0x001e0c0c0c0e000cu64,
        74 => 0x1e33333030300030u64,
        75 => 0x0067361e36660607u64,
        76 => 0x001e0c0c0c0c0c0eu64,
        77 => 0x00636b7f7f330000u64,
        78 => 0x00333333331f0000u64,
        79 => 0x001e3333331e0000u64,
        80 => 0x0f063e66663b0000u64,
        81 => 0x78303e33336e0000u64,
        82 => 0x000f06666e3b0000u64,
        83 => 0x001f301e033e0000u64,
        84 => 0x00182c0c0c3e0c08u64,
        85 => 0x006e333333330000u64,
        86 => 0x000c1e3333330000u64,
        87 => 0x00367f7f6b630000u64,
        88 => 0x0063361c36630000u64,
        89 => 0x1f303e3333330000u64,
        90 => 0x003f260c193f0000u64,
        91 => 0x00380c0c070c0c38u64,
        92 => 0x0018181800181818u64,
        93 => 0x00070c0c380c0c07u64,
        94 => 0x0000000000003b6eu64,
        _ => 0u64,
    }
}

/// The bit of the glyph of `code` at `row` from the top and `column` from the left.
pub open spec fn glyph_bit(code: u8, row: int, column: int) -> CharBit {
    if (glyph_rows((code - FIRST_PRINTABLE_CHAR) as u8) >> ((8 * row + column) as u64)) & 1u64 == 1u64 {
        CharBit::Foreground
    } else {
        CharBit::Background
    }
}

/// The glyph of printable character number `index`, as `glyph_rows` gives it.
pub fn glyph(index: usize) -> (r: u64)
    requires
        index <= (LAST_PRINTABLE_CHAR - FIRST_PRINTABLE_CHAR) as usize,
    ensures
        r == glyph_rows(index as u8),
{
    match index {
        0 => 0x0000000000000000u64,
        1 => 0x00180018183c3c18u64,
        2 => 0x0000000000003636u64,
        3 => 0x0036367f367f3636u64,
        4 => 0x000c1f301e033e0cu64,
        5 => 0x0063660c18336300u64,
        6 => 0x006e333b6e1c361cu64,
        7 => 0x0000000000030606u64,
        8 => 0x00180c0606060c18u64,
        9 => 0x00060c1818180c06u64,
        10 => 0x0000663cff3c6600u64,
        11 => 0x00000c0c3f0c0c00u64,
        12 => 0x060c0c0000000000u64,
        13 => 0x000000003f000000u64,
        14 => 0x000c0c0000000000u64,
        15 => 0x000103060c183060u64,
        16 => 0x003e676f7b73633eu64,
        17 => 0x003f0c0c0c0c0e0cu64,
        18 => 0x003f33061c30331eu64,
        19 => 0x001e33301c30331eu64,
        20 => 0x0078307f33363c38u64,
        21 => 0x001e3330301f033fu64,
        22 => 0x001e33331f03061cu64,
        23 => 0x000c0c0c1830333fu64,
        24 => 0x001e33331e33331eu64,
        25 => 0x000e18303e33331eu64,
        26 => 0x000c0c00000c0c00u64,
        27 => 0x060c0c00000c0c00u64,
        28 => 0x00180c0603060c18u64,
        29 => 0x00003f00003f0000u64,
        30 => 0x00060c1830180c06u64,
        31 => 0x000c000c1830331eu64,
        32 => 0x001e037b7b7b633eu64,
        33 => 0x0033333f33331e0cu64,
        34 => 0x003f66663e66663fu64,
        35 => 0x003c66030303663cu64,
        36 => 0x001f36666666361fu64,
        37 => 0x007f46161e16467fu64,
        38 => 0x000f06161e16467fu64,
        39 => 0x007c66730303663cu64,
        40 => 0x003333333f333333u64,
        41 => 0x001e0c0c0c0c0c1eu64,
        42 => 0x001e333330303078u64,
        43 => 0x006766361e366667u64,
        44 => 0x007f66460606060fu64,
        45 => 0x0063636b7f7f7763u64,
        46 => 0x006363737b6f6763u64,
        47 => 0x001c36636363361cu64,
        48 => 0x000f06063e66663fu64,
        49 => 0x00381e3b3333331eu64,
        50 => 0x006766363e66663fu64,
        51 => 0x001e33380e07331eu64,
        52 => 0x001e0c0c0c0c2d3fu64,
        53 => 0x003f333333333333u64,
        54 => 0x000c1e3333333333u64,
        55 => 0x0063777f6b636363u64,
        56 => 0x0063361c1c366363u64,
        57 => 0x001e0c0c1e333333u64,
        58 => 0x007f664c1831637fu64,
        59 => 0x001e06060606061eu64,
        60 => 0x00406030180c0603u64,
        61 => 0x001e18181818181eu64,
        62 => 0x0000000063361c08u64,
        63 => 0xff00000000000000u64,
        64 => 0x0000000000180c0cu64,
        65 => 0x006e333e301e0000u64,
        66 => 0x003b66663e060607u64,
        67 => 0x001e3303331e0000u64,
        68 => 0x006e33333e303038u64,
        69 => 0x001e033f331e0000u64,
        70 => 0x000f06060f06361cu64,
        71 => 0x1f303e33336e0000u64,
        72 => 0x006766666e360607u64,
        73 => 0x001e0c0c0c0e000cu64,
        74 => 0x1e33333030300030u64,
        75 => 0x0067361e36660607u64,
        76 => 0x001e0c0c0c0c0c0eu64,
        77 => 0x00636b7f7f330000u64,
        78 => 0x00333333331f0000u64,
        79 => 0x001e3333331e0000u64,
        80 => 0x0f063e66663b0000u64,
        81 => 0x78303e33336e0000u64,
        82 => 0x000f06666e3b0000u64,
        83 => 0x001f301e033e0000u64,
        84 => 0x00182c0c0c3e0c08u64,
        85 => 0x006e333333330000u64,
        86 => 0x000c1e3333330000u64,
        87 => 0x00367f7f6b630000u64,
        88 => 0x0063361c36630000u64,
        89 => 0x1f303e3333330000u64,
        90 => 0x003f260c193f0000u64,
        91 => 0x00380c0c070c0c38u64,
        92 => 0x0018181800181818u64,
        93 => 0x00070c0c380c0c07u64,
        94 => 0x0000000000003b6eu64,
        _ => 0u64,
    }
}

/// The bit at `row` and `column` of the glyph whose rows are `rows`.
pub fn bit_of_glyph(rows: u64, row: usize, column: usize) -> (r: CharBit)
    requires
        row < CHAR_HEIGHT,
        column < CHAR_WIDTH,
    ensures
        r == (if (rows >> ((8 * row + column) as u64)) & 1u64 == 1u64 {
            CharBit::Foreground
        } else {
            CharBit::Background
        }),
{
    let shift = (8 * row + column) as u64;
    if (rows >> shift) & 1u64 == 1u64 {
        CharBit::Foreground
    } else {
        CharBit::Background
    }
}

/// A printable ASCII character, from the space to the tilde.
#[derive(Clone, Copy, Debug, PartialEq, Eq, Structural)]
pub struct PrintableChar(u8);

impl PrintableChar {
    #[verifier::type_invariant]
    spec fn inv(self) -> bool {
        is_printable(self.0)
    }

    pub closed spec fn code_spec(self) -> u8 {
        self.0
    }

    /// The character `byte`, where it is printable.
    pub fn try_from(byte: u8) -> (r: Result<PrintableChar, ()>)
        ensures
            r is Ok <==> is_printable(byte),
            r matches Ok(c) ==> c.code_spec() == byte,
    {
        if FIRST_PRINTABLE_CHAR <= byte && byte <= LAST_PRINTABLE_CHAR {
            Ok(PrintableChar(byte))
        } else {
            Err(())
        }
    }

    pub fn space() -> (r: PrintableChar)
        ensures
            r.code_spec() == 0x20,
    {
        PrintableChar(0x20)
    }

    pub fn code(&self) -> (r: u8)
        ensures
            r == self.code_spec(),
    {
        self.0
    }

    /// The position of the character's glyph in the font.
    pub fn get_index_from_first_printable_char(&self) -> (r: usize)
        ensures
            r == self.code_spec() - FIRST_PRINTABLE_CHAR,
            r <= (LAST_PRINTABLE_CHAR - FIRST_PRINTABLE_CHAR) as usize,
    {
        proof {
            use_type_invariant(self);
        }
        (self.0 - FIRST_PRINTABLE_CHAR) as usize
    }
}

} // verus!
