//! The frame buffer device: ten control registers behind the bus and a pixel
//! buffer of fixed resolution, 32 bits per pixel in the order alpha, red,
//! green, blue.

use rand::Rng;
use vstd::prelude::*;

use crate::mmio::AddressSpace;
use crate::word::byte_of;
use crate::word::from_bytes;
use crate::word::lemma_word_round_trip;
use crate::word::to_bytes;
use crate::word::word_of;

verus! {

/// Pixels per row.
pub const SCREEN_WIDTH: usize = 1280;

/// Rows.
pub const SCREEN_HEIGHT: usize = 720;

/// Pixels in the frame buffer.
pub const PIXEL_COUNT: usize = 921600;

/// The number of control registers.
pub const REGISTER_COUNT: u32 = 10;

/// The first offset behind the register window. A write at or behind it is
/// rejected.
pub const REGISTER_WINDOW: u32 = 0x10;

/// The register that holds the index of the pixel to write.
pub const REG_INDEX: usize = 0;

/// The register that holds the pixel to write.
pub const REG_PIXEL: usize = 1;

/// The register that enables pixel writes. While it is zero the device shows
/// its test pattern.
pub const REG_ENABLE: usize = 2;

/// The side of the grey ramp in the corner of the test pattern.
pub const RAMP_SIDE: usize = 255;

/// Calls `rand::rng().random()` for a word. Trusted; the word is random, so
/// nothing is promised of it.
#[verifier::external_body]
fn random_word() -> u32 {
    rand::rng().random()
}

/// How the device interprets its buffer.
#[derive(Clone, Copy, Debug, PartialEq, Eq, Structural)]
pub enum GpuGraphicsMode {
    Text,
    Full,
}

/// Why an update of the device failed.
#[derive(Clone, Copy, Debug, PartialEq, Eq, Structural)]
pub enum GpuError {
    Error,
}

/// A colour with its opacity.
pub struct Color {
    a: u8,
    r: u8,
    g: u8,
    b: u8,
}

impl View for Color {
    type V = (u8, u8, u8, u8);

    /// The channels in the order alpha, red, green, blue.
    closed spec fn view(&self) -> (u8, u8, u8, u8) {
        (self.a, self.r, self.g, self.b)
    }
}

/// The pixel word of a colour: alpha in the most significant byte, then red,
/// green and blue.
pub open spec fn argb_word(channels: (u8, u8, u8, u8)) -> u32 {
    word_of(channels.3, channels.2, channels.1, channels.0)
}

impl Color {
    /// The colour of a pixel word.
    pub fn from_u32(color: u32) -> (c: Color)
        ensures
            c@ == (byte_of(color, 3), byte_of(color, 2), byte_of(color, 1), byte_of(color, 0)),
            argb_word(c@) == color,
    {
        proof {
            lemma_word_round_trip(color, 0, 0, 0, 0);
        }
        let bytes = to_bytes(color);
        Color { a: bytes[3], r: bytes[2], g: bytes[1], b: bytes[0] }
    }

    /// The colour with the given channels.
    pub fn from_argb(a: u8, r: u8, g: u8, b: u8) -> (c: Color)
        ensures
            c@ == (a, r, g, b),
    {
        Color { a, r, g, b }
    }

    /// The pixel word of this colour.
    pub fn to_argb_u32(&self) -> (word: u32)
        ensures
            word == argb_word(self@),
    {
        from_bytes(self.b, self.g, self.r, self.a)
    }
}

/// A position on a screen.
pub struct Coordinates {
    x: usize,
    y: usize,
}

impl View for Coordinates {
    type V = (usize, usize);

    /// The column and the row.
    closed spec fn view(&self) -> (usize, usize) {
        (self.x, self.y)
    }
}

impl Coordinates {
    /// The position of pixel `idx` on a screen `res_width` pixels wide, rows
    /// counted from the top.
    pub fn from_index(idx: usize, res_width: usize, res_height: usize) -> (at: Coordinates)
        requires
            res_width > 0,
        ensures
            at@ == ((idx % res_width) as usize, (idx / res_width) as usize),
    {
        Coordinates { x: idx % res_width, y: idx / res_width }
    }

    /// The column.
    pub fn x(&self) -> (x: usize)
        ensures
            x == self@.0,
    {
        self.x
    }

    /// The row.
    pub fn y(&self) -> (y: usize)
        ensures
            y == self@.1,
    {
        self.y
    }
}

/// Splits a character word: the character in the most significant byte, then
/// red, green and blue of an opaque colour.
pub fn decode_char_u32(char_word: u32) -> (decoded: (char, Color))
    ensures
        decoded.0 as u32 == byte_of(char_word, 3),
        decoded.1@ == (255u8, byte_of(char_word, 2), byte_of(char_word, 1), byte_of(char_word, 0)),
{
    let bytes = to_bytes(char_word);
    (bytes[3] as char, Color::from_argb(255, bytes[2], bytes[1], bytes[0]))
}

/// Splits a pixel word in the order red, green, blue, alpha, most significant
/// byte first.
pub fn decode_rgba_u32(char_word: u32) -> (color: Color)
    ensures
        color@ == (
            byte_of(char_word, 0),
            byte_of(char_word, 3),
            byte_of(char_word, 2),
            byte_of(char_word, 1),
        ),
{
    let bytes = to_bytes(char_word);
    Color::from_argb(bytes[0], bytes[3], bytes[2], bytes[1])
}

/// The pixel of the grey ramp in column `x`: opaque, with `x` in each colour
/// channel.
pub open spec fn ramp_pixel(x: int) -> u32 {
    argb_word((255u8, x as u8, x as u8, x as u8))
}

/// The frame buffer device.
#[derive(Debug)]
pub struct GPU {
    pub mode: GpuGraphicsMode,
    pub frame_buffer: Vec<u32>,
    pub registers: [u32; 10],
    pub map_base: u32,
}

/// The model of the device.
pub struct GpuView {
    pub mode: GpuGraphicsMode,
    pub frame_buffer: Seq<u32>,
    pub registers: Seq<u32>,
    pub map_base: u32,
}

impl View for GPU {
    type V = GpuView;

    open spec fn view(&self) -> GpuView {
        GpuView {
            mode: self.mode,
            frame_buffer: self.frame_buffer@,
            registers: self.registers@,
            map_base: self.map_base,
        }
    }
}

impl GpuView {
    /// Whether the frame buffer has its full resolution.
    pub open spec fn wf(self) -> bool {
        self.frame_buffer.len() == PIXEL_COUNT && self.registers.len() == REGISTER_COUNT
    }

    /// Whether pixel writes are enabled and the index register points outside
    /// the frame buffer.
    pub open spec fn index_out_of_range(self) -> bool {
        self.registers[REG_ENABLE as int] != 0 && self.registers[REG_INDEX as int]
            >= self.frame_buffer.len()
    }

    /// Whether `next` shows the test pattern over this state: the grey ramp
    /// in the top left corner, and nothing changed but pixels.
    pub open spec fn shows_pattern(self, next: GpuView) -> bool {
        &&& next.wf()
        &&& next.mode == self.mode
        &&& next.registers == self.registers
        &&& next.map_base == self.map_base
        &&& forall|x: int, y: int|
            0 <= x < RAMP_SIDE && 0 <= y < RAMP_SIDE ==> #[trigger] next.frame_buffer[y
                * SCREEN_WIDTH + x] == ramp_pixel(x)
    }

    /// The state after an update with pixel writes enabled: the pixel register
    /// is stored at the index that the index register holds.
    pub open spec fn with_pixel_written(self) -> GpuView {
        GpuView {
            frame_buffer: self.frame_buffer.update(
                self.registers[REG_INDEX as int] as int,
                self.registers[REG_PIXEL as int],
            ),
            ..self
        }
    }

    /// The state after `value` was stored in the register at `offset`.
    /// Offsets at or behind the register window are rejected, and those
    /// inside it that no register backs are reserved: a write to either
    /// changes nothing.
    pub open spec fn with_register(self, offset: u32, value: u32) -> GpuView {
        if offset < REGISTER_COUNT {
            GpuView { registers: self.registers.update(offset as int, value), ..self }
        } else {
            self
        }
    }
}

impl GPU {
    /// Whether the frame buffer has its full resolution.
    pub open spec fn wf(&self) -> bool {
        self@.wf()
    }

    /// A device in full graphics mode with cleared registers and a black,
    /// transparent frame buffer.
    pub fn init(map_base: u32) -> (gpu: GPU)
        ensures
            gpu.wf(),
            gpu@ == (GpuView {
                mode: GpuGraphicsMode::Full,
                frame_buffer: Seq::new(PIXEL_COUNT as nat, |i: int| 0u32),
                registers: Seq::new(REGISTER_COUNT as nat, |i: int| 0u32),
                map_base,
            }),
    {
        let gpu = GPU {
            mode: GpuGraphicsMode::Full,
            frame_buffer: vec![0u32; PIXEL_COUNT],
            registers: [0u32; 10],
            map_base,
        };
        assert(gpu@.frame_buffer =~= Seq::new(PIXEL_COUNT as nat, |i: int| 0u32));
        assert(gpu@.registers =~= Seq::new(REGISTER_COUNT as nat, |i: int| 0u32));
        gpu
    }

    /// Whether pixel writes are disabled, so that an update shows the test
    /// pattern.
    pub fn shows_test_pattern(&self) -> (disabled: bool)
        ensures
            disabled == (self@.registers[REG_ENABLE as int] == 0),
    {
        self.registers[REG_ENABLE] == 0
    }

    /// Stores a pixel at column `pos_x` of row `pos_y`.
    pub fn blit_pixel(&mut self, pos_x: usize, pos_y: usize, color: Color)
        requires
            old(self).wf(),
            pos_y * SCREEN_WIDTH + pos_x < PIXEL_COUNT,
        ensures
            final(self)@ == (GpuView {
                frame_buffer: old(self)@.frame_buffer.update(
                    pos_y * SCREEN_WIDTH + pos_x,
                    argb_word(color@),
                ),
                ..old(self)@
            }),
    {
        self.frame_buffer[pos_y * SCREEN_WIDTH + pos_x] = color.to_argb_u32();
    }

    /// Draws nothing: the device has no glyphs.
    pub fn draw_letter(&mut self, char: char, pos_x: u32, pos_y: u32)
        ensures
            final(self)@ == old(self)@,
    {
    }

    /// Takes note of the outcome of an update. The device keeps no record, so
    /// nothing changes.
    pub fn handle_errors(&self, error: Result<(), GpuError>) {
    }

    /// Paints the test pattern: noise over the whole buffer, then a grey ramp
    /// in the top left corner.
    pub fn show_life(&mut self)
        requires
            old(self).wf(),
        ensures
            old(self)@.shows_pattern(final(self)@),
    {
        let mut i: usize = 0;
        while i < PIXEL_COUNT
            invariant
                self.wf(),
                self.mode == old(self).mode,
                self.registers == old(self).registers,
                self.map_base == old(self).map_base,
            decreases PIXEL_COUNT - i,
        {
            self.frame_buffer[i] = Color::from_u32(random_word()).to_argb_u32();
            i = i + 1;
        }
        let mut y: usize = 0;
        while y < RAMP_SIDE
            invariant
                y <= RAMP_SIDE,
                self.wf(),
                self.mode == old(self).mode,
                self.registers == old(self).registers,
                self.map_base == old(self).map_base,
                forall|px: int, py: int|
                    0 <= px < RAMP_SIDE && 0 <= py < y ==> #[trigger] self.frame_buffer@[py
                        * SCREEN_WIDTH + px] == ramp_pixel(px),
            decreases RAMP_SIDE - y,
        {
            let mut x: usize = 0;
            while x < RAMP_SIDE
                invariant
                    x <= RAMP_SIDE,
                    y < RAMP_SIDE,
                    self.wf(),
                    self.mode == old(self).mode,
                    self.registers == old(self).registers,
                    self.map_base == old(self).map_base,
                    forall|px: int, py: int|
                        0 <= px < RAMP_SIDE && 0 <= py < y ==> #[trigger] self.frame_buffer@[py
                            * SCREEN_WIDTH + px] == ramp_pixel(px),
                    forall|px: int|
                        0 <= px < x ==> #[trigger] self.frame_buffer@[y * SCREEN_WIDTH + px]
                            == ramp_pixel(px),
                decreases RAMP_SIDE - x,
            {
                self.blit_pixel(x, y, Color::from_argb(255, x as u8, x as u8, x as u8));
                x = x + 1;
            }
            y = y + 1;
        }
    }

    /// Renders one frame: the test pattern while pixel writes are disabled,
    /// else the pixel register stored at the index that the index register
    /// holds.
    pub fn render(&mut self)
        requires
            old(self).wf(),
            !old(self)@.index_out_of_range(),
        ensures
            old(self).registers[REG_ENABLE as int] == 0 ==> old(self)@.shows_pattern(final(self)@),
            old(self).registers[REG_ENABLE as int] != 0 ==> final(self)@
                == old(self)@.with_pixel_written(),
    {
        if self.shows_test_pattern() {
            self.show_life();
        } else {
            self.frame_buffer[self.registers[REG_INDEX] as usize] = self.registers[REG_PIXEL];
        }
    }

    /// Renders one frame, unless pixel writes are enabled and the index
    /// register points outside the frame buffer: then nothing changes and the
    /// update fails.
    pub fn update(&mut self) -> (outcome: Result<(), GpuError>)
        requires
            old(self).wf(),
        ensures
            final(self).wf(),
            outcome is Err <==> old(self)@.index_out_of_range(),
            outcome is Err ==> final(self)@ == old(self)@,
            outcome is Ok && old(self).registers[REG_ENABLE as int] == 0
                ==> old(self)@.shows_pattern(final(self)@),
            outcome is Ok && old(self).registers[REG_ENABLE as int] != 0 ==> final(self)@
                == old(self)@.with_pixel_written(),
    {
        if self.registers[REG_ENABLE] != 0 && self.registers[REG_INDEX] as usize
            >= self.frame_buffer.len() {
            return Err(GpuError::Error);
        }
        self.render();
        Ok(())
    }
}

impl AddressSpace for GPU {
    /// The device hands out no state: every read yields zero.
    open spec fn read8_spec(state: GpuView, addr: u32) -> u8 {
        0
    }

    /// A byte write sets the whole register to the byte.
    open spec fn write8_spec(state: GpuView, addr: u32, value: u8) -> GpuView {
        state.with_register(addr, value as u32)
    }

    /// A word write sets the register to the word.
    open spec fn write32_spec(state: GpuView, addr: u32, value: u32) -> GpuView {
        state.with_register(addr, value)
    }

    fn read8(&self, addr: u32) -> (byte: u8) {
        0
    }

    fn write8(&mut self, addr: u32, value: u8) {
        if addr >= REGISTER_WINDOW {
            return ;
        }
        if addr < REGISTER_COUNT {
            self.registers[addr as usize] = value as u32;
        }
    }

    fn write32(&mut self, addr: u32, value: u32) {
        if addr >= REGISTER_WINDOW {
            return ;
        }
        if addr < REGISTER_COUNT {
            self.registers[addr as usize] = value;
        }
    }
}

} // verus!
