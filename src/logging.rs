//! The logging module's bring-up: the terminal's framebuffer and its color
//! theme. The framebuffer is a consumer of the rewire protocol: its buffer
//! address, physical during the init phase, is translated once the kernel's
//! own mapping is live.
use crate::interface::{FramebufferInfo, ModuleInterface};
use crate::paging::AddressTranslation;
use vstd::prelude::*;

verus! {

/// Pixels between the screen border and the text.
pub const BORDER_PADDING: usize = 1;

/// Pixels between two lines of text.
pub const LINE_SPACING: usize = 2;

/// Relies on noto_sans_mono_bitmap::get_raster_width: the crate's table gives
/// 9 pixels for the regular weight at raster height 16.
#[verifier::external_body]
fn regular_raster_width() -> (r: usize)
    ensures
        r == 9,
{
    noto_sans_mono_bitmap::get_raster_width(
        noto_sans_mono_bitmap::FontWeight::Regular,
        noto_sans_mono_bitmap::RasterHeight::Size16,
    )
}

/// Relies on noto_sans_mono_bitmap::RasterHeight::val: `Size16` is declared
/// with the value 16.
#[verifier::external_body]
fn raster_height() -> (r: usize)
    ensures
        r == 16,
{
    noto_sans_mono_bitmap::RasterHeight::Size16.val()
}

/// The red, green and blue bytes of a `0xRRGGBB` color.
pub open spec fn spec_split_color(color: u32) -> (u8, u8, u8) {
    (((color >> 16u32) & 0xff) as u8, ((color >> 8u32) & 0xff) as u8, (color & 0xff) as u8)
}

/// Splits a `0xRRGGBB` color into its red, green and blue bytes.
pub fn split_color(color: u32) -> (r: (u8, u8, u8))
    ensures
        r == spec_split_color(color),
{
    (((color >> 16u32) & 0xff) as u8, ((color >> 8u32) & 0xff) as u8, (color & 0xff) as u8)
}

/// The default foreground color.
pub const DEFAULT_FG: u32 = 0xCCCCCC;

/// The default background color.
pub const DEFAULT_BG: u32 = 0x0C0C0C;

/// The normal color selected by the last digit of an ANSI color sequence.
pub open spec fn spec_color_code(c: char) -> u32 {
    match c {
        '0' => 0x0C0C0C,
        '1' => 0xC50F1E,
        '2' => 0x13A10E,
        '3' => 0xC19A00,
        '4' => 0x0037DA,
        '5' => 0x891798,
        '6' => 0x3A96DD,
        '7' => 0xCCCCCC,
        _ => DEFAULT_BG,
    }
}

/// The bright color selected by the last digit of an ANSI color sequence.
pub open spec fn spec_bright_color_code(c: char) -> u32 {
    match c {
        '0' => 0x767676,
        '1' => 0xE74855,
        '2' => 0x15C60C,
        '3' => 0xF9F1A5,
        '4' => 0x3B79FF,
        '5' => 0xB4009F,
        '6' => 0x61D6D6,
        '7' => 0xF2F2F2,
        _ => DEFAULT_FG,
    }
}

/// The default foreground color as bytes.
pub fn default_fg_color() -> (r: (u8, u8, u8))
    ensures
        r == spec_split_color(DEFAULT_FG),
{
    split_color(DEFAULT_FG)
}

/// The default background color as bytes.
pub fn default_bg_color() -> (r: (u8, u8, u8))
    ensures
        r == spec_split_color(DEFAULT_BG),
{
    split_color(DEFAULT_BG)
}

/// Gets a normal color from the last digit of its ANSI sequence; any other
/// character gives the default background.
pub fn get_color(c: char) -> (r: (u8, u8, u8))
    ensures
        r == spec_split_color(spec_color_code(c)),
{
    let code: u32 = match c {
        '0' => 0x0C0C0C,
        '1' => 0xC50F1E,
        '2' => 0x13A10E,
        '3' => 0xC19A00,
        '4' => 0x0037DA,
        '5' => 0x891798,
        '6' => 0x3A96DD,
        '7' => 0xCCCCCC,
        _ => DEFAULT_BG,
    };
    split_color(code)
}

/// Gets a bright color from the last digit of its ANSI sequence; any other
/// character gives the default foreground.
pub fn get_bright_color(c: char) -> (r: (u8, u8, u8))
    ensures
        r == spec_split_color(spec_bright_color_code(c)),
{
    let code: u32 = match c {
        '0' => 0x767676,
        '1' => 0xE74855,
        '2' => 0x15C60C,
        '3' => 0xF9F1A5,
        '4' => 0x3B79FF,
        '5' => 0xB4009F,
        '6' => 0x61D6D6,
        '7' => 0xF2F2F2,
        _ => DEFAULT_FG,
    };
    split_color(code)
}

/// The severity of a log record.
#[derive(Clone, Copy, Debug, PartialEq, Eq, Structural)]
pub enum LogLevel {
    Error,
    Warn,
    Info,
    Debug,
    Trace,
}

/// The colored, five-column label printed in front of a record of `level`.
pub fn level_label(level: LogLevel) -> (r: &'static str)
    ensures
        r@ == match level {
            LogLevel::Error => "\x1B[91mERROR\x1B[39m"@,
            LogLevel::Warn => "\x1B[93m WARN\x1B[39m"@,
            LogLevel::Info => "\x1B[92m INFO\x1B[39m"@,
            LogLevel::Debug => "\x1B[94mDEBUG\x1B[39m"@,
            LogLevel::Trace => "\x1B[95mTRACE\x1B[39m"@,
        },
{
    match level {
        LogLevel::Error => "\x1B[91mERROR\x1B[39m",
        LogLevel::Warn => "\x1B[93m WARN\x1B[39m",
        LogLevel::Info => "\x1B[92m INFO\x1B[39m",
        LogLevel::Debug => "\x1B[94mDEBUG\x1B[39m",
        LogLevel::Trace => "\x1B[95mTRACE\x1B[39m",
    }
}

/// The product of two 64-bit values fits in 128 bits with room for a sum.
proof fn lemma_product_fits(a: u64, b: u64)
    ensures
        a as int * b as int <= 0xffff_ffff_ffff_fffe_0000_0000_0000_0001,
{
    assert(a as int * b as int <= 0xffff_ffff_ffff_ffff * 0xffff_ffff_ffff_ffff) by (nonlinear_arith)
        requires
            a <= 0xffff_ffff_ffff_ffff,
            b <= 0xffff_ffff_ffff_ffff,
            0 <= a,
            0 <= b,
    ;
}

/// A memory-mapped framebuffer of 32-bit pixels.
#[derive(Clone, Copy, Debug, PartialEq, Eq, Structural)]
pub struct Framebuffer {
    buffer: u64,
    size: usize,
    red_shift: u8,
    green_shift: u8,
    blue_shift: u8,
    width: usize,
    pitch: usize,
}

impl Framebuffer {
    /// The address of the first pixel.
    pub closed spec fn spec_buffer(&self) -> u64 {
        self.buffer
    }

    /// Size in bytes.
    pub closed spec fn spec_size(&self) -> usize {
        self.size
    }

    /// Width in pixels.
    pub closed spec fn spec_width(&self) -> usize {
        self.width
    }

    /// Bytes per row.
    pub closed spec fn spec_pitch(&self) -> usize {
        self.pitch
    }

    /// The component shifts, red, green and blue.
    pub closed spec fn spec_shifts(&self) -> (u8, u8, u8) {
        (self.red_shift, self.green_shift, self.blue_shift)
    }

    /// The pixel value of a color.
    pub open spec fn spec_encode(&self, rgb: (u8, u8, u8)) -> u32 {
        ((rgb.0 as u32) << self.spec_shifts().0) | ((rgb.1 as u32) << self.spec_shifts().1) | ((
        rgb.2 as u32) << self.spec_shifts().2)
    }

    /// Creates a framebuffer description.
    pub fn new(
        buffer: u64,
        size: usize,
        red_shift: u8,
        green_shift: u8,
        blue_shift: u8,
        width: usize,
        pitch: usize,
    ) -> (r: Framebuffer)
        ensures
            r.spec_buffer() == buffer,
            r.spec_size() == size,
            r.spec_shifts() == (red_shift, green_shift, blue_shift),
            r.spec_width() == width,
            r.spec_pitch() == pitch,
    {
        Framebuffer { buffer, size, red_shift, green_shift, blue_shift, width, pitch }
    }

    /// The address of the first pixel.
    pub fn buffer(&self) -> (r: u64)
        ensures
            r == self.spec_buffer(),
    {
        self.buffer
    }

    /// Size in bytes.
    pub fn size(&self) -> (r: usize)
        ensures
            r == self.spec_size(),
    {
        self.size
    }

    /// Moves the buffer address to its alias under `translation`, once the
    /// kernel's own mapping is authoritative.
    pub fn rewire(&mut self, translation: AddressTranslation)
        ensures
            final(self).spec_buffer() == translation.spec_translate(old(self).spec_buffer()),
            final(self).spec_size() == old(self).spec_size(),
            final(self).spec_shifts() == old(self).spec_shifts(),
            final(self).spec_width() == old(self).spec_width(),
            final(self).spec_pitch() == old(self).spec_pitch(),
    {
        self.buffer = translation.translate(self.buffer);
    }

    /// Encodes a red, green and blue color into one pixel value.
    pub fn encode_color(&self, rgb: (u8, u8, u8)) -> (r: u32)
        requires
            self.spec_shifts().0 < 32,
            self.spec_shifts().1 < 32,
            self.spec_shifts().2 < 32,
        ensures
            r == self.spec_encode(rgb),
    {
        ((rgb.0 as u32) << self.red_shift) | ((rgb.1 as u32) << self.green_shift) | ((rgb.2 as u32)
            << self.blue_shift)
    }

    /// The byte offset of pixel `(x, y)`, if it lies inside the buffer.
    pub fn pixel_offset(&self, x: usize, y: usize) -> (r: Option<usize>)
        ensures
            (y as int * self.spec_pitch() + x as int * 4 < self.spec_size()) <==> r is Some,
            r matches Some(o) ==> o as int == y as int * self.spec_pitch() + x as int * 4,
    {
        proof {
            lemma_product_fits(y as u64, self.pitch as u64);
        }
        let row: u128 = (y as u128) * (self.pitch as u128);
        if row >= self.size as u128 {
            return None;
        }
        let offset: u128 = row + (x as u128) * 4;
        if offset < self.size as u128 {
            Some(offset as usize)
        } else {
            None
        }
    }
}

/// A framebuffer that the terminal can use: an address, room for the border,
/// shifts that fit a pixel, and a size that covers every row.
pub open spec fn framebuffer_usable(info: FramebufferInfo) -> bool {
    &&& info.address != 0
    &&& info.width >= 2
    &&& info.height >= 2
    &&& info.width <= usize::MAX
    &&& info.height <= usize::MAX
    &&& info.pitch <= usize::MAX
    &&& info.height * info.pitch <= info.size
    &&& info.red_mask_shift < 32
    &&& info.green_mask_shift < 32
    &&& info.blue_mask_shift < 32
}

/// A write-only terminal drawn into a framebuffer.
pub struct TerminalOutput {
    framebuffer: Option<Framebuffer>,
    columns: usize,
    lines: usize,
}

impl TerminalOutput {
    /// The framebuffer, once one is set.
    pub closed spec fn spec_framebuffer(&self) -> Option<Framebuffer> {
        self.framebuffer
    }

    /// Characters per line.
    pub closed spec fn spec_columns(&self) -> usize {
        self.columns
    }

    /// Lines of text on the screen.
    pub closed spec fn spec_lines(&self) -> usize {
        self.lines
    }

    /// A terminal without a framebuffer.
    pub fn new() -> (r: TerminalOutput)
        ensures
            r.spec_framebuffer() is None,
            r.spec_columns() == 0,
            r.spec_lines() == 0,
    {
        TerminalOutput { framebuffer: None, columns: 0, lines: 0 }
    }

    /// The framebuffer, once one is set.
    pub fn framebuffer(&self) -> (r: Option<Framebuffer>)
        ensures
            r == self.spec_framebuffer(),
    {
        self.framebuffer
    }

    /// Characters per line.
    pub fn columns(&self) -> (r: usize)
        ensures
            r == self.spec_columns(),
    {
        self.columns
    }

    /// Lines of text on the screen.
    pub fn lines(&self) -> (r: usize)
        ensures
            r == self.spec_lines(),
    {
        self.lines
    }

    /// Sets up the terminal on a framebuffer, once: a later call, or a
    /// framebuffer it cannot use, leaves the terminal as it is.
    pub fn init(&mut self, info: &FramebufferInfo)
        ensures
            old(self).spec_framebuffer() is Some || !framebuffer_usable(*info) ==> *final(self) == *old(
                self,
            ),
            old(self).spec_framebuffer() is None && framebuffer_usable(*info) ==> {
                &&& final(self).spec_framebuffer() matches Some(fb)
                &&& fb.spec_buffer() == info.address
                &&& fb.spec_size() == info.height * info.pitch
                &&& fb.spec_shifts() == (info.red_mask_shift, info.green_mask_shift, info.blue_mask_shift)
                &&& fb.spec_width() == info.width
                &&& fb.spec_pitch() == info.pitch
                &&& final(self).spec_columns() == (info.width - 2) / 9
                &&& final(self).spec_lines() == (info.height - 2) / 18
            },
    {
        if self.framebuffer.is_some() {
            return;
        }
        if !(info.address != 0 && info.width >= 2 && info.height >= 2 && info.width <= usize::MAX as u64
            && info.height <= usize::MAX as u64 && info.pitch <= usize::MAX as u64 && info.red_mask_shift < 32 && info.green_mask_shift < 32
            && info.blue_mask_shift < 32) {
            return;
        }
        proof {
            lemma_product_fits(info.height, info.pitch);
        }
        let rows_bytes = (info.height as u128) * (info.pitch as u128);
        if rows_bytes > info.size as u128 {
            return;
        }
        let fb = Framebuffer::new(
            info.address,
            rows_bytes as usize,
            info.red_mask_shift,
            info.green_mask_shift,
            info.blue_mask_shift,
            info.width as usize,
            info.pitch as usize,
        );
        self.framebuffer = Some(fb);
        let glyph_width = regular_raster_width();
        let line_height = raster_height() + LINE_SPACING;
        self.columns = (info.width as usize - BORDER_PADDING * 2) / glyph_width;
        self.lines = (info.height as usize - BORDER_PADDING * 2) / line_height;
    }

    /// Moves the framebuffer, if there is one, to its alias under
    /// `translation`; without a framebuffer nothing changes.
    pub fn rewire(&mut self, translation: AddressTranslation)
        ensures
            old(self).spec_framebuffer() is None ==> *final(self) == *old(self),
            old(self).spec_framebuffer() matches Some(fb) ==> {
                &&& final(self).spec_framebuffer() matches Some(nfb)
                &&& nfb.spec_buffer() == translation.spec_translate(fb.spec_buffer())
                &&& nfb.spec_size() == fb.spec_size()
                &&& nfb.spec_shifts() == fb.spec_shifts()
                &&& nfb.spec_width() == fb.spec_width()
                &&& nfb.spec_pitch() == fb.spec_pitch()
                &&& final(self).spec_columns() == old(self).spec_columns()
                &&& final(self).spec_lines() == old(self).spec_lines()
            },
    {
        if let Some(fb) = &mut self.framebuffer {
            fb.rewire(translation);
        }
    }
}

/// Init-phase constructor of the logging module: sets up the terminal when
/// the boot contract provides a framebuffer.
pub fn init(terminal: &mut TerminalOutput, interface: &ModuleInterface)
    ensures
        interface.framebuffer_info.address == 0 ==> *final(terminal) == *old(terminal),
        interface.framebuffer_info.address != 0 && old(terminal).spec_framebuffer() is None
            && framebuffer_usable(interface.framebuffer_info) ==> (final(terminal).spec_framebuffer()
            matches Some(fb) && fb.spec_buffer() == interface.framebuffer_info.address),
{
    if interface.framebuffer_info.address != 0 {
        terminal.init(&interface.framebuffer_info);
    }
}

/// Rewire-phase constructor of the logging module: recomputes the terminal's
/// framebuffer address through the kernel's direct map. Without a framebuffer
/// nothing is recomputed.
pub fn rewire(terminal: &mut TerminalOutput, translation: AddressTranslation)
    ensures
        old(terminal).spec_framebuffer() is None ==> *final(terminal) == *old(terminal),
        old(terminal).spec_framebuffer() matches Some(fb) ==> (final(terminal).spec_framebuffer() matches Some(
            nfb,
        ) && nfb.spec_buffer() == translation.spec_translate(fb.spec_buffer())),
{
    terminal.rewire(translation);
}

} // verus!
