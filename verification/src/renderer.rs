//! The compositor's decisions.
//!
//! The compositor keeps a persistent canvas in a half-precision linear
//! format and blits it to the display surface once per frame. This module
//! holds everything about it that can be decided without touching the
//! graphics device: the size of the canvas, the colour space in which dabs
//! and clear colours reach it, whether a frame may be presented, and the
//! conversion of a canvas read-back to 8-bit RGBA. The caller executes the
//! passes that these functions describe.
use crate::brush::BrushDab;
use crate::color::{srgb_to_linear_rgba, srgb_to_linear_value};
use vstd::prelude::*;

verus! {

/// The colour space in which brush strokes are blended.
#[derive(Debug, Clone, Copy, PartialEq, Eq, Structural)]
pub enum BlendColorSpace {
    /// Blend in linear light (physically correct).
    Linear,
    /// Blend the gamma-encoded values directly.
    Srgb,
}

/// A size in physical pixels.
#[derive(Debug, Clone, Copy, PartialEq, Eq, Structural)]
pub struct SurfaceSize {
    pub width: u32,
    pub height: u32,
}

/// Per-instance vertex data of one dab, in canvas colour space.
#[derive(Debug, Clone, Copy)]
pub struct DabInstance {
    pub position: [i32; 2],
    pub size: i32,
    pub opacity: i32,
    pub color: [i32; 4],
    pub hardness: i32,
}

/// Vertices drawn per dab, and for the full-screen blit: two triangles.
pub const VERTICES_PER_QUAD: u32 = 6;

/// Bytes per canvas pixel: four half-precision channels.
pub const CANVAS_BYTES_PER_PIXEL: u64 = 8;

/// Row alignment, in bytes, of a buffer that receives a texture copy.
pub const ROW_ALIGNMENT: u64 = 256;

/// What a [`Renderer`] knows.
pub struct RendererState {
    /// Size of the configured surface and of the canvas: the size that the
    /// window last asked for, limited per axis to the largest texture
    /// dimension.
    pub surface: SurfaceSize,
    /// Largest texture dimension that the device supports.
    pub max_texture_dimension: u32,
    /// Current blend policy.
    pub blend_color_space: BlendColorSpace,
}

/// Why a canvas read-back is refused.
#[derive(Debug, Clone, Copy, PartialEq, Eq, Structural)]
pub enum ReadbackError {
    /// A padded row of the canvas does not fit the 32-bit row pitch of a
    /// texture copy.
    InvalidPadding,
}

/// Layout of the buffer that receives a copy of the canvas.
#[derive(Debug, Clone, Copy, PartialEq, Eq, Structural)]
pub struct ReadbackLayout {
    /// Canvas width in pixels.
    pub width: u32,
    /// Canvas height in pixels.
    pub height: u32,
    /// Bytes per row, padded to the row alignment.
    pub bytes_per_row: u32,
    /// Size of the whole buffer in bytes.
    pub buffer_size: u64,
}

/// `size` limited per axis to `max_dimension`.
pub open spec fn clamp_to_texture_limit(size: SurfaceSize, max_dimension: u32) -> SurfaceSize {
    SurfaceSize {
        width: if size.width < max_dimension {
            size.width
        } else {
            max_dimension
        },
        height: if size.height < max_dimension {
            size.height
        } else {
            max_dimension
        },
    }
}

/// The value of the blit pass's blend-mode uniform for a blend policy.
pub open spec fn blend_mode_uniform(space: BlendColorSpace) -> u32 {
    match space {
        BlendColorSpace::Linear => 0,
        BlendColorSpace::Srgb => 1,
    }
}

/// An authored colour as it reaches the canvas under a blend policy: the
/// linear policy converts the three colour channels to linear light, the
/// sRGB policy uses the authored values as they are.
pub open spec fn canvas_color(color: [i32; 4], space: BlendColorSpace) -> [i32; 4] {
    match space {
        BlendColorSpace::Linear => [
            srgb_to_linear_value(color[0] as int) as i32,
            srgb_to_linear_value(color[1] as int) as i32,
            srgb_to_linear_value(color[2] as int) as i32,
            color[3],
        ],
        BlendColorSpace::Srgb => color,
    }
}

/// The instance data of a dab under a blend policy.
pub open spec fn dab_instance(dab: BrushDab, space: BlendColorSpace) -> DabInstance {
    DabInstance {
        position: dab.position,
        size: dab.size,
        opacity: dab.opacity,
        color: canvas_color(dab.color, space),
        hardness: dab.hardness,
    }
}

/// The width in bytes of a canvas row, rounded up to the row alignment.
pub open spec fn padded_row_bytes(width: u32) -> int {
    ((width * 8 + 255) / 256) * 256
}

/// The layout of the buffer that receives a copy of a canvas of the given
/// size: rows padded to the row alignment, one after the other.
pub open spec fn readback_layout_of(canvas: SurfaceSize) -> ReadbackLayout {
    ReadbackLayout {
        width: canvas.width,
        height: canvas.height,
        bytes_per_row: padded_row_bytes(canvas.width) as u32,
        buffer_size: (padded_row_bytes(canvas.width) * canvas.height) as u64,
    }
}

/// `x` halved `times` times, rounding down each time.
pub open spec fn halved(x: int, times: nat) -> int
    decreases times,
{
    if times == 0 {
        x
    } else {
        halved(x / 2, (times - 1) as nat)
    }
}

/// The 8-bit value of a half-precision channel with the given bit pattern:
/// the channel times 255, rounded down and limited to `[0, 255]`.
///
/// A pattern with the sign bit set (a negative number, negative zero) gives
/// 0, as does a NaN; positive infinity gives 255. A finite positive half
/// with exponent field `e` and mantissa `m` is `m * 2^-24` when `e` is zero
/// and `(1024 + m) * 2^(e - 25)` otherwise.
pub open spec fn half_byte_value(bits: int) -> int {
    let e = (bits / 1024) % 32;
    let m = bits % 1024;
    if bits >= 0x8000 {
        0
    } else if e == 31 {
        if m == 0 {
            255
        } else {
            0
        }
    } else if e >= 25 {
        255
    } else if e == 0 {
        vstd::math::min(255, halved(255 * m, 24))
    } else {
        vstd::math::min(255, halved(255 * (1024 + m), (25 - e) as nat))
    }
}

/// The byte of the 8-bit image at index `i`, read from a mapped copy of the
/// canvas. Index `i` is channel `i % 4` of pixel `i / 4` in row-major
/// order; its half-precision value lies little-endian at row times the row
/// pitch, plus eight bytes per pixel, plus two bytes per channel. A channel
/// that the mapped range does not fully hold reads as zero.
pub open spec fn readback_byte(mapped: Seq<u8>, layout: ReadbackLayout, i: int) -> int {
    let pixel = i / 4;
    let channel = i % 4;
    let y = pixel / (layout.width as int);
    let x = pixel % (layout.width as int);
    let offset = y * layout.bytes_per_row + x * 8 + channel * 2;
    if offset + 1 < mapped.len() {
        half_byte_value(mapped[offset + 1] * 256 + mapped[offset])
    } else {
        0
    }
}

/// The 8-bit RGBA image of a mapped copy of the canvas.
pub open spec fn readback_image(mapped: Seq<u8>, layout: ReadbackLayout) -> Seq<u8> {
    Seq::new(
        (layout.width * layout.height * 4) as nat,
        |i: int| readback_byte(mapped, layout, i) as u8,
    )
}

/// Halving keeps a number that is not negative from becoming negative.
pub proof fn lemma_halved_nonnegative(x: int, times: nat)
    requires
        0 <= x,
    ensures
        0 <= halved(x, times),
    decreases times,
{
    if times > 0 {
        lemma_halved_nonnegative(x / 2, (times - 1) as nat);
    }
}

/// The 8-bit value of any 16-bit pattern is a byte.
pub proof fn lemma_half_byte_range(bits: int)
    requires
        0 <= bits,
    ensures
        0 <= half_byte_value(bits) <= 255,
{
    let e = (bits / 1024) % 32;
    let m = bits % 1024;
    lemma_halved_nonnegative(255 * m, 24);
    if 0 < e < 25 {
        lemma_halved_nonnegative(255 * (1024 + m), (25 - e) as nat);
    }
}

/// The 8-bit value of the half-precision number whose little-endian bytes
/// are `low` and `high`.
pub fn half_to_byte(low: u8, high: u8) -> (byte: u8)
    ensures
        byte == half_byte_value(high * 256 + low),
{
    let bits: u32 = high as u32 * 256 + low as u32;
    if bits >= 0x8000 {
        return 0;
    }
    let exponent: u32 = bits / 1024;
    let mantissa: u32 = bits % 1024;
    if exponent == 31 {
        return if mantissa == 0 {
            255
        } else {
            0
        };
    }
    if exponent >= 25 {
        return 255;
    }
    let numerator: u32 = if exponent == 0 {
        255 * mantissa
    } else {
        255 * (1024 + mantissa)
    };
    let shift: u32 = if exponent == 0 {
        24
    } else {
        25 - exponent
    };
    let mut value: u32 = numerator;
    let mut done: u32 = 0;
    while done < shift
        invariant
            done <= shift,
            halved(value as int, (shift - done) as nat) == halved(numerator as int, shift as nat),
        decreases shift - done,
    {
        assert(halved(value as int, (shift - done) as nat) == halved(
            value as int / 2,
            (shift - done - 1) as nat,
        ));
        value = value / 2;
        done += 1;
    }
    if value > 255 {
        255
    } else {
        value as u8
    }
}

/// The part of the compositor that needs no graphics device: sizes and
/// blend policy.
pub struct Renderer {
    state: RendererState,
}

impl View for Renderer {
    type V = RendererState;

    closed spec fn view(&self) -> RendererState {
        self.state
    }
}

impl Renderer {
    /// Creates the compositor state for a surface of the requested size on
    /// a device with the given largest texture dimension. Blending starts
    /// in sRGB space.
    pub fn new(size: SurfaceSize, max_texture_dimension: u32) -> (renderer: Self)
        ensures
            renderer@ == (RendererState {
                surface: clamp_to_texture_limit(size, max_texture_dimension),
                max_texture_dimension,
                blend_color_space: BlendColorSpace::Srgb,
            }),
    {
        Renderer {
            state: RendererState {
                surface: Self::clamp_size(size, max_texture_dimension),
                max_texture_dimension,
                blend_color_space: BlendColorSpace::Srgb,
            },
        }
    }

    /// `size` limited per axis to `max_dimension`.
    fn clamp_size(size: SurfaceSize, max_dimension: u32) -> (clamped: SurfaceSize)
        ensures
            clamped == clamp_to_texture_limit(size, max_dimension),
    {
        SurfaceSize {
            width: if size.width < max_dimension {
                size.width
            } else {
                max_dimension
            },
            height: if size.height < max_dimension {
                size.height
            } else {
                max_dimension
            },
        }
    }

    /// Takes a new window size. A size with a zero side is ignored.
    /// Otherwise the result is the size to which the surface is to be
    /// reconfigured and the canvas recreated.
    pub fn resize(&mut self, new_size: SurfaceSize) -> (reconfigure: Option<SurfaceSize>)
        ensures
            new_size.width > 0 && new_size.height > 0 ==> {
                &&& reconfigure == Some(
                    clamp_to_texture_limit(new_size, old(self)@.max_texture_dimension),
                )
                &&& final(self)@ == (RendererState {
                    surface: clamp_to_texture_limit(new_size, old(self)@.max_texture_dimension),
                    ..old(self)@
                })
            },
            new_size.width == 0 || new_size.height == 0 ==> {
                &&& reconfigure.is_none()
                &&& final(self)@ == old(self)@
            },
    {
        if new_size.width > 0 && new_size.height > 0 {
            let clamped = Self::clamp_size(new_size, self.state.max_texture_dimension);
            self.state.surface = clamped;
            Some(clamped)
        } else {
            None
        }
    }

    /// The instance data with which a batch of dabs is drawn onto the
    /// canvas, one instance per dab and in the same order. An empty batch
    /// gives no instances and needs no pass.
    pub fn render_dabs(&self, dabs: &[BrushDab]) -> (instances: Vec<DabInstance>)
        ensures
            instances@.len() == dabs@.len(),
            forall|i: int|
                0 <= i < dabs@.len() ==> #[trigger] instances@[i] == dab_instance(
                    dabs@[i],
                    self@.blend_color_space,
                ),
    {
        let mut instances: Vec<DabInstance> = Vec::new();
        let mut i: usize = 0;
        while i < dabs.len()
            invariant
                i <= dabs@.len(),
                instances@.len() == i,
                forall|j: int|
                    0 <= j < i ==> #[trigger] instances@[j] == dab_instance(
                        dabs@[j],
                        self.state.blend_color_space,
                    ),
            decreases dabs@.len() - i,
        {
            let dab: BrushDab = dabs[i];
            let color: [i32; 4] = self.clear_canvas(&dab.color);
            instances.push(
                DabInstance {
                    position: dab.position,
                    size: dab.size,
                    opacity: dab.opacity,
                    color,
                    hardness: dab.hardness,
                },
            );
            i += 1;
        }
        instances
    }

    /// Whether the surface can be drawn to: it has a non-empty size and its
    /// next texture could be acquired.
    pub fn is_valid_surface(&self, texture_available: bool) -> (valid: bool)
        ensures
            valid == (self@.surface.width > 0 && self@.surface.height > 0 && texture_available),
    {
        self.state.surface.width > 0 && self.state.surface.height > 0 && texture_available
    }

    /// Whether the canvas is to be blitted to the surface and presented
    /// this frame. The frame is skipped while the surface is not valid.
    pub fn render(&self, texture_available: bool) -> (present: bool)
        ensures
            present == (self@.surface.width > 0 && self@.surface.height > 0 && texture_available),
    {
        self.is_valid_surface(texture_available)
    }

    /// The colour with which the canvas is filled when it is cleared to
    /// `clear_color`.
    pub fn clear_canvas(&self, clear_color: &[i32; 4]) -> (fill: [i32; 4])
        ensures
            fill == canvas_color(*clear_color, self@.blend_color_space),
    {
        match self.state.blend_color_space {
            BlendColorSpace::Linear => srgb_to_linear_rgba(*clear_color),
            BlendColorSpace::Srgb => *clear_color,
        }
    }

    /// The size of the canvas: what the window last asked for, limited per
    /// axis to the largest texture dimension. An exported image has this
    /// width and height.
    pub fn size(&self) -> (size: SurfaceSize)
        ensures
            size == self@.surface,
    {
        self.state.surface
    }

    /// The size with which the surface is to be configured, if it can be:
    /// a surface with an empty side is left unconfigured until a resize
    /// gives it a size.
    pub fn surface_to_configure(&self) -> (configure: Option<SurfaceSize>)
        ensures
            configure == if self@.surface.width > 0 && self@.surface.height > 0 {
                Some(self@.surface)
            } else {
                None
            },
    {
        if self.state.surface.width > 0 && self.state.surface.height > 0 {
            Some(self.state.surface)
        } else {
            None
        }
    }

    /// The current blend policy.
    pub fn blend_color_space(&self) -> (space: BlendColorSpace)
        ensures
            space == self@.blend_color_space,
    {
        self.state.blend_color_space
    }

    /// The blend-mode uniform of the current blend policy.
    pub fn blend_mode(&self) -> (mode: u32)
        ensures
            mode == blend_mode_uniform(self@.blend_color_space),
    {
        match self.state.blend_color_space {
            BlendColorSpace::Linear => 0,
            BlendColorSpace::Srgb => 1,
        }
    }

    /// Switches the blend policy. Nothing but the policy changes; when it
    /// does change, the result is the new value of the blit pass's
    /// blend-mode uniform, and when it does not, nothing is to be written.
    pub fn set_blend_color_space(&mut self, color_space: BlendColorSpace) -> (uniform: Option<
        u32,
    >)
        ensures
            final(self)@ == (RendererState { blend_color_space: color_space, ..old(self)@ }),
            old(self)@.blend_color_space == color_space ==> uniform.is_none(),
            old(self)@.blend_color_space != color_space ==> uniform == Some(
                blend_mode_uniform(color_space),
            ),
    {
        if self.state.blend_color_space == color_space {
            return None;
        }
        self.state.blend_color_space = color_space;
        Some(self.blend_mode())
    }

    /// The layout of the buffer that receives a copy of the canvas, or the
    /// refusal when a padded row would not fit the 32-bit row pitch.
    pub fn readback_layout(&self) -> (result: Result<ReadbackLayout, ReadbackError>)
        ensures
            match result {
                Ok(layout) => padded_row_bytes(self@.surface.width) <= u32::MAX && layout
                    == readback_layout_of(self@.surface),
                Err(error) => padded_row_bytes(self@.surface.width) > u32::MAX && error
                    == ReadbackError::InvalidPadding,
            },
    {
        let width: u32 = self.state.surface.width;
        let height: u32 = self.state.surface.height;
        let unpadded: u64 = width as u64 * CANVAS_BYTES_PER_PIXEL;
        let padded: u64 = ((unpadded + (ROW_ALIGNMENT - 1)) / ROW_ALIGNMENT) * ROW_ALIGNMENT;
        if padded > u32::MAX as u64 {
            return Err(ReadbackError::InvalidPadding);
        }
        assert(padded * height <= 0xffff_ffff * 0xffff_ffff) by (nonlinear_arith)
            requires
                0 <= padded <= 0xffff_ffff,
                0 <= height <= 0xffff_ffff,
        ;
        Ok(
            ReadbackLayout {
                width,
                height,
                bytes_per_row: padded as u32,
                buffer_size: padded * height as u64,
            },
        )
    }

    /// Converts a mapped copy of the canvas, laid out as `readback_layout`
    /// says, to tightly packed 8-bit RGBA.
    pub fn read_canvas_rgba8(&self, mapped: &[u8]) -> (result: Result<Vec<u8>, ReadbackError>)
        ensures
            match result {
                Ok(pixels) => padded_row_bytes(self@.surface.width) <= u32::MAX && pixels@
                    == readback_image(mapped@, readback_layout_of(self@.surface)),
                Err(error) => padded_row_bytes(self@.surface.width) > u32::MAX && error
                    == ReadbackError::InvalidPadding,
            },
    {
        match self.readback_layout() {
            Err(error) => Err(error),
            Ok(layout) => Ok(convert_readback(mapped, layout)),
        }
    }
}

/// In a row-major image, pixel `x` of row `y` has index `y * width + x`.
pub proof fn lemma_row_major(width: int, x: int, y: int)
    requires
        0 <= x < width,
        0 <= y,
    ensures
        (y * width + x) / width == y,
        (y * width + x) % width == x,
        y * width + x >= 0,
{
    vstd::arithmetic::div_mod::lemma_fundamental_div_mod_converse(y * width + x, width, y, x);
    assert(y * width >= 0) by (nonlinear_arith)
        requires
            0 <= y,
            0 < width,
    ;
}

/// Converts a mapped copy of the canvas with the given layout to tightly
/// packed 8-bit RGBA.
pub fn convert_readback(mapped: &[u8], layout: ReadbackLayout) -> (pixels: Vec<u8>)
    ensures
        pixels@ == readback_image(mapped@, layout),
{
    let mut pixels: Vec<u8> = Vec::new();
    let width: u32 = layout.width;
    let height: u32 = layout.height;
    let mut y: u32 = 0;
    while y < height
        invariant
            y <= height,
            width == layout.width,
            height == layout.height,
            pixels@.len() == y * width * 4,
            forall|i: int|
                0 <= i < pixels@.len() ==> #[trigger] pixels@[i] == readback_byte(
                    mapped@,
                    layout,
                    i,
                ),
        decreases height - y,
    {
        let mut x: u32 = 0;
        while x < width
            invariant
                x <= width,
                y < height,
                width == layout.width,
                height == layout.height,
                pixels@.len() == (y * width + x) * 4,
                forall|i: int|
                    0 <= i < pixels@.len() ==> #[trigger] pixels@[i] == readback_byte(
                        mapped@,
                        layout,
                        i,
                    ),
            decreases width - x,
        {
            proof {
                lemma_row_major(width as int, x as int, y as int);
            }
            assert(y * layout.bytes_per_row <= 0xffff_ffff * 0xffff_ffff) by (nonlinear_arith)
                requires
                    0 <= y <= 0xffff_ffff,
                    0 <= layout.bytes_per_row <= 0xffff_ffff,
            ;
            let start: u128 = y as u128 * layout.bytes_per_row as u128 + x as u128 * 8;
            let ghost base = pixels@.len() as int;
            let mut channel: u8 = 0;
            while channel < 4
                invariant
                    channel <= 4,
                    x < width,
                    width == layout.width,
                    base == (y * width + x) * 4,
                    start == y * layout.bytes_per_row + x * 8,
                    start < 0x2_0000_0000_0000_0000,
                    (y * width + x) / (width as int) == y,
                    (y * width + x) % (width as int) == x,
                    y * width + x >= 0,
                    pixels@.len() == base + channel,
                    forall|i: int|
                        0 <= i < pixels@.len() ==> #[trigger] pixels@[i] == readback_byte(
                            mapped@,
                            layout,
                            i,
                        ),
                decreases 4 - channel,
            {
                let offset: u128 = start + channel as u128 * 2;
                let byte: u8 = if offset + 1 < mapped.len() as u128 {
                    half_to_byte(mapped[offset as usize], mapped[(offset + 1) as usize])
                } else {
                    0
                };
                assert(byte == readback_byte(mapped@, layout, base + channel));
                pixels.push(byte);
                channel += 1;
            }
            x += 1;
        }
        assert((y * width + width) * 4 == (y + 1) * width * 4) by (nonlinear_arith);
        y += 1;
    }
    assert(height * width * 4 == width * height * 4) by (nonlinear_arith);
    pixels
}

/// Every half-precision channel of pixel `(x, y)` that a mapped copy fully
/// holds is converted to the byte at the pixel's place in the 8-bit image.
pub proof fn lemma_readback_pixel(
    mapped: Seq<u8>,
    layout: ReadbackLayout,
    x: int,
    y: int,
    channel: int,
)
    requires
        0 <= x < layout.width,
        0 <= y < layout.height,
        0 <= channel < 4,
    ensures
        0 <= (y * layout.width + x) * 4 + channel < readback_image(mapped, layout).len(),
        readback_image(mapped, layout)[(y * layout.width + x) * 4 + channel] == readback_byte(
            mapped,
            layout,
            (y * layout.width + x) * 4 + channel,
        ),
        y * layout.bytes_per_row + x * 8 + channel * 2 + 1 < mapped.len() ==> readback_image(
            mapped,
            layout,
        )[(y * layout.width + x) * 4 + channel] == half_byte_value(
            mapped[y * layout.bytes_per_row + x * 8 + channel * 2 + 1] * 256 + mapped[y
                * layout.bytes_per_row + x * 8 + channel * 2],
        ),
{
    let w = layout.width as int;
    let h = layout.height as int;
    lemma_row_major(w, x, y);
    assert(y * w + x < w * h) by (nonlinear_arith)
        requires
            0 <= x < w,
            0 <= y < h,
    ;
    let offset = y * layout.bytes_per_row + x * 8 + channel * 2;
    if 0 <= offset && offset + 1 < mapped.len() {
        lemma_half_byte_range(mapped[offset + 1] * 256 + mapped[offset]);
    }
    assert(y * layout.bytes_per_row >= 0) by (nonlinear_arith)
        requires
            0 <= y,
            0 <= layout.bytes_per_row,
    ;
}

/// Clearing and reading back: when every pixel of a mapped copy holds the
/// same four half-precision channels, every pixel of the 8-bit image holds
/// the same four bytes, the 8-bit values of those channels.
pub proof fn lemma_uniform_readback(mapped: Seq<u8>, layout: ReadbackLayout, texel: Seq<u8>)
    requires
        texel.len() == 8,
        layout.height * layout.bytes_per_row <= mapped.len(),
        layout.width * 8 <= layout.bytes_per_row,
        forall|x: int, y: int, k: int|
            0 <= x < layout.width && 0 <= y < layout.height && 0 <= k < 8 ==> #[trigger] mapped[y
                * layout.bytes_per_row + x * 8 + k] == texel[k],
    ensures
        readback_image(mapped, layout).len() == layout.width * layout.height * 4,
        forall|x: int, y: int, channel: int|
            0 <= x < layout.width && 0 <= y < layout.height && 0 <= channel < 4
                ==> #[trigger] readback_image(mapped, layout)[(y * layout.width + x) * 4
                + channel] == half_byte_value(texel[2 * channel + 1] * 256 + texel[2 * channel]),
{
    assert forall|x: int, y: int, channel: int|
        0 <= x < layout.width && 0 <= y < layout.height && 0 <= channel < 4 implies #[trigger] readback_image(
        mapped,
        layout,
    )[(y * layout.width + x) * 4 + channel] == half_byte_value(
        texel[2 * channel + 1] * 256 + texel[2 * channel],
    ) by {
        lemma_readback_pixel(mapped, layout, x, y, channel);
        let pitch = layout.bytes_per_row as int;
        let h = layout.height as int;
        assert((y + 1) * pitch <= h * pitch) by (nonlinear_arith)
            requires
                0 <= y < h,
                0 <= pitch,
        ;
        assert((y + 1) * pitch == y * pitch + pitch) by (nonlinear_arith);
        assert(y * pitch >= 0) by (nonlinear_arith)
            requires
                0 <= y,
                0 <= pitch,
        ;
        let offset = y * pitch + x * 8 + channel * 2;
        assert(offset + 1 < mapped.len());
        assert(mapped[y * pitch + x * 8 + (channel * 2 + 1)] == texel[channel * 2 + 1]);
        assert(mapped[y * pitch + x * 8 + (channel * 2)] == texel[channel * 2]);
    }
}

} // verus!
