use drawing_canvas::brush::BrushDab;
use drawing_canvas::color::srgb_to_linear;
use drawing_canvas::renderer::{
    convert_readback, half_to_byte, BlendColorSpace, ReadbackError, ReadbackLayout, Renderer,
    SurfaceSize, CANVAS_BYTES_PER_PIXEL, ROW_ALIGNMENT, VERTICES_PER_QUAD,
};

const ONE: i32 = 65536;

fn size(width: u32, height: u32) -> SurfaceSize {
    SurfaceSize { width, height }
}

fn float_conversion(bits: u16) -> u8 {
    let value = half::f16::from_bits(bits).to_f32();
    (value * 255.0).clamp(0.0, 255.0) as u8
}

fn texel(channels: [f32; 4]) -> [u8; 8] {
    let mut out = [0u8; 8];
    for (i, c) in channels.iter().enumerate() {
        let bytes = half::f16::from_f32(*c).to_le_bytes();
        out[2 * i] = bytes[0];
        out[2 * i + 1] = bytes[1];
    }
    out
}

#[test]
fn constants_of_the_canvas_format() {
    assert_eq!(VERTICES_PER_QUAD, 6);
    assert_eq!(CANVAS_BYTES_PER_PIXEL, 8);
    assert_eq!(ROW_ALIGNMENT, 256);
}

#[test]
fn new_renderer_clamps_to_the_texture_limit_and_blends_in_srgb() {
    let r = Renderer::new(size(800, 600), 8192);
    assert_eq!(r.size(), size(800, 600));
    assert_eq!(r.blend_color_space(), BlendColorSpace::Srgb);
    assert_eq!(r.blend_mode(), 1);
    let r = Renderer::new(size(10000, 600), 8192);
    assert_eq!(r.size(), size(8192, 600));
    let r = Renderer::new(size(10000, 9000), 8192);
    assert_eq!(r.size(), size(8192, 8192));
}

#[test]
fn resize_to_a_zero_side_is_ignored() {
    let mut r = Renderer::new(size(800, 600), 8192);
    assert_eq!(r.resize(size(0, 600)), None);
    assert_eq!(r.resize(size(800, 0)), None);
    assert_eq!(r.resize(size(0, 0)), None);
    assert_eq!(r.size(), size(800, 600));
}

#[test]
fn resize_clamps_each_axis() {
    let mut r = Renderer::new(size(800, 600), 1024);
    assert_eq!(r.resize(size(1, 5000)), Some(size(1, 1024)));
    assert_eq!(r.size(), size(1, 1024));
    assert_eq!(r.resize(size(1024, 1024)), Some(size(1024, 1024)));
    assert_eq!(r.resize(size(1025, 3)), Some(size(1024, 3)));
}

#[test]
fn surface_is_valid_when_it_has_a_size_and_a_texture() {
    let r = Renderer::new(size(800, 600), 8192);
    assert!(r.is_valid_surface(true));
    assert!(!r.is_valid_surface(false));
    assert!(r.render(true));
    assert!(!r.render(false));
    let r = Renderer::new(size(0, 600), 8192);
    assert!(!r.is_valid_surface(true));
    assert!(!r.render(true));
    let r = Renderer::new(size(800, 600), 0);
    assert!(!r.render(true));
}

#[test]
fn switching_the_blend_policy_changes_nothing_else() {
    let mut r = Renderer::new(size(10000, 600), 8192);
    assert_eq!(r.set_blend_color_space(BlendColorSpace::Srgb), None);
    assert_eq!(r.set_blend_color_space(BlendColorSpace::Linear), Some(0));
    assert_eq!(r.blend_color_space(), BlendColorSpace::Linear);
    assert_eq!(r.blend_mode(), 0);
    assert_eq!(r.size(), size(8192, 600));
    assert_eq!(r.set_blend_color_space(BlendColorSpace::Linear), None);
    assert_eq!(r.set_blend_color_space(BlendColorSpace::Srgb), Some(1));
    assert_eq!(r.blend_color_space(), BlendColorSpace::Srgb);
    assert_eq!(r.size(), size(8192, 600));
}

#[test]
fn clear_colour_follows_the_blend_policy() {
    let mut r = Renderer::new(size(8, 8), 8192);
    let authored = [ONE / 2, ONE / 4, ONE, ONE / 3];
    assert_eq!(r.clear_canvas(&authored), authored);
    r.set_blend_color_space(BlendColorSpace::Linear);
    assert_eq!(
        r.clear_canvas(&authored),
        [srgb_to_linear(ONE / 2), srgb_to_linear(ONE / 4), ONE, ONE / 3]
    );
}

#[test]
fn dabs_become_instances_in_order() {
    let mut r = Renderer::new(size(8, 8), 8192);
    let dabs: Vec<BrushDab> = (0..5)
        .map(|i| BrushDab {
            position: [i, 2 * i],
            size: 100 + i,
            opacity: 200 + i,
            color: [ONE / 2, i, ONE, 77],
            hardness: 300 + i,
        })
        .collect();
    assert!(r.render_dabs(&[]).is_empty());
    let instances = r.render_dabs(&dabs);
    assert_eq!(instances.len(), 5);
    for (i, inst) in instances.iter().enumerate() {
        let i = i as i32;
        assert_eq!(inst.position, [i, 2 * i]);
        assert_eq!(inst.size, 100 + i);
        assert_eq!(inst.opacity, 200 + i);
        assert_eq!(inst.hardness, 300 + i);
        assert_eq!(inst.color, [ONE / 2, i, ONE, 77]);
    }
    r.set_blend_color_space(BlendColorSpace::Linear);
    let instances = r.render_dabs(&dabs);
    for (i, inst) in instances.iter().enumerate() {
        assert_eq!(inst.color, [srgb_to_linear(ONE / 2), srgb_to_linear(i as i32), ONE, 77]);
        assert_eq!(inst.position, dabs[i].position);
    }
}

#[test]
fn readback_rows_are_padded_to_the_alignment() {
    let r = Renderer::new(size(1, 1), 8192);
    assert_eq!(
        r.readback_layout(),
        Ok(ReadbackLayout { width: 1, height: 1, bytes_per_row: 256, buffer_size: 256 })
    );
    let r = Renderer::new(size(32, 3), 8192);
    assert_eq!(
        r.readback_layout(),
        Ok(ReadbackLayout { width: 32, height: 3, bytes_per_row: 256, buffer_size: 768 })
    );
    let r = Renderer::new(size(33, 3), 8192);
    assert_eq!(
        r.readback_layout(),
        Ok(ReadbackLayout { width: 33, height: 3, bytes_per_row: 512, buffer_size: 1536 })
    );
    let r = Renderer::new(size(800, 600), 8192);
    assert_eq!(
        r.readback_layout(),
        Ok(ReadbackLayout { width: 800, height: 600, bytes_per_row: 6400, buffer_size: 3840000 })
    );
    let r = Renderer::new(size(0, 0), 8192);
    assert_eq!(
        r.readback_layout(),
        Ok(ReadbackLayout { width: 0, height: 0, bytes_per_row: 0, buffer_size: 0 })
    );
}

#[test]
fn readback_of_a_row_too_wide_is_refused() {
    // the widest row whose padded size fits 32 bits
    let r = Renderer::new(size(536870880, 2), u32::MAX);
    assert_eq!(
        r.readback_layout(),
        Ok(ReadbackLayout {
            width: 536870880,
            height: 2,
            bytes_per_row: 4294967040,
            buffer_size: 8589934080
        })
    );
    let r = Renderer::new(size(536870881, 2), u32::MAX);
    assert_eq!(r.readback_layout(), Err(ReadbackError::InvalidPadding));
    assert_eq!(r.read_canvas_rgba8(&[]), Err(ReadbackError::InvalidPadding));
    let r = Renderer::new(size(u32::MAX, u32::MAX), u32::MAX);
    assert_eq!(r.readback_layout(), Err(ReadbackError::InvalidPadding));
}

#[test]
fn half_conversion_agrees_with_the_float_pipeline_on_every_pattern() {
    for bits in 0..=u16::MAX {
        let bytes = bits.to_le_bytes();
        assert_eq!(half_to_byte(bytes[0], bytes[1]), float_conversion(bits), "pattern {bits:#06x}");
    }
}

#[test]
fn half_conversion_of_landmarks() {
    // 0.0, 1.0, 0.5, 2.0, -1.0, infinity, NaN, smallest subnormal
    assert_eq!(half_to_byte(0x00, 0x00), 0);
    assert_eq!(half_to_byte(0x00, 0x3c), 255);
    assert_eq!(half_to_byte(0x00, 0x38), 127);
    assert_eq!(half_to_byte(0x00, 0x40), 255);
    assert_eq!(half_to_byte(0x00, 0xbc), 0);
    assert_eq!(half_to_byte(0x00, 0x7c), 255);
    assert_eq!(half_to_byte(0x00, 0xfc), 0);
    assert_eq!(half_to_byte(0x01, 0x7c), 0);
    assert_eq!(half_to_byte(0x00, 0x7e), 0);
    assert_eq!(half_to_byte(0x01, 0x00), 0);
    // just below one
    assert_eq!(half_to_byte(0xff, 0x3b), 254);
    // byte order matters
    assert_ne!(half_to_byte(0x3c, 0x00), half_to_byte(0x00, 0x3c));
}

#[test]
fn readback_skips_the_row_padding() {
    let r = Renderer::new(size(2, 2), 8192);
    let layout = r.readback_layout().unwrap();
    let mut mapped = vec![0xffu8; layout.buffer_size as usize];
    let pixels = [
        [0.0f32, 0.25, 0.5, 1.0],
        [1.0, 0.0, 0.0, 0.5],
        [0.75, 0.75, 0.75, 0.75],
        [2.0, -1.0, 0.1, 0.9],
    ];
    for y in 0..2 {
        for x in 0..2 {
            let at = y * layout.bytes_per_row as usize + x * 8;
            mapped[at..at + 8].copy_from_slice(&texel(pixels[y * 2 + x]));
        }
    }
    let out = r.read_canvas_rgba8(&mapped).unwrap();
    assert_eq!(out.len(), 16);
    assert_eq!(&out[0..4], &[0, 63, 127, 255]);
    assert_eq!(&out[4..8], &[255, 0, 0, 127]);
    assert_eq!(&out[8..12], &[191, 191, 191, 191]);
    assert_eq!(&out[12..16], &[255, 0, 25, 229]);
    assert_eq!(out, convert_readback(&mapped, layout));
}

#[test]
fn channels_beyond_the_mapped_range_read_as_zero() {
    let r = Renderer::new(size(2, 2), 8192);
    let layout = r.readback_layout().unwrap();
    // first row complete, second row cut in the middle of a channel
    let mut mapped = vec![0u8; layout.bytes_per_row as usize + 3];
    mapped[0..8].copy_from_slice(&texel([1.0; 4]));
    mapped[8..16].copy_from_slice(&texel([1.0; 4]));
    let at = layout.bytes_per_row as usize;
    mapped[at] = 0x00;
    mapped[at + 1] = 0x3c;
    mapped[at + 2] = 0x00;
    let out = r.read_canvas_rgba8(&mapped).unwrap();
    assert_eq!(out.len(), 16);
    assert_eq!(&out[0..8], &[255; 8]);
    assert_eq!(&out[8..16], &[255, 0, 0, 0, 0, 0, 0, 0]);
    assert_eq!(r.read_canvas_rgba8(&[]).unwrap(), vec![0u8; 16]);
}

#[test]
fn cleared_canvas_reads_back_uniform() {
    let mut r = Renderer::new(size(40, 7), 8192);
    let authored = [ONE / 2, ONE / 4, ONE, ONE];
    for space in [BlendColorSpace::Srgb, BlendColorSpace::Linear] {
        r.set_blend_color_space(space);
        let fill = r.clear_canvas(&authored);
        // the device stores the fill colour in half precision in every pixel
        let stored = texel([
            fill[0] as f32 / 65536.0,
            fill[1] as f32 / 65536.0,
            fill[2] as f32 / 65536.0,
            fill[3] as f32 / 65536.0,
        ]);
        let layout = r.readback_layout().unwrap();
        let mut mapped = vec![0u8; layout.buffer_size as usize];
        for y in 0..7usize {
            for x in 0..40usize {
                let at = y * layout.bytes_per_row as usize + x * 8;
                mapped[at..at + 8].copy_from_slice(&stored);
            }
        }
        let out = r.read_canvas_rgba8(&mapped).unwrap();
        assert_eq!(out.len(), 40 * 7 * 4);
        let expected: Vec<u8> = (0..4).map(|c| half_to_byte(stored[2 * c], stored[2 * c + 1])).collect();
        for pixel in out.chunks(4) {
            assert_eq!(pixel, &expected[..]);
        }
        for c in 0..4 {
            let want = (fill[c] as f64 / 65536.0 * 255.0).floor();
            assert!((expected[c] as f64 - want).abs() <= 1.0);
        }
    }
}

#[test]
fn empty_canvas_reads_back_empty() {
    let r = Renderer::new(size(0, 5), 8192);
    assert_eq!(r.read_canvas_rgba8(&[1, 2, 3]).unwrap(), Vec::<u8>::new());
    let r = Renderer::new(size(5, 0), 8192);
    assert_eq!(r.read_canvas_rgba8(&[1, 2, 3]).unwrap(), Vec::<u8>::new());
}

#[test]
fn surface_with_an_empty_side_is_not_configured() {
    assert_eq!(Renderer::new(size(800, 600), 8192).surface_to_configure(), Some(size(800, 600)));
    assert_eq!(Renderer::new(size(9000, 600), 8192).surface_to_configure(), Some(size(8192, 600)));
    assert_eq!(Renderer::new(size(0, 600), 8192).surface_to_configure(), None);
    assert_eq!(Renderer::new(size(800, 0), 8192).surface_to_configure(), None);
    assert_eq!(Renderer::new(size(800, 600), 0).surface_to_configure(), None);
    let mut r = Renderer::new(size(0, 0), 8192);
    assert_eq!(r.surface_to_configure(), None);
    r.resize(size(10, 20));
    assert_eq!(r.surface_to_configure(), Some(size(10, 20)));
}
