use let_engine::resources::buffer::{BufferAccess, PreferOperation};
use let_engine::resources::texture::{
    AddressMode, BorderColor, DecodedImage, Filter, ImageFormat, Sampler, Texture, TextureError,
    TextureSettings, TextureSettingsBuilder, TextureSettingsBuilderError, ViewTypeDim,
};
use let_engine::resources::Format;

fn settings(format: Format, mip_levels: u32) -> TextureSettings {
    TextureSettings {
        sampler: Sampler::default(),
        mip_levels,
        format,
        access_pattern: BufferAccess::Fixed,
    }
}

#[test]
fn elements_num_counts_texels() {
    assert_eq!(ViewTypeDim::D1 { x: 7 }.elements_num(), 7);
    assert_eq!(ViewTypeDim::D2 { x: 3, y: 4 }.elements_num(), 12);
    assert_eq!(ViewTypeDim::D3 { x: 2, y: 3, z: 4 }.elements_num(), 24);
    assert_eq!(ViewTypeDim::CubeMap { x: 2, y: 2 }.elements_num(), 24);
    assert_eq!(ViewTypeDim::D1Array { x: 5, layers: 3 }.elements_num(), 15);
    assert_eq!(ViewTypeDim::D2Array { x: 2, y: 3, layers: 4 }.elements_num(), 24);
    assert_eq!(ViewTypeDim::CubeArray { x: 2, y: 2, layers: 2 }.elements_num(), 48);
}

#[test]
fn elements_num_is_extent_times_layers_times_faces() {
    let dims = [
        ViewTypeDim::D1 { x: 9 },
        ViewTypeDim::D2 { x: 3, y: 5 },
        ViewTypeDim::D3 { x: 2, y: 3, z: 7 },
        ViewTypeDim::CubeMap { x: 4, y: 4 },
        ViewTypeDim::D1Array { x: 6, layers: 2 },
        ViewTypeDim::D2Array { x: 3, y: 3, layers: 5 },
        ViewTypeDim::CubeArray { x: 8, y: 2, layers: 3 },
    ];
    for d in dims {
        let e = d.extent();
        let faces = match d {
            ViewTypeDim::CubeMap { .. } | ViewTypeDim::CubeArray { .. } => 6,
            _ => 1,
        };
        let expected = e[0] as u64 * e[1] as u64 * e[2] as u64 * d.array_layers() as u64 * faces;
        assert_eq!(d.elements_num(), expected, "{d:?}");
    }
}

#[test]
fn extent_and_layers() {
    assert_eq!(ViewTypeDim::D1Array { x: 5, layers: 3 }.extent(), [5, 1, 1]);
    assert_eq!(ViewTypeDim::CubeArray { x: 2, y: 3, layers: 4 }.extent(), [2, 3, 1]);
    assert_eq!(ViewTypeDim::D3 { x: 2, y: 3, z: 4 }.extent(), [2, 3, 4]);
    assert_eq!(ViewTypeDim::D2 { x: 2, y: 3 }.array_layers(), 1);
    assert_eq!(ViewTypeDim::D2Array { x: 2, y: 3, layers: 9 }.array_layers(), 9);
}

#[test]
fn max_mip_level_is_log2_of_largest_side_plus_one() {
    assert_eq!(ViewTypeDim::D1 { x: 1 }.max_mip_level(), 1);
    assert_eq!(ViewTypeDim::D2 { x: 256, y: 16 }.max_mip_level(), 9);
    assert_eq!(ViewTypeDim::D2 { x: 255, y: 16 }.max_mip_level(), 8);
    assert_eq!(ViewTypeDim::D3 { x: 2, y: 3, z: 1024 }.max_mip_level(), 11);
    assert_eq!(ViewTypeDim::D1 { x: u32::MAX }.max_mip_level(), 32);
}

#[test]
fn full_mip_chain_ends_at_one_texel() {
    let d = ViewTypeDim::D2 { x: 100, y: 37 };
    let levels = d.max_mip_level();
    let mut largest = 100u32;
    for _ in 1..levels {
        assert!(largest >= 2);
        largest /= 2;
    }
    assert_eq!(largest, 1);
}

#[test]
fn view_type_conversions() {
    assert_eq!(ViewTypeDim::from(4u32), ViewTypeDim::D1 { x: 4 });
    assert_eq!(ViewTypeDim::from((4u32, 5u32)), ViewTypeDim::D2 { x: 4, y: 5 });
    assert_eq!(ViewTypeDim::from((4u32, 5u32, 6u32)), ViewTypeDim::D3 { x: 4, y: 5, z: 6 });
    let e: [u32; 3] = ViewTypeDim::D2Array { x: 2, y: 3, layers: 4 }.into();
    assert_eq!(e, [2, 3, 1]);
}

#[test]
fn default_sampler() {
    let s = Sampler::default();
    assert_eq!(s.mag_filter, Filter::Nearest);
    assert_eq!(s.min_filter, Filter::Linear);
    assert_eq!(s.mipmap_mode, Filter::Nearest);
    assert_eq!(s.address_mode, [AddressMode::ClampToBorder; 3]);
    assert_eq!(s.border_color, BorderColor::Black);
}

#[test]
fn builder_needs_a_format() {
    assert_eq!(
        TextureSettingsBuilder::default().build(),
        Err(TextureSettingsBuilderError::UninitializedField("format"))
    );
}

#[test]
fn builder_defaults() {
    let s = TextureSettingsBuilder::default().format(Format::Rgba8Unorm).build().unwrap();
    assert_eq!(s.format, Format::Rgba8Unorm);
    assert_eq!(s.mip_levels, 1);
    assert_eq!(s.sampler, Sampler::default());
    assert_eq!(s.access_pattern, BufferAccess::Fixed);
}

#[test]
fn builder_takes_set_values() {
    let sampler = Sampler { border_color: BorderColor::White, ..Sampler::default() };
    let s = TextureSettingsBuilder::default()
        .sampler(sampler)
        .mip_levels(3)
        .format(Format::R8Unorm)
        .access_pattern(BufferAccess::Staged)
        .unwrap()
        .build()
        .unwrap();
    assert_eq!(s.sampler, sampler);
    assert_eq!(s.mip_levels, 3);
    assert_eq!(s.format, Format::R8Unorm);
    assert_eq!(s.access_pattern, BufferAccess::Staged);
}

#[test]
fn builder_refuses_pinned_and_ring_buffer_access() {
    let pinned = TextureSettingsBuilder::default().access_pattern(BufferAccess::Pinned(PreferOperation::Read));
    assert!(matches!(pinned, Err(TextureSettingsBuilderError::ValidationError(_))));
    let ring = TextureSettingsBuilder::default().access_pattern(BufferAccess::RingBuffer {
        prefer_operation: PreferOperation::Write,
        buffers: 2,
    });
    assert!(matches!(ring, Err(TextureSettingsBuilderError::ValidationError(_))));
}

#[test]
fn buffer_size_of_one_level() {
    let d = ViewTypeDim::D2 { x: 4, y: 3 };
    assert_eq!(Texture::calculate_buffer_size(&d, &settings(Format::Rgba8Unorm, 1)), 48);
}

#[test]
fn buffer_size_of_a_mip_chain() {
    let d = ViewTypeDim::D2 { x: 4, y: 4 };
    // 16 + 4 + 1 texels of 4 bytes.
    assert_eq!(Texture::calculate_buffer_size(&d, &settings(Format::Rgba8Unorm, 3)), 84);
    let odd = ViewTypeDim::D2 { x: 5, y: 3 };
    // 5x3, 2x1, 1x1 texels of one byte.
    assert_eq!(Texture::calculate_buffer_size(&odd, &settings(Format::R8Unorm, 3)), 18);
}

#[test]
fn buffer_size_counts_layers_and_blocks() {
    let d = ViewTypeDim::D2Array { x: 8, y: 8, layers: 3 };
    // 2x2 blocks of 8 bytes, then 1x1 block, per layer.
    assert_eq!(Texture::calculate_buffer_size(&d, &settings(Format::Bc1RgbUnormBlock, 2)), 3 * (32 + 8));
    let cube = ViewTypeDim::CubeMap { x: 2, y: 2 };
    // Six sides of 2x2 one-byte texels.
    assert_eq!(Texture::calculate_buffer_size(&cube, &settings(Format::R8Unorm, 1)), 24);
    let cubes = ViewTypeDim::CubeArray { x: 2, y: 2, layers: 2 };
    // Two mip levels, 4 + 1 bytes per side, six sides per layer.
    assert_eq!(Texture::calculate_buffer_size(&cubes, &settings(Format::R8Unorm, 2)), 2 * 6 * 5);
}

#[test]
fn a_cube_texture_holds_six_sides() {
    let cube = ViewTypeDim::CubeMap { x: 2, y: 2 };
    assert!(Texture::from_raw(vec![0; 24], cube, settings(Format::R8Unorm, 1)).is_ok());
    assert!(Texture::from_raw(vec![0; 4], cube, settings(Format::R8Unorm, 1)).is_err());
}

#[test]
fn from_raw_accepts_the_right_size() {
    let d = ViewTypeDim::D2 { x: 2, y: 2 };
    let t = Texture::from_raw(vec![1; 16], d, settings(Format::Rgba8Unorm, 1)).unwrap();
    assert_eq!(t.data(), &[1; 16]);
    assert_eq!(*t.dimensions(), d);
    assert_eq!(t.settings().format, Format::Rgba8Unorm);
}

#[test]
fn from_raw_refuses_zero_dimensions() {
    let r = Texture::from_raw(vec![], ViewTypeDim::D2 { x: 0, y: 2 }, settings(Format::R8Unorm, 1));
    assert_eq!(r.unwrap_err(), TextureError::ZeroedDimension);
    let r = Texture::from_raw(vec![], ViewTypeDim::D2Array { x: 1, y: 1, layers: 0 }, settings(Format::R8Unorm, 1));
    assert_eq!(r.unwrap_err(), TextureError::ZeroedDimension);
}

#[test]
fn from_raw_refuses_zero_mip_levels() {
    let r = Texture::from_raw(vec![0; 4], ViewTypeDim::D2 { x: 2, y: 2 }, settings(Format::R8Unorm, 0));
    assert_eq!(r.unwrap_err(), TextureError::InvalidMipLevel(0, 2));
}

#[test]
fn from_raw_refuses_a_wrong_size() {
    let r = Texture::from_raw(vec![0; 5], ViewTypeDim::D2 { x: 2, y: 2 }, settings(Format::R8Unorm, 1));
    assert_eq!(r.unwrap_err(), TextureError::InvalidSize(4, 5));
}

#[test]
fn from_raw_refuses_too_many_mip_levels() {
    let d = ViewTypeDim::D2 { x: 2, y: 2 };
    let size = Texture::calculate_buffer_size(&d, &settings(Format::R8Unorm, 3));
    let r = Texture::from_raw(vec![0; size], d, settings(Format::R8Unorm, 3));
    assert_eq!(r.unwrap_err(), TextureError::InvalidMipLevel(3, 2));
}

#[test]
fn new_filled_repeats_one_block() {
    let t = Texture::new_filled(vec![1, 2, 3, 4], ViewTypeDim::D2 { x: 2, y: 1 }, settings(Format::Rgba8Unorm, 1))
        .unwrap();
    assert_eq!(t.data(), &[1, 2, 3, 4, 1, 2, 3, 4]);
}

#[test]
fn new_filled_refuses_a_wrong_block() {
    let r = Texture::new_filled(vec![1, 2, 3], ViewTypeDim::D2 { x: 2, y: 1 }, settings(Format::Rgba8Unorm, 1));
    assert_eq!(r.unwrap_err(), TextureError::InvalidSize(4, 3));
}

#[test]
fn new_empty_is_zeroed() {
    let t = Texture::new_empty(ViewTypeDim::D1 { x: 3 }, settings(Format::Rg8Unorm, 1)).unwrap();
    assert_eq!(t.data(), &[0; 6]);
}

#[test]
fn data_mut_changes_the_data() {
    let mut t = Texture::new_empty(ViewTypeDim::D1 { x: 2 }, settings(Format::R8Unorm, 1)).unwrap();
    t.data_mut()[1] = 9;
    assert_eq!(t.data(), &[0, 9]);
}

#[test]
fn set_sampler_keeps_the_rest() {
    let mut t = Texture::new_filled(vec![5], ViewTypeDim::D1 { x: 2 }, settings(Format::R8Unorm, 1)).unwrap();
    let s = Sampler { mag_filter: Filter::Linear, ..Sampler::default() };
    t.set_sampler(s);
    assert_eq!(t.settings().sampler, s);
    assert_eq!(t.settings().format, Format::R8Unorm);
    assert_eq!(t.data(), &[5, 5]);
}

#[test]
fn resize_grows_with_zeros() {
    let mut t = Texture::from_raw(vec![1, 2, 3, 4], ViewTypeDim::D2 { x: 2, y: 2 }, settings(Format::R8Unorm, 1))
        .unwrap();
    t.resize(ViewTypeDim::D2 { x: 3, y: 3 });
    assert_eq!(t.data(), &[1, 2, 0, 3, 4, 0, 0, 0, 0]);
    assert_eq!(*t.dimensions(), ViewTypeDim::D2 { x: 3, y: 3 });
}

#[test]
fn resize_shrinks_by_cropping() {
    let mut t = Texture::from_raw(
        (1..=9).collect(),
        ViewTypeDim::D2 { x: 3, y: 3 },
        settings(Format::R8Unorm, 1),
    )
    .unwrap();
    t.resize(ViewTypeDim::D2 { x: 2, y: 2 });
    assert_eq!(t.data(), &[1, 2, 4, 5]);
}

#[test]
fn resize_copies_whole_texels() {
    let mut t = Texture::from_raw(vec![1, 2, 3, 4], ViewTypeDim::D1 { x: 2 }, settings(Format::Rg8Unorm, 1)).unwrap();
    t.resize(ViewTypeDim::D1 { x: 3 });
    assert_eq!(t.data(), &[1, 2, 3, 4, 0, 0]);
}

#[test]
fn resize_to_the_same_dimensions_keeps_the_data() {
    let data: Vec<u8> = (0..24).collect();
    let d = ViewTypeDim::D3 { x: 2, y: 3, z: 2 };
    let mut t = Texture::from_raw(data.clone(), d, settings(Format::Rg8Unorm, 1)).unwrap();
    t.resize(d);
    assert_eq!(t.data(), &data[..]);
}

#[test]
fn decoded_8_bit_image_becomes_an_srgb_texture() {
    let img = DecodedImage {
        width: 1,
        height: 2,
        channels: 4,
        bytes: Some(vec![1, 2, 3, 4, 5, 6, 7, 8]),
        words: None,
        floats: None,
    };
    let t = Texture::from_decoded(Some(img), settings(Format::R8Unorm, 1)).unwrap();
    assert_eq!(t.settings().format, Format::Srgba8);
    assert_eq!(*t.dimensions(), ViewTypeDim::D2 { x: 1, y: 2 });
    assert_eq!(t.data(), &[1, 2, 3, 4, 5, 6, 7, 8]);
}

#[test]
fn decoded_16_bit_image_is_stored_little_endian() {
    let img = DecodedImage {
        width: 1,
        height: 1,
        channels: 1,
        bytes: None,
        words: Some(vec![0x0102]),
        floats: None,
    };
    let t = Texture::from_decoded(Some(img), settings(Format::R8Unorm, 1)).unwrap();
    assert_eq!(t.settings().format, Format::R16Unorm);
    assert_eq!(t.data(), &[0x02, 0x01]);
}

#[test]
fn undecodable_image_is_an_invalid_format() {
    assert_eq!(
        Texture::from_decoded(None, settings(Format::R8Unorm, 1)).unwrap_err(),
        TextureError::InvalidFormat
    );
}

#[test]
fn png_bytes_become_a_texture() {
    let mut png: Vec<u8> = Vec::new();
    let img = image::RgbaImage::from_raw(2, 1, vec![10, 20, 30, 40, 50, 60, 70, 80]).unwrap();
    img.write_to(&mut std::io::Cursor::new(&mut png), ImageFormat::Png).unwrap();
    let t = Texture::from_bytes(png.clone(), ImageFormat::Png, settings(Format::R8Unorm, 1)).unwrap();
    assert_eq!(t.settings().format, Format::Srgba8);
    assert_eq!(*t.dimensions(), ViewTypeDim::D2 { x: 2, y: 1 });
    assert_eq!(t.data(), &[10, 20, 30, 40, 50, 60, 70, 80]);
    let again = Texture::try_from_bytes(png, ImageFormat::Png, settings(Format::R8Unorm, 1)).unwrap().unwrap();
    assert_eq!(again.data(), t.data());
}

#[test]
fn garbage_bytes_are_an_invalid_format() {
    let r = Texture::from_bytes(vec![1, 2, 3], ImageFormat::Png, settings(Format::R8Unorm, 1));
    assert_eq!(r.unwrap_err(), TextureError::InvalidFormat);
}

#[test]
fn pnm_bytes_become_a_texture() {
    let mut pgm: Vec<u8> = b"P5\n2 1\n255\n".to_vec();
    pgm.extend([10u8, 20]);
    let t = Texture::from_bytes(pgm, ImageFormat::Pnm, settings(Format::R8Unorm, 1)).unwrap();
    assert_eq!(t.settings().format, Format::Sr8);
    assert_eq!(*t.dimensions(), ViewTypeDim::D2 { x: 2, y: 1 });
    assert_eq!(t.data(), &[10, 20]);
}
