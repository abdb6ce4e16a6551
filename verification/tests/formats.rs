use let_engine::resources::{Format, FormatType, SampledFormatType};

#[test]
fn uncompressed_formats_have_one_texel_blocks() {
    assert_eq!(Format::Rgba8Unorm.block_extent(), [1, 1]);
    assert_eq!(Format::R16Float.block_extent(), [1, 1]);
    assert_eq!(Format::Rgba32Float.block_extent(), [1, 1]);
}

#[test]
fn compressed_formats_have_their_block_extent() {
    assert_eq!(Format::Bc1RgbUnormBlock.block_extent(), [4, 4]);
    assert_eq!(Format::Bc7SrgbBlock.block_extent(), [4, 4]);
    assert_eq!(Format::EacRg11UnormBlock.block_extent(), [4, 4]);
    assert_eq!(Format::Astc5x5UnormBlock.block_extent(), [5, 5]);
    assert_eq!(Format::Astc10x8SrgbBlock.block_extent(), [10, 8]);
    assert_eq!(Format::Astc12x12UnormBlock.block_extent(), [12, 12]);
}

#[test]
fn astc_5x4_blocks_cover_five_by_four_texels() {
    assert_eq!(Format::Astc5x4UnormBlock.block_extent(), [5, 4]);
    assert_eq!(Format::Astc5x4SrgbBlock.block_extent(), [5, 4]);
}

#[test]
fn a2_rgb10_lists_its_components_in_rgba_order() {
    assert_eq!(Format::A2Rgb10Unorm.components(), [10, 10, 10, 2]);
    assert_eq!(Format::A2Rgb10Unorm.format_type(), FormatType::UnsignedInt);
}

#[test]
fn block_sizes_are_bytes_per_block() {
    assert_eq!(Format::Rg4Unorm.block_size(), 1);
    assert_eq!(Format::R5G6B5Unorm.block_size(), 2);
    assert_eq!(Format::Srgb8.block_size(), 3);
    assert_eq!(Format::Rgba8Unorm.block_size(), 4);
    assert_eq!(Format::Rgba16Float.block_size(), 8);
    assert_eq!(Format::Rgba32Float.block_size(), 16);
    assert_eq!(Format::Bc1RgbUnormBlock.block_size(), 8);
    assert_eq!(Format::Bc7UnormBlock.block_size(), 16);
    assert_eq!(Format::Astc12x12SrgbBlock.block_size(), 16);
}

#[test]
fn components_are_bits_per_channel() {
    assert_eq!(Format::Rg4Unorm.components(), [4, 4, 0, 0]);
    assert_eq!(Format::R5G6B5Unorm.components(), [5, 6, 5, 0]);
    assert_eq!(Format::Rgb5A1Unorm.components(), [5, 5, 5, 1]);
    assert_eq!(Format::Rgba8Unorm.components(), [8, 8, 8, 8]);
    assert_eq!(Format::Rg32Float.components(), [32, 32, 0, 0]);
    assert_eq!(Format::EacRg11UnormBlock.components(), [11, 11, 0, 0]);
}

#[test]
fn one_texel_formats_hold_their_component_bits() {
    let formats = [
        Format::Rg4Unorm,
        Format::Rgba4Unorm,
        Format::R5G6B5Unorm,
        Format::Rgb5A1Unorm,
        Format::Sr8,
        Format::Srgba8,
        Format::Rgb8Unorm,
        Format::A2Rgb10Unorm,
        Format::Rgb16Unorm,
        Format::Rgba32Float,
    ];
    for f in formats {
        let bits: usize = f.components().iter().map(|c| *c as usize).sum();
        assert_eq!(bits, 8 * f.block_size(), "{f:?}");
    }
}

#[test]
fn format_types() {
    assert_eq!(Format::Rgba8Unorm.format_type(), FormatType::UnsignedInt);
    assert_eq!(Format::R8Sint.format_type(), FormatType::SignedInt);
    assert_eq!(Format::R32Float.format_type(), FormatType::Float);
    assert_eq!(Format::Rgba16Float.format_type(), FormatType::Float);
}

#[test]
fn sampled_format_types() {
    assert_eq!(Format::Rgba8Unorm.sampled_format_type(), SampledFormatType::Float);
    assert_eq!(Format::R8Uint.sampled_format_type(), SampledFormatType::Int);
    assert_eq!(Format::Rgba8Sint.sampled_format_type(), SampledFormatType::Int);
    assert_eq!(Format::R32Float.sampled_format_type(), SampledFormatType::Float);
}
