use vstd::prelude::*;

pub mod buffer;
pub mod material;
pub mod model;
pub mod texture;

verus! {

/// Specifies the formats for the texture when loaded from raw data.
#[derive(Clone, Copy, Debug, PartialEq, Eq, Structural)]
pub enum Format {
    /// 4 bits for red and green UNORM
    Rg4Unorm,

    /// 4 bits for red, green, blue and alpha UNORM
    Rgba4Unorm,

    /// 5 bits for red and blue, 6 bits for green UNORM
    R5G6B5Unorm,

    /// 5 bits for red, green and blue, 1 bit for alpha UNORM
    Rgb5A1Unorm,

    /// 8 bits red SRGB
    Sr8,

    /// 8 bits red and green SRGB
    Srg8,

    /// 8 bits red green blue SRGB
    Srgb8,

    /// 8 bits red green blue alpha SRGB
    Srgba8,

    /// 8 bits red UNORM
    R8Unorm,

    /// 8 bits red green UNORM
    Rg8Unorm,

    /// 8 bits red green blue UNORM
    Rgb8Unorm,

    /// 8 bits red green blue alpha UNORM
    Rgba8Unorm,

    /// 8 bit red unsigned integer
    R8Uint,

    /// 8 bit red signed integer
    R8Sint,

    /// 8 bit red green blue alpha unsigned integer
    Rgba8Uint,

    /// 8 bit red green blue alpha signed integer
    Rgba8Sint,

    /// 2 bits for alpha and 10 bits each for red, green and blue
    A2Rgb10Unorm,

    /// 16 bit red float
    R16Float,

    /// 16 bit red green float
    Rg16Float,

    /// 16 bit red green blue alpha float
    Rgba16Float,

    /// 16 bits red UNORM
    R16Unorm,

    /// 16 bits red green UNORM
    Rg16Unorm,

    /// 16 bits red green blue UNORM
    Rgb16Unorm,

    /// 16 bits red green blue alpha UNORM
    Rgba16Unorm,

    /// 32 bits red float
    R32Float,

    /// 32 bits red green float
    Rg32Float,

    /// 32 bits red green blue float
    Rgb32Float,

    /// 32 bits red green blue alpha float
    Rgba32Float,

    /// BC1 block with no alpha
    Bc1RgbUnormBlock,

    /// BC1 block with no alpha and SRGB encoding
    Bc1RgbSrgbBlock,

    /// BC1 block with alpha
    Bc1RgbaUnormBlock,

    /// BC1 block with alpha as SRGB encoding
    Bc1RgbaSrgbBlock,

    /// BC2 block
    Bc2UnormBlock,

    /// BC2 block with SRGB encoding
    Bc2SrgbBlock,

    /// BC3 block
    Bc3UnormBlock,

    /// BC3 block with SRGB encoding
    Bc3SrgbBlock,

    /// Unsigned BC4 block
    Bc4UnormBlock,

    /// Unsigned BC5 block
    Bc5UnormBlock,

    /// BC7 block
    Bc7UnormBlock,

    /// BC7 block with SRGB encoding
    Bc7SrgbBlock,

    /// RGB ETC2 block
    Etc2Rgb8UnormBlock,

    /// RGB ETC2 block with SRGB encoding
    Etc2Rgb8SrgbBlock,

    /// RGB ETC2 block with punch-through alpha
    Etc2Rgb8A1UnormBlock,

    /// RGB ETC2 block with punch-through alpha and SRGB encoding
    Etc2Rgb8A1SrgbBlock,

    /// RGBA ETC2 block
    Etc2Rgb8A8UnormBlock,

    /// RGBA ETC2 block with SRGB encoding
    Etc2Rgb8A8SrgbBlock,

    /// Unsigned R11 EAC block
    EacR11UnormBlock,

    /// Unsigned RG11 EAC block
    EacRg11UnormBlock,

    /// 4x4 ASTC block
    Astc4x4UnormBlock,

    /// 4x4 ASTC block with SRGB encoding
    Astc4x4SrgbBlock,

    /// 5x4 ASTC block
    Astc5x4UnormBlock,

    /// 5x4 ASTC block with SRGB encoding
    Astc5x4SrgbBlock,

    /// 5x5 ASTC block
    Astc5x5UnormBlock,

    /// 5x5 ASTC block with SRGB encoding
    Astc5x5SrgbBlock,

    /// 6x5 ASTC block
    Astc6x5UnormBlock,

    /// 6x5 ASTC block with SRGB encoding
    Astc6x5SrgbBlock,

    /// 6x6 ASTC block
    Astc6x6UnormBlock,

    /// 6x6 ASTC block with SRGB encoding
    Astc6x6SrgbBlock,

    /// 8x5 ASTC block
    Astc8x5UnormBlock,

    /// 8x5 ASTC block with SRGB encoding
    Astc8x5SrgbBlock,

    /// 8x6 ASTC block
    Astc8x6UnormBlock,

    /// 8x6 ASTC block with SRGB encoding
    Astc8x6SrgbBlock,

    /// 8x8 ASTC block
    Astc8x8UnormBlock,

    /// 8x8 ASTC block with SRGB encoding
    Astc8x8SrgbBlock,

    /// 10x5 ASTC block
    Astc10x5UnormBlock,

    /// 10x5 ASTC block with SRGB encoding
    Astc10x5SrgbBlock,

    /// 10x6 ASTC block
    Astc10x6UnormBlock,

    /// 10x6 ASTC block with SRGB encoding
    Astc10x6SrgbBlock,

    /// 10x8 ASTC block
    Astc10x8UnormBlock,

    /// 10x8 ASTC block with SRGB encoding
    Astc10x8SrgbBlock,

    /// 10x10 ASTC block
    Astc10x10UnormBlock,

    /// 10x10 ASTC block with SRGB encoding
    Astc10x10SrgbBlock,

    /// 12x10 ASTC block
    Astc12x10UnormBlock,

    /// 12x10 ASTC block with SRGB encoding
    Astc12x10SrgbBlock,

    /// 12x12 ASTC block
    Astc12x12UnormBlock,

    /// 12x12 ASTC block with SRGB encoding
    Astc12x12SrgbBlock,
}

impl Format {
    /// The width and height in texels of one block of this format.
    pub open spec fn spec_block_extent(self) -> Seq<u32> {
        match self {
            Format::Rg4Unorm => seq![1, 1],
            Format::Rgba4Unorm => seq![1, 1],
            Format::R5G6B5Unorm => seq![1, 1],
            Format::Rgb5A1Unorm => seq![1, 1],
            Format::Sr8 => seq![1, 1],
            Format::Srg8 => seq![1, 1],
            Format::Srgb8 => seq![1, 1],
            Format::Srgba8 => seq![1, 1],
            Format::R8Unorm => seq![1, 1],
            Format::Rg8Unorm => seq![1, 1],
            Format::Rgb8Unorm => seq![1, 1],
            Format::Rgba8Unorm => seq![1, 1],
            Format::R8Uint => seq![1, 1],
            Format::R8Sint => seq![1, 1],
            Format::Rgba8Uint => seq![1, 1],
            Format::Rgba8Sint => seq![1, 1],
            Format::A2Rgb10Unorm => seq![1, 1],
            Format::R16Float => seq![1, 1],
            Format::Rg16Float => seq![1, 1],
            Format::Rgba16Float => seq![1, 1],
            Format::R16Unorm => seq![1, 1],
            Format::Rg16Unorm => seq![1, 1],
            Format::Rgb16Unorm => seq![1, 1],
            Format::Rgba16Unorm => seq![1, 1],
            Format::R32Float => seq![1, 1],
            Format::Rg32Float => seq![1, 1],
            Format::Rgb32Float => seq![1, 1],
            Format::Rgba32Float => seq![1, 1],
            Format::Bc1RgbUnormBlock => seq![4, 4],
            Format::Bc1RgbSrgbBlock => seq![4, 4],
            Format::Bc1RgbaUnormBlock => seq![4, 4],
            Format::Bc1RgbaSrgbBlock => seq![4, 4],
            Format::Bc2UnormBlock => seq![4, 4],
            Format::Bc2SrgbBlock => seq![4, 4],
            Format::Bc3UnormBlock => seq![4, 4],
            Format::Bc3SrgbBlock => seq![4, 4],
            Format::Bc4UnormBlock => seq![4, 4],
            Format::Bc5UnormBlock => seq![4, 4],
            Format::Bc7UnormBlock => seq![4, 4],
            Format::Bc7SrgbBlock => seq![4, 4],
            Format::Etc2Rgb8UnormBlock => seq![4, 4],
            Format::Etc2Rgb8SrgbBlock => seq![4, 4],
            Format::Etc2Rgb8A1UnormBlock => seq![4, 4],
            Format::Etc2Rgb8A1SrgbBlock => seq![4, 4],
            Format::Etc2Rgb8A8UnormBlock => seq![4, 4],
            Format::Etc2Rgb8A8SrgbBlock => seq![4, 4],
            Format::EacR11UnormBlock => seq![4, 4],
            Format::EacRg11UnormBlock => seq![4, 4],
            Format::Astc4x4UnormBlock => seq![4, 4],
            Format::Astc4x4SrgbBlock => seq![4, 4],
            Format::Astc5x4UnormBlock => seq![5, 4],
            Format::Astc5x4SrgbBlock => seq![5, 4],
            Format::Astc5x5UnormBlock => seq![5, 5],
            Format::Astc5x5SrgbBlock => seq![5, 5],
            Format::Astc6x5UnormBlock => seq![6, 5],
            Format::Astc6x5SrgbBlock => seq![6, 5],
            Format::Astc6x6UnormBlock => seq![6, 6],
            Format::Astc6x6SrgbBlock => seq![6, 6],
            Format::Astc8x5UnormBlock => seq![8, 5],
            Format::Astc8x5SrgbBlock => seq![8, 5],
            Format::Astc8x6UnormBlock => seq![8, 6],
            Format::Astc8x6SrgbBlock => seq![8, 6],
            Format::Astc8x8UnormBlock => seq![8, 8],
            Format::Astc8x8SrgbBlock => seq![8, 8],
            Format::Astc10x5UnormBlock => seq![10, 5],
            Format::Astc10x5SrgbBlock => seq![10, 5],
            Format::Astc10x6UnormBlock => seq![10, 6],
            Format::Astc10x6SrgbBlock => seq![10, 6],
            Format::Astc10x8UnormBlock => seq![10, 8],
            Format::Astc10x8SrgbBlock => seq![10, 8],
            Format::Astc10x10UnormBlock => seq![10, 10],
            Format::Astc10x10SrgbBlock => seq![10, 10],
            Format::Astc12x10UnormBlock => seq![12, 10],
            Format::Astc12x10SrgbBlock => seq![12, 10],
            Format::Astc12x12UnormBlock => seq![12, 12],
            Format::Astc12x12SrgbBlock => seq![12, 12],
        }
    }

    /// The number of bytes of one block (one texel for uncompressed formats).
    pub open spec fn spec_block_size(self) -> usize {
        match self {
            Format::Rg4Unorm => 1,
            Format::Rgba4Unorm => 2,
            Format::R5G6B5Unorm => 2,
            Format::Rgb5A1Unorm => 2,
            Format::Sr8 => 1,
            Format::Srg8 => 2,
            Format::Srgb8 => 3,
            Format::Srgba8 => 4,
            Format::R8Unorm => 1,
            Format::Rg8Unorm => 2,
            Format::Rgb8Unorm => 3,
            Format::Rgba8Unorm => 4,
            Format::R8Uint => 1,
            Format::R8Sint => 1,
            Format::Rgba8Uint => 4,
            Format::Rgba8Sint => 4,
            Format::A2Rgb10Unorm => 4,
            Format::R16Float => 2,
            Format::Rg16Float => 4,
            Format::Rgba16Float => 8,
            Format::R16Unorm => 2,
            Format::Rg16Unorm => 4,
            Format::Rgb16Unorm => 6,
            Format::Rgba16Unorm => 8,
            Format::R32Float => 4,
            Format::Rg32Float => 8,
            Format::Rgb32Float => 12,
            Format::Rgba32Float => 16,
            Format::Bc1RgbUnormBlock => 8,
            Format::Bc1RgbSrgbBlock => 8,
            Format::Bc1RgbaUnormBlock => 8,
            Format::Bc1RgbaSrgbBlock => 8,
            Format::Bc2UnormBlock => 16,
            Format::Bc2SrgbBlock => 16,
            Format::Bc3UnormBlock => 16,
            Format::Bc3SrgbBlock => 16,
            Format::Bc4UnormBlock => 8,
            Format::Bc5UnormBlock => 16,
            Format::Bc7UnormBlock => 16,
            Format::Bc7SrgbBlock => 16,
            Format::Etc2Rgb8UnormBlock => 8,
            Format::Etc2Rgb8SrgbBlock => 8,
            Format::Etc2Rgb8A1UnormBlock => 8,
            Format::Etc2Rgb8A1SrgbBlock => 8,
            Format::Etc2Rgb8A8UnormBlock => 16,
            Format::Etc2Rgb8A8SrgbBlock => 16,
            Format::EacR11UnormBlock => 8,
            Format::EacRg11UnormBlock => 16,
            Format::Astc4x4UnormBlock => 16,
            Format::Astc4x4SrgbBlock => 16,
            Format::Astc5x4UnormBlock => 16,
            Format::Astc5x4SrgbBlock => 16,
            Format::Astc5x5UnormBlock => 16,
            Format::Astc5x5SrgbBlock => 16,
            Format::Astc6x5UnormBlock => 16,
            Format::Astc6x5SrgbBlock => 16,
            Format::Astc6x6UnormBlock => 16,
            Format::Astc6x6SrgbBlock => 16,
            Format::Astc8x5UnormBlock => 16,
            Format::Astc8x5SrgbBlock => 16,
            Format::Astc8x6UnormBlock => 16,
            Format::Astc8x6SrgbBlock => 16,
            Format::Astc8x8UnormBlock => 16,
            Format::Astc8x8SrgbBlock => 16,
            Format::Astc10x5UnormBlock => 16,
            Format::Astc10x5SrgbBlock => 16,
            Format::Astc10x6UnormBlock => 16,
            Format::Astc10x6SrgbBlock => 16,
            Format::Astc10x8UnormBlock => 16,
            Format::Astc10x8SrgbBlock => 16,
            Format::Astc10x10UnormBlock => 16,
            Format::Astc10x10SrgbBlock => 16,
            Format::Astc12x10UnormBlock => 16,
            Format::Astc12x10SrgbBlock => 16,
            Format::Astc12x12UnormBlock => 16,
            Format::Astc12x12SrgbBlock => 16,
        }
    }

    /// The number of bits of each of the four components; 0 for an absent one.
    pub open spec fn spec_components(self) -> Seq<u8> {
        match self {
            Format::Rg4Unorm => seq![4, 4, 0, 0],
            Format::Rgba4Unorm => seq![4, 4, 4, 4],
            Format::R5G6B5Unorm => seq![5, 6, 5, 0],
            Format::Rgb5A1Unorm => seq![5, 5, 5, 1],
            Format::Sr8 => seq![8, 0, 0, 0],
            Format::Srg8 => seq![8, 8, 0, 0],
            Format::Srgb8 => seq![8, 8, 8, 0],
            Format::Srgba8 => seq![8, 8, 8, 8],
            Format::R8Unorm => seq![8, 0, 0, 0],
            Format::Rg8Unorm => seq![8, 8, 0, 0],
            Format::Rgb8Unorm => seq![8, 8, 8, 0],
            Format::Rgba8Unorm => seq![8, 8, 8, 8],
            Format::R8Uint => seq![8, 0, 0, 0],
            Format::R8Sint => seq![8, 0, 0, 0],
            Format::Rgba8Uint => seq![8, 8, 8, 8],
            Format::Rgba8Sint => seq![8, 8, 8, 8],
            Format::A2Rgb10Unorm => seq![10, 10, 10, 2],
            Format::R16Float => seq![16, 0, 0, 0],
            Format::Rg16Float => seq![16, 16, 0, 0],
            Format::Rgba16Float => seq![16, 16, 16, 16],
            Format::R16Unorm => seq![16, 0, 0, 0],
            Format::Rg16Unorm => seq![16, 16, 0, 0],
            Format::Rgb16Unorm => seq![16, 16, 16, 0],
            Format::Rgba16Unorm => seq![16, 16, 16, 16],
            Format::R32Float => seq![32, 0, 0, 0],
            Format::Rg32Float => seq![32, 32, 0, 0],
            Format::Rgb32Float => seq![32, 32, 32, 0],
            Format::Rgba32Float => seq![32, 32, 32, 32],
            Format::Bc1RgbUnormBlock => seq![1, 1, 1, 0],
            Format::Bc1RgbSrgbBlock => seq![1, 1, 1, 0],
            Format::Bc1RgbaUnormBlock => seq![1, 1, 1, 1],
            Format::Bc1RgbaSrgbBlock => seq![1, 1, 1, 1],
            Format::Bc2UnormBlock => seq![1, 1, 1, 1],
            Format::Bc2SrgbBlock => seq![1, 1, 1, 1],
            Format::Bc3UnormBlock => seq![1, 1, 1, 1],
            Format::Bc3SrgbBlock => seq![1, 1, 1, 1],
            Format::Bc4UnormBlock => seq![1, 0, 0, 0],
            Format::Bc5UnormBlock => seq![1, 1, 0, 0],
            Format::Bc7UnormBlock => seq![1, 1, 1, 1],
            Format::Bc7SrgbBlock => seq![1, 1, 1, 1],
            Format::Etc2Rgb8UnormBlock => seq![1, 1, 1, 0],
            Format::Etc2Rgb8SrgbBlock => seq![1, 1, 1, 0],
            Format::Etc2Rgb8A1UnormBlock => seq![1, 1, 1, 1],
            Format::Etc2Rgb8A1SrgbBlock => seq![1, 1, 1, 1],
            Format::Etc2Rgb8A8UnormBlock => seq![1, 1, 1, 1],
            Format::Etc2Rgb8A8SrgbBlock => seq![1, 1, 1, 1],
            Format::EacR11UnormBlock => seq![11, 0, 0, 0],
            Format::EacRg11UnormBlock => seq![11, 11, 0, 0],
            Format::Astc4x4UnormBlock => seq![1, 1, 1, 1],
            Format::Astc4x4SrgbBlock => seq![1, 1, 1, 1],
            Format::Astc5x4UnormBlock => seq![1, 1, 1, 1],
            Format::Astc5x4SrgbBlock => seq![1, 1, 1, 1],
            Format::Astc5x5UnormBlock => seq![1, 1, 1, 1],
            Format::Astc5x5SrgbBlock => seq![1, 1, 1, 1],
            Format::Astc6x5UnormBlock => seq![1, 1, 1, 1],
            Format::Astc6x5SrgbBlock => seq![1, 1, 1, 1],
            Format::Astc6x6UnormBlock => seq![1, 1, 1, 1],
            Format::Astc6x6SrgbBlock => seq![1, 1, 1, 1],
            Format::Astc8x5UnormBlock => seq![1, 1, 1, 1],
            Format::Astc8x5SrgbBlock => seq![1, 1, 1, 1],
            Format::Astc8x6UnormBlock => seq![1, 1, 1, 1],
            Format::Astc8x6SrgbBlock => seq![1, 1, 1, 1],
            Format::Astc8x8UnormBlock => seq![1, 1, 1, 1],
            Format::Astc8x8SrgbBlock => seq![1, 1, 1, 1],
            Format::Astc10x5UnormBlock => seq![1, 1, 1, 1],
            Format::Astc10x5SrgbBlock => seq![1, 1, 1, 1],
            Format::Astc10x6UnormBlock => seq![1, 1, 1, 1],
            Format::Astc10x6SrgbBlock => seq![1, 1, 1, 1],
            Format::Astc10x8UnormBlock => seq![1, 1, 1, 1],
            Format::Astc10x8SrgbBlock => seq![1, 1, 1, 1],
            Format::Astc10x10UnormBlock => seq![1, 1, 1, 1],
            Format::Astc10x10SrgbBlock => seq![1, 1, 1, 1],
            Format::Astc12x10UnormBlock => seq![1, 1, 1, 1],
            Format::Astc12x10SrgbBlock => seq![1, 1, 1, 1],
            Format::Astc12x12UnormBlock => seq![1, 1, 1, 1],
            Format::Astc12x12SrgbBlock => seq![1, 1, 1, 1],
        }
    }

    /// The type of the stored values.
    pub open spec fn spec_format_type(self) -> FormatType {
        match self {
            Format::Rg4Unorm => FormatType::UnsignedInt,
            Format::Rgba4Unorm => FormatType::UnsignedInt,
            Format::R5G6B5Unorm => FormatType::UnsignedInt,
            Format::Rgb5A1Unorm => FormatType::UnsignedInt,
            Format::Sr8 => FormatType::UnsignedInt,
            Format::Srg8 => FormatType::UnsignedInt,
            Format::Srgb8 => FormatType::UnsignedInt,
            Format::Srgba8 => FormatType::UnsignedInt,
            Format::R8Unorm => FormatType::UnsignedInt,
            Format::Rg8Unorm => FormatType::UnsignedInt,
            Format::Rgb8Unorm => FormatType::UnsignedInt,
            Format::Rgba8Unorm => FormatType::UnsignedInt,
            Format::R8Uint => FormatType::UnsignedInt,
            Format::R8Sint => FormatType::SignedInt,
            Format::Rgba8Uint => FormatType::UnsignedInt,
            Format::Rgba8Sint => FormatType::SignedInt,
            Format::A2Rgb10Unorm => FormatType::UnsignedInt,
            Format::R16Float => FormatType::Float,
            Format::Rg16Float => FormatType::Float,
            Format::Rgba16Float => FormatType::Float,
            Format::R16Unorm => FormatType::UnsignedInt,
            Format::Rg16Unorm => FormatType::UnsignedInt,
            Format::Rgb16Unorm => FormatType::UnsignedInt,
            Format::Rgba16Unorm => FormatType::UnsignedInt,
            Format::R32Float => FormatType::Float,
            Format::Rg32Float => FormatType::Float,
            Format::Rgb32Float => FormatType::Float,
            Format::Rgba32Float => FormatType::Float,
            Format::Bc1RgbUnormBlock => FormatType::UnsignedInt,
            Format::Bc1RgbSrgbBlock => FormatType::UnsignedInt,
            Format::Bc1RgbaUnormBlock => FormatType::UnsignedInt,
            Format::Bc1RgbaSrgbBlock => FormatType::UnsignedInt,
            Format::Bc2UnormBlock => FormatType::UnsignedInt,
            Format::Bc2SrgbBlock => FormatType::UnsignedInt,
            Format::Bc3UnormBlock => FormatType::UnsignedInt,
            Format::Bc3SrgbBlock => FormatType::UnsignedInt,
            Format::Bc4UnormBlock => FormatType::UnsignedInt,
            Format::Bc5UnormBlock => FormatType::UnsignedInt,
            Format::Bc7UnormBlock => FormatType::UnsignedInt,
            Format::Bc7SrgbBlock => FormatType::UnsignedInt,
            Format::Etc2Rgb8UnormBlock => FormatType::UnsignedInt,
            Format::Etc2Rgb8SrgbBlock => FormatType::UnsignedInt,
            Format::Etc2Rgb8A1UnormBlock => FormatType::UnsignedInt,
            Format::Etc2Rgb8A1SrgbBlock => FormatType::UnsignedInt,
            Format::Etc2Rgb8A8UnormBlock => FormatType::UnsignedInt,
            Format::Etc2Rgb8A8SrgbBlock => FormatType::UnsignedInt,
            Format::EacR11UnormBlock => FormatType::UnsignedInt,
            Format::EacRg11UnormBlock => FormatType::UnsignedInt,
            Format::Astc4x4UnormBlock => FormatType::UnsignedInt,
            Format::Astc4x4SrgbBlock => FormatType::UnsignedInt,
            Format::Astc5x4UnormBlock => FormatType::UnsignedInt,
            Format::Astc5x4SrgbBlock => FormatType::UnsignedInt,
            Format::Astc5x5UnormBlock => FormatType::UnsignedInt,
            Format::Astc5x5SrgbBlock => FormatType::UnsignedInt,
            Format::Astc6x5UnormBlock => FormatType::UnsignedInt,
            Format::Astc6x5SrgbBlock => FormatType::UnsignedInt,
            Format::Astc6x6UnormBlock => FormatType::UnsignedInt,
            Format::Astc6x6SrgbBlock => FormatType::UnsignedInt,
            Format::Astc8x5UnormBlock => FormatType::UnsignedInt,
            Format::Astc8x5SrgbBlock => FormatType::UnsignedInt,
            Format::Astc8x6UnormBlock => FormatType::UnsignedInt,
            Format::Astc8x6SrgbBlock => FormatType::UnsignedInt,
            Format::Astc8x8UnormBlock => FormatType::UnsignedInt,
            Format::Astc8x8SrgbBlock => FormatType::UnsignedInt,
            Format::Astc10x5UnormBlock => FormatType::UnsignedInt,
            Format::Astc10x5SrgbBlock => FormatType::UnsignedInt,
            Format::Astc10x6UnormBlock => FormatType::UnsignedInt,
            Format::Astc10x6SrgbBlock => FormatType::UnsignedInt,
            Format::Astc10x8UnormBlock => FormatType::UnsignedInt,
            Format::Astc10x8SrgbBlock => FormatType::UnsignedInt,
            Format::Astc10x10UnormBlock => FormatType::UnsignedInt,
            Format::Astc10x10SrgbBlock => FormatType::UnsignedInt,
            Format::Astc12x10UnormBlock => FormatType::UnsignedInt,
            Format::Astc12x10SrgbBlock => FormatType::UnsignedInt,
            Format::Astc12x12UnormBlock => FormatType::UnsignedInt,
            Format::Astc12x12SrgbBlock => FormatType::UnsignedInt,
        }
    }

    /// The type with which a shader reads this format.
    pub open spec fn spec_sampled_format_type(self) -> SampledFormatType {
        match self {
            Format::Rg4Unorm => SampledFormatType::Float,
            Format::Rgba4Unorm => SampledFormatType::Float,
            Format::R5G6B5Unorm => SampledFormatType::Float,
            Format::Rgb5A1Unorm => SampledFormatType::Float,
            Format::Sr8 => SampledFormatType::Float,
            Format::Srg8 => SampledFormatType::Float,
            Format::Srgb8 => SampledFormatType::Float,
            Format::Srgba8 => SampledFormatType::Float,
            Format::R8Unorm => SampledFormatType::Float,
            Format::Rg8Unorm => SampledFormatType::Float,
            Format::Rgb8Unorm => SampledFormatType::Float,
            Format::Rgba8Unorm => SampledFormatType::Float,
            Format::R8Uint => SampledFormatType::Int,
            Format::R8Sint => SampledFormatType::Int,
            Format::Rgba8Uint => SampledFormatType::Int,
            Format::Rgba8Sint => SampledFormatType::Int,
            Format::A2Rgb10Unorm => SampledFormatType::Float,
            Format::R16Float => SampledFormatType::Float,
            Format::Rg16Float => SampledFormatType::Float,
            Format::Rgba16Float => SampledFormatType::Float,
            Format::R16Unorm => SampledFormatType::Float,
            Format::Rg16Unorm => SampledFormatType::Float,
            Format::Rgb16Unorm => SampledFormatType::Float,
            Format::Rgba16Unorm => SampledFormatType::Float,
            Format::R32Float => SampledFormatType::Float,
            Format::Rg32Float => SampledFormatType::Float,
            Format::Rgb32Float => SampledFormatType::Float,
            Format::Rgba32Float => SampledFormatType::Float,
            Format::Bc1RgbUnormBlock => SampledFormatType::Float,
            Format::Bc1RgbSrgbBlock => SampledFormatType::Float,
            Format::Bc1RgbaUnormBlock => SampledFormatType::Float,
            Format::Bc1RgbaSrgbBlock => SampledFormatType::Float,
            Format::Bc2UnormBlock => SampledFormatType::Float,
            Format::Bc2SrgbBlock => SampledFormatType::Float,
            Format::Bc3UnormBlock => SampledFormatType::Float,
            Format::Bc3SrgbBlock => SampledFormatType::Float,
            Format::Bc4UnormBlock => SampledFormatType::Float,
            Format::Bc5UnormBlock => SampledFormatType::Float,
            Format::Bc7UnormBlock => SampledFormatType::Float,
            Format::Bc7SrgbBlock => SampledFormatType::Float,
            Format::Etc2Rgb8UnormBlock => SampledFormatType::Float,
            Format::Etc2Rgb8SrgbBlock => SampledFormatType::Float,
            Format::Etc2Rgb8A1UnormBlock => SampledFormatType::Float,
            Format::Etc2Rgb8A1SrgbBlock => SampledFormatType::Float,
            Format::Etc2Rgb8A8UnormBlock => SampledFormatType::Float,
            Format::Etc2Rgb8A8SrgbBlock => SampledFormatType::Float,
            Format::EacR11UnormBlock => SampledFormatType::Float,
            Format::EacRg11UnormBlock => SampledFormatType::Float,
            Format::Astc4x4UnormBlock => SampledFormatType::Float,
            Format::Astc4x4SrgbBlock => SampledFormatType::Float,
            Format::Astc5x4UnormBlock => SampledFormatType::Float,
            Format::Astc5x4SrgbBlock => SampledFormatType::Float,
            Format::Astc5x5UnormBlock => SampledFormatType::Float,
            Format::Astc5x5SrgbBlock => SampledFormatType::Float,
            Format::Astc6x5UnormBlock => SampledFormatType::Float,
            Format::Astc6x5SrgbBlock => SampledFormatType::Float,
            Format::Astc6x6UnormBlock => SampledFormatType::Float,
            Format::Astc6x6SrgbBlock => SampledFormatType::Float,
            Format::Astc8x5UnormBlock => SampledFormatType::Float,
            Format::Astc8x5SrgbBlock => SampledFormatType::Float,
            Format::Astc8x6UnormBlock => SampledFormatType::Float,
            Format::Astc8x6SrgbBlock => SampledFormatType::Float,
            Format::Astc8x8UnormBlock => SampledFormatType::Float,
            Format::Astc8x8SrgbBlock => SampledFormatType::Float,
            Format::Astc10x5UnormBlock => SampledFormatType::Float,
            Format::Astc10x5SrgbBlock => SampledFormatType::Float,
            Format::Astc10x6UnormBlock => SampledFormatType::Float,
            Format::Astc10x6SrgbBlock => SampledFormatType::Float,
            Format::Astc10x8UnormBlock => SampledFormatType::Float,
            Format::Astc10x8SrgbBlock => SampledFormatType::Float,
            Format::Astc10x10UnormBlock => SampledFormatType::Float,
            Format::Astc10x10SrgbBlock => SampledFormatType::Float,
            Format::Astc12x10UnormBlock => SampledFormatType::Float,
            Format::Astc12x10SrgbBlock => SampledFormatType::Float,
            Format::Astc12x12UnormBlock => SampledFormatType::Float,
            Format::Astc12x12SrgbBlock => SampledFormatType::Float,
        }
    }

}

impl Format {
    /// Returns the width and height in texels of one block of this format.
    pub fn block_extent(&self) -> (r: [u32; 2])
        ensures
            r@ == self.spec_block_extent(),
            r[0] >= 1 && r[1] >= 1,
    {
        match self {
            Format::Rg4Unorm => [1, 1],
            Format::Rgba4Unorm => [1, 1],
            Format::R5G6B5Unorm => [1, 1],
            Format::Rgb5A1Unorm => [1, 1],
            Format::Sr8 => [1, 1],
            Format::Srg8 => [1, 1],
            Format::Srgb8 => [1, 1],
            Format::Srgba8 => [1, 1],
            Format::R8Unorm => [1, 1],
            Format::Rg8Unorm => [1, 1],
            Format::Rgb8Unorm => [1, 1],
            Format::Rgba8Unorm => [1, 1],
            Format::R8Uint => [1, 1],
            Format::R8Sint => [1, 1],
            Format::Rgba8Uint => [1, 1],
            Format::Rgba8Sint => [1, 1],
            Format::A2Rgb10Unorm => [1, 1],
            Format::R16Float => [1, 1],
            Format::Rg16Float => [1, 1],
            Format::Rgba16Float => [1, 1],
            Format::R16Unorm => [1, 1],
            Format::Rg16Unorm => [1, 1],
            Format::Rgb16Unorm => [1, 1],
            Format::Rgba16Unorm => [1, 1],
            Format::R32Float => [1, 1],
            Format::Rg32Float => [1, 1],
            Format::Rgb32Float => [1, 1],
            Format::Rgba32Float => [1, 1],
            Format::Bc1RgbUnormBlock => [4, 4],
            Format::Bc1RgbSrgbBlock => [4, 4],
            Format::Bc1RgbaUnormBlock => [4, 4],
            Format::Bc1RgbaSrgbBlock => [4, 4],
            Format::Bc2UnormBlock => [4, 4],
            Format::Bc2SrgbBlock => [4, 4],
            Format::Bc3UnormBlock => [4, 4],
            Format::Bc3SrgbBlock => [4, 4],
            Format::Bc4UnormBlock => [4, 4],
            Format::Bc5UnormBlock => [4, 4],
            Format::Bc7UnormBlock => [4, 4],
            Format::Bc7SrgbBlock => [4, 4],
            Format::Etc2Rgb8UnormBlock => [4, 4],
            Format::Etc2Rgb8SrgbBlock => [4, 4],
            Format::Etc2Rgb8A1UnormBlock => [4, 4],
            Format::Etc2Rgb8A1SrgbBlock => [4, 4],
            Format::Etc2Rgb8A8UnormBlock => [4, 4],
            Format::Etc2Rgb8A8SrgbBlock => [4, 4],
            Format::EacR11UnormBlock => [4, 4],
            Format::EacRg11UnormBlock => [4, 4],
            Format::Astc4x4UnormBlock => [4, 4],
            Format::Astc4x4SrgbBlock => [4, 4],
            Format::Astc5x4UnormBlock => [5, 4],
            Format::Astc5x4SrgbBlock => [5, 4],
            Format::Astc5x5UnormBlock => [5, 5],
            Format::Astc5x5SrgbBlock => [5, 5],
            Format::Astc6x5UnormBlock => [6, 5],
            Format::Astc6x5SrgbBlock => [6, 5],
            Format::Astc6x6UnormBlock => [6, 6],
            Format::Astc6x6SrgbBlock => [6, 6],
            Format::Astc8x5UnormBlock => [8, 5],
            Format::Astc8x5SrgbBlock => [8, 5],
            Format::Astc8x6UnormBlock => [8, 6],
            Format::Astc8x6SrgbBlock => [8, 6],
            Format::Astc8x8UnormBlock => [8, 8],
            Format::Astc8x8SrgbBlock => [8, 8],
            Format::Astc10x5UnormBlock => [10, 5],
            Format::Astc10x5SrgbBlock => [10, 5],
            Format::Astc10x6UnormBlock => [10, 6],
            Format::Astc10x6SrgbBlock => [10, 6],
            Format::Astc10x8UnormBlock => [10, 8],
            Format::Astc10x8SrgbBlock => [10, 8],
            Format::Astc10x10UnormBlock => [10, 10],
            Format::Astc10x10SrgbBlock => [10, 10],
            Format::Astc12x10UnormBlock => [12, 10],
            Format::Astc12x10SrgbBlock => [12, 10],
            Format::Astc12x12UnormBlock => [12, 12],
            Format::Astc12x12SrgbBlock => [12, 12],
        }
    }

    /// Returns the amount of bytes present per pixel in the given format.
    pub fn block_size(&self) -> (r: usize)
        ensures
            r == self.spec_block_size(),
            1 <= r <= 16,
    {
        match self {
            Format::Rg4Unorm => 1,
            Format::Rgba4Unorm => 2,
            Format::R5G6B5Unorm => 2,
            Format::Rgb5A1Unorm => 2,
            Format::Sr8 => 1,
            Format::Srg8 => 2,
            Format::Srgb8 => 3,
            Format::Srgba8 => 4,
            Format::R8Unorm => 1,
            Format::Rg8Unorm => 2,
            Format::Rgb8Unorm => 3,
            Format::Rgba8Unorm => 4,
            Format::R8Uint => 1,
            Format::R8Sint => 1,
            Format::Rgba8Uint => 4,
            Format::Rgba8Sint => 4,
            Format::A2Rgb10Unorm => 4,
            Format::R16Float => 2,
            Format::Rg16Float => 4,
            Format::Rgba16Float => 8,
            Format::R16Unorm => 2,
            Format::Rg16Unorm => 4,
            Format::Rgb16Unorm => 6,
            Format::Rgba16Unorm => 8,
            Format::R32Float => 4,
            Format::Rg32Float => 8,
            Format::Rgb32Float => 12,
            Format::Rgba32Float => 16,
            Format::Bc1RgbUnormBlock => 8,
            Format::Bc1RgbSrgbBlock => 8,
            Format::Bc1RgbaUnormBlock => 8,
            Format::Bc1RgbaSrgbBlock => 8,
            Format::Bc2UnormBlock => 16,
            Format::Bc2SrgbBlock => 16,
            Format::Bc3UnormBlock => 16,
            Format::Bc3SrgbBlock => 16,
            Format::Bc4UnormBlock => 8,
            Format::Bc5UnormBlock => 16,
            Format::Bc7UnormBlock => 16,
            Format::Bc7SrgbBlock => 16,
            Format::Etc2Rgb8UnormBlock => 8,
            Format::Etc2Rgb8SrgbBlock => 8,
            Format::Etc2Rgb8A1UnormBlock => 8,
            Format::Etc2Rgb8A1SrgbBlock => 8,
            Format::Etc2Rgb8A8UnormBlock => 16,
            Format::Etc2Rgb8A8SrgbBlock => 16,
            Format::EacR11UnormBlock => 8,
            Format::EacRg11UnormBlock => 16,
            Format::Astc4x4UnormBlock => 16,
            Format::Astc4x4SrgbBlock => 16,
            Format::Astc5x4UnormBlock => 16,
            Format::Astc5x4SrgbBlock => 16,
            Format::Astc5x5UnormBlock => 16,
            Format::Astc5x5SrgbBlock => 16,
            Format::Astc6x5UnormBlock => 16,
            Format::Astc6x5SrgbBlock => 16,
            Format::Astc6x6UnormBlock => 16,
            Format::Astc6x6SrgbBlock => 16,
            Format::Astc8x5UnormBlock => 16,
            Format::Astc8x5SrgbBlock => 16,
            Format::Astc8x6UnormBlock => 16,
            Format::Astc8x6SrgbBlock => 16,
            Format::Astc8x8UnormBlock => 16,
            Format::Astc8x8SrgbBlock => 16,
            Format::Astc10x5UnormBlock => 16,
            Format::Astc10x5SrgbBlock => 16,
            Format::Astc10x6UnormBlock => 16,
            Format::Astc10x6SrgbBlock => 16,
            Format::Astc10x8UnormBlock => 16,
            Format::Astc10x8SrgbBlock => 16,
            Format::Astc10x10UnormBlock => 16,
            Format::Astc10x10SrgbBlock => 16,
            Format::Astc12x10UnormBlock => 16,
            Format::Astc12x10SrgbBlock => 16,
            Format::Astc12x12UnormBlock => 16,
            Format::Astc12x12SrgbBlock => 16,
        }
    }

    /// Returns the amount of bits per component of this format.
    ///
    /// Components that are not present in the format have 0 bits.
    pub fn components(&self) -> (r: [u8; 4])
        ensures
            r@ == self.spec_components(),
            r[0] > 0,
    {
        match self {
            Format::Rg4Unorm => [4, 4, 0, 0],
            Format::Rgba4Unorm => [4, 4, 4, 4],
            Format::R5G6B5Unorm => [5, 6, 5, 0],
            Format::Rgb5A1Unorm => [5, 5, 5, 1],
            Format::Sr8 => [8, 0, 0, 0],
            Format::Srg8 => [8, 8, 0, 0],
            Format::Srgb8 => [8, 8, 8, 0],
            Format::Srgba8 => [8, 8, 8, 8],
            Format::R8Unorm => [8, 0, 0, 0],
            Format::Rg8Unorm => [8, 8, 0, 0],
            Format::Rgb8Unorm => [8, 8, 8, 0],
            Format::Rgba8Unorm => [8, 8, 8, 8],
            Format::R8Uint => [8, 0, 0, 0],
            Format::R8Sint => [8, 0, 0, 0],
            Format::Rgba8Uint => [8, 8, 8, 8],
            Format::Rgba8Sint => [8, 8, 8, 8],
            Format::A2Rgb10Unorm => [10, 10, 10, 2],
            Format::R16Float => [16, 0, 0, 0],
            Format::Rg16Float => [16, 16, 0, 0],
            Format::Rgba16Float => [16, 16, 16, 16],
            Format::R16Unorm => [16, 0, 0, 0],
            Format::Rg16Unorm => [16, 16, 0, 0],
            Format::Rgb16Unorm => [16, 16, 16, 0],
            Format::Rgba16Unorm => [16, 16, 16, 16],
            Format::R32Float => [32, 0, 0, 0],
            Format::Rg32Float => [32, 32, 0, 0],
            Format::Rgb32Float => [32, 32, 32, 0],
            Format::Rgba32Float => [32, 32, 32, 32],
            Format::Bc1RgbUnormBlock => [1, 1, 1, 0],
            Format::Bc1RgbSrgbBlock => [1, 1, 1, 0],
            Format::Bc1RgbaUnormBlock => [1, 1, 1, 1],
            Format::Bc1RgbaSrgbBlock => [1, 1, 1, 1],
            Format::Bc2UnormBlock => [1, 1, 1, 1],
            Format::Bc2SrgbBlock => [1, 1, 1, 1],
            Format::Bc3UnormBlock => [1, 1, 1, 1],
            Format::Bc3SrgbBlock => [1, 1, 1, 1],
            Format::Bc4UnormBlock => [1, 0, 0, 0],
            Format::Bc5UnormBlock => [1, 1, 0, 0],
            Format::Bc7UnormBlock => [1, 1, 1, 1],
            Format::Bc7SrgbBlock => [1, 1, 1, 1],
            Format::Etc2Rgb8UnormBlock => [1, 1, 1, 0],
            Format::Etc2Rgb8SrgbBlock => [1, 1, 1, 0],
            Format::Etc2Rgb8A1UnormBlock => [1, 1, 1, 1],
            Format::Etc2Rgb8A1SrgbBlock => [1, 1, 1, 1],
            Format::Etc2Rgb8A8UnormBlock => [1, 1, 1, 1],
            Format::Etc2Rgb8A8SrgbBlock => [1, 1, 1, 1],
            Format::EacR11UnormBlock => [11, 0, 0, 0],
            Format::EacRg11UnormBlock => [11, 11, 0, 0],
            Format::Astc4x4UnormBlock => [1, 1, 1, 1],
            Format::Astc4x4SrgbBlock => [1, 1, 1, 1],
            Format::Astc5x4UnormBlock => [1, 1, 1, 1],
            Format::Astc5x4SrgbBlock => [1, 1, 1, 1],
            Format::Astc5x5UnormBlock => [1, 1, 1, 1],
            Format::Astc5x5SrgbBlock => [1, 1, 1, 1],
            Format::Astc6x5UnormBlock => [1, 1, 1, 1],
            Format::Astc6x5SrgbBlock => [1, 1, 1, 1],
            Format::Astc6x6UnormBlock => [1, 1, 1, 1],
            Format::Astc6x6SrgbBlock => [1, 1, 1, 1],
            Format::Astc8x5UnormBlock => [1, 1, 1, 1],
            Format::Astc8x5SrgbBlock => [1, 1, 1, 1],
            Format::Astc8x6UnormBlock => [1, 1, 1, 1],
            Format::Astc8x6SrgbBlock => [1, 1, 1, 1],
            Format::Astc8x8UnormBlock => [1, 1, 1, 1],
            Format::Astc8x8SrgbBlock => [1, 1, 1, 1],
            Format::Astc10x5UnormBlock => [1, 1, 1, 1],
            Format::Astc10x5SrgbBlock => [1, 1, 1, 1],
            Format::Astc10x6UnormBlock => [1, 1, 1, 1],
            Format::Astc10x6SrgbBlock => [1, 1, 1, 1],
            Format::Astc10x8UnormBlock => [1, 1, 1, 1],
            Format::Astc10x8SrgbBlock => [1, 1, 1, 1],
            Format::Astc10x10UnormBlock => [1, 1, 1, 1],
            Format::Astc10x10SrgbBlock => [1, 1, 1, 1],
            Format::Astc12x10UnormBlock => [1, 1, 1, 1],
            Format::Astc12x10SrgbBlock => [1, 1, 1, 1],
            Format::Astc12x12UnormBlock => [1, 1, 1, 1],
            Format::Astc12x12SrgbBlock => [1, 1, 1, 1],
        }
    }

    /// Returns the type of the values stored in this format.
    pub fn format_type(&self) -> (r: FormatType)
        ensures
            r == self.spec_format_type(),
    {
        match self {
            Format::Rg4Unorm => FormatType::UnsignedInt,
            Format::Rgba4Unorm => FormatType::UnsignedInt,
            Format::R5G6B5Unorm => FormatType::UnsignedInt,
            Format::Rgb5A1Unorm => FormatType::UnsignedInt,
            Format::Sr8 => FormatType::UnsignedInt,
            Format::Srg8 => FormatType::UnsignedInt,
            Format::Srgb8 => FormatType::UnsignedInt,
            Format::Srgba8 => FormatType::UnsignedInt,
            Format::R8Unorm => FormatType::UnsignedInt,
            Format::Rg8Unorm => FormatType::UnsignedInt,
            Format::Rgb8Unorm => FormatType::UnsignedInt,
            Format::Rgba8Unorm => FormatType::UnsignedInt,
            Format::R8Uint => FormatType::UnsignedInt,
            Format::R8Sint => FormatType::SignedInt,
            Format::Rgba8Uint => FormatType::UnsignedInt,
            Format::Rgba8Sint => FormatType::SignedInt,
            Format::A2Rgb10Unorm => FormatType::UnsignedInt,
            Format::R16Float => FormatType::Float,
            Format::Rg16Float => FormatType::Float,
            Format::Rgba16Float => FormatType::Float,
            Format::R16Unorm => FormatType::UnsignedInt,
            Format::Rg16Unorm => FormatType::UnsignedInt,
            Format::Rgb16Unorm => FormatType::UnsignedInt,
            Format::Rgba16Unorm => FormatType::UnsignedInt,
            Format::R32Float => FormatType::Float,
            Format::Rg32Float => FormatType::Float,
            Format::Rgb32Float => FormatType::Float,
            Format::Rgba32Float => FormatType::Float,
            Format::Bc1RgbUnormBlock => FormatType::UnsignedInt,
            Format::Bc1RgbSrgbBlock => FormatType::UnsignedInt,
            Format::Bc1RgbaUnormBlock => FormatType::UnsignedInt,
            Format::Bc1RgbaSrgbBlock => FormatType::UnsignedInt,
            Format::Bc2UnormBlock => FormatType::UnsignedInt,
            Format::Bc2SrgbBlock => FormatType::UnsignedInt,
            Format::Bc3UnormBlock => FormatType::UnsignedInt,
            Format::Bc3SrgbBlock => FormatType::UnsignedInt,
            Format::Bc4UnormBlock => FormatType::UnsignedInt,
            Format::Bc5UnormBlock => FormatType::UnsignedInt,
            Format::Bc7UnormBlock => FormatType::UnsignedInt,
            Format::Bc7SrgbBlock => FormatType::UnsignedInt,
            Format::Etc2Rgb8UnormBlock => FormatType::UnsignedInt,
            Format::Etc2Rgb8SrgbBlock => FormatType::UnsignedInt,
            Format::Etc2Rgb8A1UnormBlock => FormatType::UnsignedInt,
            Format::Etc2Rgb8A1SrgbBlock => FormatType::UnsignedInt,
            Format::Etc2Rgb8A8UnormBlock => FormatType::UnsignedInt,
            Format::Etc2Rgb8A8SrgbBlock => FormatType::UnsignedInt,
            Format::EacR11UnormBlock => FormatType::UnsignedInt,
            Format::EacRg11UnormBlock => FormatType::UnsignedInt,
            Format::Astc4x4UnormBlock => FormatType::UnsignedInt,
            Format::Astc4x4SrgbBlock => FormatType::UnsignedInt,
            Format::Astc5x4UnormBlock => FormatType::UnsignedInt,
            Format::Astc5x4SrgbBlock => FormatType::UnsignedInt,
            Format::Astc5x5UnormBlock => FormatType::UnsignedInt,
            Format::Astc5x5SrgbBlock => FormatType::UnsignedInt,
            Format::Astc6x5UnormBlock => FormatType::UnsignedInt,
            Format::Astc6x5SrgbBlock => FormatType::UnsignedInt,
            Format::Astc6x6UnormBlock => FormatType::UnsignedInt,
            Format::Astc6x6SrgbBlock => FormatType::UnsignedInt,
            Format::Astc8x5UnormBlock => FormatType::UnsignedInt,
            Format::Astc8x5SrgbBlock => FormatType::UnsignedInt,
            Format::Astc8x6UnormBlock => FormatType::UnsignedInt,
            Format::Astc8x6SrgbBlock => FormatType::UnsignedInt,
            Format::Astc8x8UnormBlock => FormatType::UnsignedInt,
            Format::Astc8x8SrgbBlock => FormatType::UnsignedInt,
            Format::Astc10x5UnormBlock => FormatType::UnsignedInt,
            Format::Astc10x5SrgbBlock => FormatType::UnsignedInt,
            Format::Astc10x6UnormBlock => FormatType::UnsignedInt,
            Format::Astc10x6SrgbBlock => FormatType::UnsignedInt,
            Format::Astc10x8UnormBlock => FormatType::UnsignedInt,
            Format::Astc10x8SrgbBlock => FormatType::UnsignedInt,
            Format::Astc10x10UnormBlock => FormatType::UnsignedInt,
            Format::Astc10x10SrgbBlock => FormatType::UnsignedInt,
            Format::Astc12x10UnormBlock => FormatType::UnsignedInt,
            Format::Astc12x10SrgbBlock => FormatType::UnsignedInt,
            Format::Astc12x12UnormBlock => FormatType::UnsignedInt,
            Format::Astc12x12SrgbBlock => FormatType::UnsignedInt,
        }
    }

    /// Returns the representation of this format in shader code.
    pub fn sampled_format_type(&self) -> (r: SampledFormatType)
        ensures
            r == self.spec_sampled_format_type(),
    {
        match self {
            Format::Rg4Unorm => SampledFormatType::Float,
            Format::Rgba4Unorm => SampledFormatType::Float,
            Format::R5G6B5Unorm => SampledFormatType::Float,
            Format::Rgb5A1Unorm => SampledFormatType::Float,
            Format::Sr8 => SampledFormatType::Float,
            Format::Srg8 => SampledFormatType::Float,
            Format::Srgb8 => SampledFormatType::Float,
            Format::Srgba8 => SampledFormatType::Float,
            Format::R8Unorm => SampledFormatType::Float,
            Format::Rg8Unorm => SampledFormatType::Float,
            Format::Rgb8Unorm => SampledFormatType::Float,
            Format::Rgba8Unorm => SampledFormatType::Float,
            Format::R8Uint => SampledFormatType::Int,
            Format::R8Sint => SampledFormatType::Int,
            Format::Rgba8Uint => SampledFormatType::Int,
            Format::Rgba8Sint => SampledFormatType::Int,
            Format::A2Rgb10Unorm => SampledFormatType::Float,
            Format::R16Float => SampledFormatType::Float,
            Format::Rg16Float => SampledFormatType::Float,
            Format::Rgba16Float => SampledFormatType::Float,
            Format::R16Unorm => SampledFormatType::Float,
            Format::Rg16Unorm => SampledFormatType::Float,
            Format::Rgb16Unorm => SampledFormatType::Float,
            Format::Rgba16Unorm => SampledFormatType::Float,
            Format::R32Float => SampledFormatType::Float,
            Format::Rg32Float => SampledFormatType::Float,
            Format::Rgb32Float => SampledFormatType::Float,
            Format::Rgba32Float => SampledFormatType::Float,
            Format::Bc1RgbUnormBlock => SampledFormatType::Float,
            Format::Bc1RgbSrgbBlock => SampledFormatType::Float,
            Format::Bc1RgbaUnormBlock => SampledFormatType::Float,
            Format::Bc1RgbaSrgbBlock => SampledFormatType::Float,
            Format::Bc2UnormBlock => SampledFormatType::Float,
            Format::Bc2SrgbBlock => SampledFormatType::Float,
            Format::Bc3UnormBlock => SampledFormatType::Float,
            Format::Bc3SrgbBlock => SampledFormatType::Float,
            Format::Bc4UnormBlock => SampledFormatType::Float,
            Format::Bc5UnormBlock => SampledFormatType::Float,
            Format::Bc7UnormBlock => SampledFormatType::Float,
            Format::Bc7SrgbBlock => SampledFormatType::Float,
            Format::Etc2Rgb8UnormBlock => SampledFormatType::Float,
            Format::Etc2Rgb8SrgbBlock => SampledFormatType::Float,
            Format::Etc2Rgb8A1UnormBlock => SampledFormatType::Float,
            Format::Etc2Rgb8A1SrgbBlock => SampledFormatType::Float,
            Format::Etc2Rgb8A8UnormBlock => SampledFormatType::Float,
            Format::Etc2Rgb8A8SrgbBlock => SampledFormatType::Float,
            Format::EacR11UnormBlock => SampledFormatType::Float,
            Format::EacRg11UnormBlock => SampledFormatType::Float,
            Format::Astc4x4UnormBlock => SampledFormatType::Float,
            Format::Astc4x4SrgbBlock => SampledFormatType::Float,
            Format::Astc5x4UnormBlock => SampledFormatType::Float,
            Format::Astc5x4SrgbBlock => SampledFormatType::Float,
            Format::Astc5x5UnormBlock => SampledFormatType::Float,
            Format::Astc5x5SrgbBlock => SampledFormatType::Float,
            Format::Astc6x5UnormBlock => SampledFormatType::Float,
            Format::Astc6x5SrgbBlock => SampledFormatType::Float,
            Format::Astc6x6UnormBlock => SampledFormatType::Float,
            Format::Astc6x6SrgbBlock => SampledFormatType::Float,
            Format::Astc8x5UnormBlock => SampledFormatType::Float,
            Format::Astc8x5SrgbBlock => SampledFormatType::Float,
            Format::Astc8x6UnormBlock => SampledFormatType::Float,
            Format::Astc8x6SrgbBlock => SampledFormatType::Float,
            Format::Astc8x8UnormBlock => SampledFormatType::Float,
            Format::Astc8x8SrgbBlock => SampledFormatType::Float,
            Format::Astc10x5UnormBlock => SampledFormatType::Float,
            Format::Astc10x5SrgbBlock => SampledFormatType::Float,
            Format::Astc10x6UnormBlock => SampledFormatType::Float,
            Format::Astc10x6SrgbBlock => SampledFormatType::Float,
            Format::Astc10x8UnormBlock => SampledFormatType::Float,
            Format::Astc10x8SrgbBlock => SampledFormatType::Float,
            Format::Astc10x10UnormBlock => SampledFormatType::Float,
            Format::Astc10x10SrgbBlock => SampledFormatType::Float,
            Format::Astc12x10UnormBlock => SampledFormatType::Float,
            Format::Astc12x10SrgbBlock => SampledFormatType::Float,
            Format::Astc12x12UnormBlock => SampledFormatType::Float,
            Format::Astc12x12SrgbBlock => SampledFormatType::Float,
        }
    }

}

/// The type of the format.
#[derive(Clone, Copy, Debug, PartialEq, Eq, Structural)]
pub enum FormatType {
    UnsignedInt,
    SignedInt,
    Float,
}

/// The representation of this format in shader code.
#[derive(Clone, Copy, Debug, PartialEq, Eq, Structural)]
pub enum SampledFormatType {
    Int,
    Float,
}


/// The bits of the four components of a format, added up.
pub open spec fn component_bits(f: Format) -> int {
    let c = f.spec_components();
    c[0] + c[1] + c[2] + c[3]
}

/// A format whose blocks are one texel stores its components back to back: the bits of its
/// components add up to the bytes of one texel.
pub proof fn law_texel_bytes_hold_component_bits(f: Format)
    requires
        f.spec_block_extent() == seq![1u32, 1u32],
    ensures
        component_bits(f) == 8 * f.spec_block_size(),
{
}


/// Whether a block-compressed format packs a block into 64 bits: the BC1 and BC4 formats, the
/// ETC2 RGB formats with or without one bit of alpha, and EAC R11.
pub open spec fn has_64_bit_blocks(f: Format) -> bool {
    ||| f is Bc1RgbUnormBlock
    ||| f is Bc1RgbSrgbBlock
    ||| f is Bc1RgbaUnormBlock
    ||| f is Bc1RgbaSrgbBlock
    ||| f is Bc4UnormBlock
    ||| f is Etc2Rgb8UnormBlock
    ||| f is Etc2Rgb8SrgbBlock
    ||| f is Etc2Rgb8A1UnormBlock
    ||| f is Etc2Rgb8A1SrgbBlock
    ||| f is EacR11UnormBlock
}

/// A block-compressed format, one whose blocks hold more than one texel, stores a block in 8
/// bytes when its blocks are 64 bits (BC1, BC4, ETC2 RGB, ETC2 RGB with one bit of alpha, EAC
/// R11) and in 16 bytes otherwise (BC2, BC3, BC5, BC7, ETC2 RGBA, EAC RG11 and every ASTC
/// format).
pub proof fn law_compressed_block_bytes(f: Format)
    requires
        f.spec_block_extent() != seq![1u32, 1u32],
    ensures
        f.spec_block_size() == if has_64_bit_blocks(f) { 8usize } else { 16usize },
{
}
} // verus!
