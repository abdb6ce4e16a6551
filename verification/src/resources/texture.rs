use vstd::prelude::*;

use super::buffer::BufferAccess;
use super::Format;
pub use image::ImageFormat;

verus! {

/// Represents the dimensions of a texture in the form of a view type.
///
/// This enum is used within the `Texture` struct to define the dimensionality
/// of the texture.
///
/// When using a cube map, the order in which the sides get defined is as follows:
///
/// 1. +x (right)
/// 2. -x (left)
/// 3. +y (up)
/// 4. -y (down)
/// 5. +z (front)
/// 6. -z (back)
#[derive(Clone, Copy, Debug, PartialEq, Eq, Structural)]
pub enum ViewTypeDim {
    /// One dimensional image where `x` symbolizes the width.
    D1 { x: u32 },
    /// Two dimensional image where `x` symbolizes the width and `y` the height.
    D2 { x: u32, y: u32 },
    /// Three dimensional image where `x` symbolizes the width, `y` the height and `z` the depth.
    D3 { x: u32, y: u32, z: u32 },
    /// Two dimensional image where `x` symbolizes the width of a cube map side and `y` the height.
    ///
    /// When this is used, six times the data is needed for each side of the texture.
    CubeMap { x: u32, y: u32 },
    /// One dimensional image array where `x` symbolizes the width and `layers` the amount of elements
    /// in the texture array.
    D1Array { x: u32, layers: u32 },
    /// One dimensional image array where `x` symbolizes the width, `y` the height and `layers` the amount of elements
    /// in the texture array.
    D2Array { x: u32, y: u32, layers: u32 },
    /// One dimensional image array where `x` symbolizes the width of all cube map sides, `y` the height and `layers`
    /// the amount of elements in the texture array.
    ///
    /// When this is used, six times the data is needed for each side of the texture.
    CubeArray { x: u32, y: u32, layers: u32 },
}

/// The largest `k` with `2^k <= n`, for `n >= 1` (0 for `n == 0`).
pub open spec fn floor_log2(n: nat) -> nat
    decreases n,
{
    if n <= 1 {
        0
    } else {
        1 + floor_log2(n / 2)
    }
}

impl ViewTypeDim {
    /// Width, height and depth of this image; 1 where the view type has no such axis.
    pub open spec fn spec_extent(self) -> Seq<u32> {
        match self {
            ViewTypeDim::D1 { x } => seq![x, 1, 1],
            ViewTypeDim::D1Array { x, .. } => seq![x, 1, 1],
            ViewTypeDim::D2 { x, y } => seq![x, y, 1],
            ViewTypeDim::CubeMap { x, y } => seq![x, y, 1],
            ViewTypeDim::D2Array { x, y, .. } => seq![x, y, 1],
            ViewTypeDim::CubeArray { x, y, .. } => seq![x, y, 1],
            ViewTypeDim::D3 { x, y, z } => seq![x, y, z],
        }
    }

    /// The number of array elements: `layers` for the array view types, otherwise 1.
    pub open spec fn spec_array_layers(self) -> u32 {
        match self {
            ViewTypeDim::D1Array { layers, .. } => layers,
            ViewTypeDim::D2Array { layers, .. } => layers,
            ViewTypeDim::CubeArray { layers, .. } => layers,
            _ => 1,
        }
    }

    /// Whether every image of this view type has six sides.
    pub open spec fn is_cube(self) -> bool {
        self is CubeMap || self is CubeArray
    }

    /// The number of two- or three-dimensional images that hold data: the array layers, six
    /// times over for the cube views, one for each side.
    pub open spec fn spec_images(self) -> int {
        self.spec_array_layers() * (if self.is_cube() { 6int } else { 1int })
    }

    /// The number of texels: width times height times depth times the array layers,
    /// times six for the cube views.
    pub open spec fn spec_elements_num(self) -> int {
        match self {
            ViewTypeDim::D1 { x } => x as int,
            ViewTypeDim::D2 { x, y } => x * y,
            ViewTypeDim::D3 { x, y, z } => x * y * z,
            ViewTypeDim::CubeMap { x, y } => x * y * 6,
            ViewTypeDim::D1Array { x, layers } => x * layers,
            ViewTypeDim::D2Array { x, y, layers } => x * y * layers,
            ViewTypeDim::CubeArray { x, y, layers } => x * y * layers * 6,
        }
    }

    /// The largest of the three extents.
    pub open spec fn spec_max_extent(self) -> u32 {
        let e = self.spec_extent();
        let m = if e[0] >= e[1] {
            e[0]
        } else {
            e[1]
        };
        if m >= e[2] {
            m
        } else {
            e[2]
        }
    }

    /// One more than the base-2 logarithm of the largest extent: the number of levels of a
    /// full mip chain.
    pub open spec fn spec_max_mip_level(self) -> int {
        floor_log2(self.spec_max_extent() as nat) + 1int
    }

    /// Whether any extent or the layer count of this view type equals zero.
    pub open spec fn has_zero_dimension(self) -> bool {
        let e = self.spec_extent();
        e[0] == 0 || e[1] == 0 || e[2] == 0 || self.spec_array_layers() == 0
    }

    /// Returns the amount of colors needed to represent a given view type.
    pub fn elements_num(&self) -> (r: u64)
        requires
            self.spec_elements_num() <= u64::MAX,
        ensures
            r == self.spec_elements_num(),
    {
        match *self {
            ViewTypeDim::D1 { x } => x as u64,
            ViewTypeDim::D2 { x, y } => {
                proof {
                    lemma_u32_product_fits_u64(x, y);
                }
                x as u64 * y as u64
            },
            ViewTypeDim::D3 { x, y, z } => {
                proof {
                    lemma_u32_product_fits_u64(x, y);
                }
                x as u64 * y as u64 * z as u64
            },
            ViewTypeDim::CubeMap { x, y } => {
                proof {
                    lemma_u32_product_fits_u64(x, y);
                }
                x as u64 * y as u64 * 6
            },
            ViewTypeDim::D1Array { x, layers } => {
                proof {
                    lemma_u32_product_fits_u64(x, layers);
                }
                x as u64 * layers as u64
            },
            ViewTypeDim::D2Array { x, y, layers } => {
                proof {
                    lemma_u32_product_fits_u64(x, y);
                }
                x as u64 * y as u64 * layers as u64
            },
            ViewTypeDim::CubeArray { x, y, layers } => {
                proof {
                    lemma_u32_product_fits_u64(x, y);
                    lemma_prefix_bounded(x * y * layers, 6, u64::MAX as int);
                }
                x as u64 * y as u64 * layers as u64 * 6
            },
        }
    }

    /// Returns the three dimensional extent of this image.
    pub fn extent(&self) -> (r: [u32; 3])
        ensures
            r@ == self.spec_extent(),
    {
        match *self {
            ViewTypeDim::D1 { x } => [x, 1, 1],
            ViewTypeDim::D1Array { x, .. } => [x, 1, 1],
            ViewTypeDim::D2 { x, y } => [x, y, 1],
            ViewTypeDim::CubeMap { x, y } => [x, y, 1],
            ViewTypeDim::D2Array { x, y, .. } => [x, y, 1],
            ViewTypeDim::CubeArray { x, y, .. } => [x, y, 1],
            ViewTypeDim::D3 { x, y, z } => [x, y, z],
        }
    }

    /// The number of sides of each image: six for the cube views, otherwise one.
    fn faces(&self) -> (r: u32)
        ensures
            r == (if self.is_cube() { 6int } else { 1int }),
    {
        match self {
            ViewTypeDim::CubeMap { .. } | ViewTypeDim::CubeArray { .. } => 6,
            _ => 1,
        }
    }

    /// Returns the amount of layers the array version of this texture has.
    /// If this texture is not an array this will return 1.
    pub fn array_layers(&self) -> (r: u32)
        ensures
            r == self.spec_array_layers(),
    {
        match self {
            ViewTypeDim::D1Array { layers, .. } => *layers,
            ViewTypeDim::D2Array { layers, .. } => *layers,
            ViewTypeDim::CubeArray { layers, .. } => *layers,
            _ => 1,
        }
    }

    /// Returns the maximum applicable mip leveles possible for a texture of this dimension.
    pub fn max_mip_level(&self) -> (r: u32)
        requires
            self.spec_max_extent() > 0,
        ensures
            r == self.spec_max_mip_level(),
            1 <= r <= 32,
    {
        let e = self.extent();
        let m0 = if e[0] >= e[1] {
            e[0]
        } else {
            e[1]
        };
        let m = if m0 >= e[2] {
            m0
        } else {
            e[2]
        };
        ilog2(m) + 1
    }
}

/// One dimensional texture from `u32`, where x is the value.
impl From<u32> for ViewTypeDim {
    fn from(value: u32) -> (r: Self) {
        ViewTypeDim::D1 { x: value }
    }
}

impl vstd::std_specs::convert::FromSpecImpl<u32> for ViewTypeDim {
    open spec fn obeys_from_spec() -> bool {
        true
    }

    open spec fn from_spec(value: u32) -> Self {
        ViewTypeDim::D1 { x: value }
    }
}

/// Two dimensional texture from `(u32, u32)` where 0 is x and 1 is y.
impl From<(u32, u32)> for ViewTypeDim {
    fn from(value: (u32, u32)) -> (r: Self) {
        ViewTypeDim::D2 { x: value.0, y: value.1 }
    }
}

impl vstd::std_specs::convert::FromSpecImpl<(u32, u32)> for ViewTypeDim {
    open spec fn obeys_from_spec() -> bool {
        true
    }

    open spec fn from_spec(value: (u32, u32)) -> Self {
        ViewTypeDim::D2 { x: value.0, y: value.1 }
    }
}

/// Three dimensional texture from `(u32, u32, u32)` where 0 is x, 1 is y and 2 is z.
impl From<(u32, u32, u32)> for ViewTypeDim {
    fn from(value: (u32, u32, u32)) -> (r: Self) {
        ViewTypeDim::D3 { x: value.0, y: value.1, z: value.2 }
    }
}

impl vstd::std_specs::convert::FromSpecImpl<(u32, u32, u32)> for ViewTypeDim {
    open spec fn obeys_from_spec() -> bool {
        true
    }

    open spec fn from_spec(value: (u32, u32, u32)) -> Self {
        ViewTypeDim::D3 { x: value.0, y: value.1, z: value.2 }
    }
}

/// The extent of the view type: width, height and depth.
impl From<ViewTypeDim> for [u32; 3] {
    fn from(value: ViewTypeDim) -> (r: Self) {
        value.extent()
    }
}

impl vstd::std_specs::convert::FromSpecImpl<ViewTypeDim> for [u32; 3] {
    open spec fn obeys_from_spec() -> bool {
        true
    }

    open spec fn from_spec(value: ViewTypeDim) -> Self {
        [value.spec_extent()[0], value.spec_extent()[1], value.spec_extent()[2]]
    }
}

/// The number of texels of a view type is its width times its height times its depth times
/// its array layers, six times over for the cube view types.
pub proof fn law_elements_num_counts_texels(d: ViewTypeDim)
    ensures
        d.spec_elements_num() == d.spec_extent()[0] * d.spec_extent()[1] * d.spec_extent()[2]
            * d.spec_array_layers() * (if d.is_cube() { 6int } else { 1int }),
{
    let e = d.spec_extent();
    let l = d.spec_array_layers();
    match d {
        ViewTypeDim::D1 { x } => {
            assert(x * 1 * 1 * 1 * 1 == x) by (nonlinear_arith);
        },
        ViewTypeDim::D2 { x, y } => {
            assert(x * y * 1 * 1 * 1 == x * y) by (nonlinear_arith);
        },
        ViewTypeDim::D3 { x, y, z } => {
            assert(x * y * z * 1 * 1 == x * y * z) by (nonlinear_arith);
        },
        ViewTypeDim::CubeMap { x, y } => {
            assert(x * y * 1 * 1 * 6 == x * y * 6) by (nonlinear_arith);
        },
        ViewTypeDim::D1Array { x, layers } => {
            assert(x * 1 * 1 * layers * 1 == x * layers) by (nonlinear_arith);
        },
        ViewTypeDim::D2Array { x, y, layers } => {
            assert(x * y * 1 * layers * 1 == x * y * layers) by (nonlinear_arith);
        },
        ViewTypeDim::CubeArray { x, y, layers } => {
            assert(x * y * 1 * layers * 6 == x * y * layers * 6) by (nonlinear_arith);
        },
    }
}

/// Halving `n` `k + 1` times is halving `n / 2` `k` times.
proof fn lemma_halved_shift(n: nat, k: nat)
    ensures
        halved(n, k + 1) == halved(n / 2, k),
    decreases k,
{
    assert(halved(n, k + 1) == halved(n, k) / 2);
    if k > 0 {
        lemma_halved_shift(n, (k - 1) as nat);
        assert(halved(n / 2, k) == halved(n / 2, (k - 1) as nat) / 2);
    }
}

/// Halving `n >= 1` as many times as its base-2 logarithm leaves exactly 1.
proof fn lemma_halved_to_one(n: nat)
    requires
        n >= 1,
    ensures
        halved(n, floor_log2(n)) == 1,
    decreases n,
{
    if n > 1 {
        lemma_halved_to_one(n / 2);
        lemma_halved_shift(n, floor_log2(n / 2));
    }
}

/// Halving keeps the order of two extents.
proof fn lemma_halved_monotone(a: nat, b: nat, k: nat)
    requires
        a <= b,
    ensures
        halved(a, k) <= halved(b, k),
    decreases k,
{
    if k > 0 {
        lemma_halved_monotone(a, b, (k - 1) as nat);
    }
}

/// A full mip chain, `max_mip_level` levels long, is the longest chain whose levels all
/// differ: its last level is one texel along every axis, and the level before it is at least
/// two texels along the longest axis.
pub proof fn law_full_mip_chain_ends_at_one(d: ViewTypeDim)
    requires
        d.spec_max_extent() >= 1,
    ensures
        halved(d.spec_max_extent() as nat, (d.spec_max_mip_level() - 1) as nat) == 1,
        forall|i: int|
            0 <= i < 3 ==> mip_extent(#[trigger] d.spec_extent()[i] as nat, (d.spec_max_mip_level() - 1) as nat)
                == 1,
        d.spec_max_mip_level() >= 2 ==> halved(
            d.spec_max_extent() as nat,
            (d.spec_max_mip_level() - 2) as nat,
        ) >= 2,
{
    let m = d.spec_max_extent() as nat;
    let f = floor_log2(m);
    lemma_halved_to_one(m);
    assert forall|i: int| 0 <= i < 3 implies mip_extent(#[trigger] d.spec_extent()[i] as nat, f) == 1 by {
        lemma_halved_monotone(d.spec_extent()[i] as nat, m, f);
    }
}

/// Defines the filtering method used when sampling a texture.
///
/// Filtering determines how texels are interpolated when the texture is scaled up or down. It affects
/// the visual quality and performance when rendering a texture at a non-native resolution.
#[derive(Clone, Copy, Debug, PartialEq, Eq, Structural)]
pub enum Filter {
    Nearest,
    Linear,
}

/// Defines how texture coordinates outside the range 0 to 1 should behave.
#[derive(Clone, Copy, Debug, PartialEq, Eq, Structural)]
pub enum AddressMode {
    /// Repeats the texture in both directions x and y infinitely.
    /// This is used for tiling textures in repeating patterns.
    Repeat,
    /// Repeats the texture in both directions x and y, but mirrors the texture
    /// along the axes for every repeat. This is useful for creating mirrored effects.
    Mirrored,
    /// Clamps texture coordinates to the [0, 1] range.
    /// Coordinates outside this range are mapped to the nearest valid coordinate,
    /// causing the edges of the texture to appear static.
    ClampToEdge,
    /// When texture coordinates fall outside the range [0, 1],
    /// the color specified in the `Sampler`'s `border_color` is used.
    ClampToBorder,
}

/// Specifies the color to use when the texture address mode is `ClampToBorder`
/// and the texture coordinates fall outside the [0, 1] range.
#[derive(Debug, Clone, Copy, PartialEq, Eq, Structural)]
pub enum BorderColor {
    /// The out-of-bounds area is rendered as transparent.
    Transparent,
    /// The out-of-bounds area is rendered as black.
    Black,
    /// The out-of-bounds area is rendered as white.
    White,
}

/// Defines a sampler for a texture, determining how the shader should sample the texture during rendering.
///
/// The `Sampler` struct encapsulates the filtering and addressing settings that affect how textures are
/// sampled in shaders.
#[derive(Debug, Clone, Copy, PartialEq, Eq)]
pub struct Sampler {
    /// The filtering method used when the texture is scaled up.
    pub mag_filter: Filter,
    /// The filtering method used when the texture is scaled down.
    pub min_filter: Filter,
    /// The filtering method used when sampling from a mipmap level (used for textures that have multiple levels).
    pub mipmap_mode: Filter,
    /// How out of range texture coordinates should be handled.
    pub address_mode: [AddressMode; 3],
    /// Color used for the border when the address mode is on `ClampToBorder`.
    pub border_color: BorderColor,
}

impl Sampler {
    /// The default sampler: nearest magnification, linear minification, nearest mipmap
    /// filtering, clamping to a black border on all three axes.
    pub open spec fn spec_default() -> Sampler {
        Sampler {
            mag_filter: Filter::Nearest,
            min_filter: Filter::Linear,
            mipmap_mode: Filter::Nearest,
            address_mode: [AddressMode::ClampToBorder, AddressMode::ClampToBorder, AddressMode::ClampToBorder],
            border_color: BorderColor::Black,
        }
    }
}

impl Default for Sampler {
    fn default() -> (r: Self)
        ensures
            r == Sampler::spec_default(),
    {
        Self {
            mag_filter: Filter::Nearest,
            min_filter: Filter::Linear,
            mipmap_mode: Filter::Nearest,
            address_mode: [AddressMode::ClampToBorder, AddressMode::ClampToBorder, AddressMode::ClampToBorder],
            border_color: BorderColor::Black,
        }
    }
}

/// Configuration settings for a texture.
///
/// This struct contains settings that influence how a texture is managed and accessed,
/// including its sampler configuration, format, and access preferences.
///
/// `format` is the only field that is not initialized by default in the builder, so its build
/// method returns an uninitialized-field error if it is not set.
#[derive(Debug, Clone, Copy, PartialEq, Eq)]
pub struct TextureSettings {
    /// Specifies the sampling behavior for the texture.
    pub sampler: Sampler,
    /// The number of mip levels stored in the texture, 1 by default.
    pub mip_levels: u32,
    /// Defines the format of the texture data.
    pub format: Format,
    /// Indicates the preferred access operation for the texture.
    /// Defaults to [`BufferAccess::Fixed`], a one time write with no reading or writing.
    ///
    /// The only allowed access patterns accepted for textures are
    /// [`BufferAccess::Fixed`] and [`BufferAccess::Staged`].
    pub access_pattern: BufferAccess,
}

/// Error of [`TextureSettingsBuilder::build`] and [`TextureSettingsBuilder::access_pattern`].
#[derive(Debug, Clone, PartialEq, Eq)]
pub enum TextureSettingsBuilderError {
    /// A required field was not set; holds the field's name.
    UninitializedField(&'static str),
    /// A value was rejected; holds the reason.
    ValidationError(String),
}

/// Builder of [`TextureSettings`].
#[derive(Debug, Clone, PartialEq, Eq)]
pub struct TextureSettingsBuilder {
    sampler: Option<Sampler>,
    mip_levels: Option<u32>,
    format: Option<Format>,
    access_pattern: Option<BufferAccess>,
}

impl TextureSettingsBuilder {
    /// The sampler set so far, if any.
    pub closed spec fn spec_sampler(self) -> Option<Sampler> {
        self.sampler
    }

    /// The mip level count set so far, if any.
    pub closed spec fn spec_mip_levels(self) -> Option<u32> {
        self.mip_levels
    }

    /// The format set so far, if any.
    pub closed spec fn spec_format(self) -> Option<Format> {
        self.format
    }

    /// The access pattern set so far, if any.
    pub closed spec fn spec_access_pattern(self) -> Option<BufferAccess> {
        self.access_pattern
    }

    /// Whether a texture accepts this access pattern: only [`BufferAccess::Fixed`] and
    /// [`BufferAccess::Staged`] are.
    pub open spec fn accepts_access_pattern(pattern: BufferAccess) -> bool {
        pattern is Fixed || pattern is Staged
    }

    /// Sets the sampler.
    pub fn sampler(self, value: Sampler) -> (r: Self)
        ensures
            r.spec_sampler() == Some(value),
            r.spec_mip_levels() == self.spec_mip_levels(),
            r.spec_format() == self.spec_format(),
            r.spec_access_pattern() == self.spec_access_pattern(),
    {
        TextureSettingsBuilder { sampler: Some(value), ..self }
    }

    /// Sets the number of mip levels.
    pub fn mip_levels(self, value: u32) -> (r: Self)
        ensures
            r.spec_mip_levels() == Some(value),
            r.spec_sampler() == self.spec_sampler(),
            r.spec_format() == self.spec_format(),
            r.spec_access_pattern() == self.spec_access_pattern(),
    {
        TextureSettingsBuilder { mip_levels: Some(value), ..self }
    }

    /// Sets the format.
    pub fn format(self, value: Format) -> (r: Self)
        ensures
            r.spec_format() == Some(value),
            r.spec_sampler() == self.spec_sampler(),
            r.spec_mip_levels() == self.spec_mip_levels(),
            r.spec_access_pattern() == self.spec_access_pattern(),
    {
        TextureSettingsBuilder { format: Some(value), ..self }
    }

    /// Sets the access pattern, accepting only [`BufferAccess::Fixed`] and
    /// [`BufferAccess::Staged`]; any other pattern gives a validation error.
    pub fn access_pattern(self, pattern: BufferAccess) -> (r: Result<Self, TextureSettingsBuilderError>)
        ensures
            r is Ok <==> Self::accepts_access_pattern(pattern),
            r matches Ok(b) ==> b.spec_access_pattern() == Some(pattern) && b.spec_sampler()
                == self.spec_sampler() && b.spec_mip_levels() == self.spec_mip_levels()
                && b.spec_format() == self.spec_format(),
            r matches Err(e) ==> e is ValidationError,
    {
        match pattern {
            BufferAccess::Fixed | BufferAccess::Staged => {
                Ok(TextureSettingsBuilder { access_pattern: Some(pattern), ..self })
            },
            _ => Err(
                TextureSettingsBuilderError::ValidationError(
                    "Unsupported BufferAccess variant".to_owned(),
                ),
            ),
        }
    }

    /// Builds the settings: the format must have been set; the sampler defaults to
    /// [`Sampler::default`], the mip levels to 1 and the access pattern to
    /// [`BufferAccess::Fixed`].
    pub fn build(self) -> (r: Result<TextureSettings, TextureSettingsBuilderError>)
        ensures
            r is Ok <==> self.spec_format() is Some,
            r matches Ok(s) ==> s.format == self.spec_format()->0 && s.sampler == (
            match self.spec_sampler() {
                Some(v) => v,
                None => Sampler::spec_default(),
            }) && s.mip_levels == (match self.spec_mip_levels() {
                Some(v) => v,
                None => 1,
            }) && s.access_pattern == (match self.spec_access_pattern() {
                Some(v) => v,
                None => BufferAccess::Fixed,
            }),
            r matches Err(e) ==> e == TextureSettingsBuilderError::UninitializedField("format"),
    {
        let format = match self.format {
            Some(f) => f,
            None => {
                return Err(TextureSettingsBuilderError::UninitializedField("format"));
            },
        };
        let sampler = match self.sampler {
            Some(s) => s,
            None => Sampler::default(),
        };
        let mip_levels = match self.mip_levels {
            Some(m) => m,
            None => 1,
        };
        let access_pattern = match self.access_pattern {
            Some(a) => a,
            None => BufferAccess::Fixed,
        };
        Ok(TextureSettings { sampler, mip_levels, format, access_pattern })
    }
}

impl Default for TextureSettingsBuilder {
    fn default() -> (r: Self)
        ensures
            r.spec_sampler() is None,
            r.spec_mip_levels() is None,
            r.spec_format() is None,
            r.spec_access_pattern() is None,
    {
        TextureSettingsBuilder { sampler: None, mip_levels: None, format: None, access_pattern: None }
    }
}

/// `e` halved `k` times, rounding down each time: the extent of mip level `k` before it is
/// clamped to at least 1.
pub open spec fn halved(e: nat, k: nat) -> nat
    decreases k,
{
    if k == 0 {
        e
    } else {
        halved(e, (k - 1) as nat) / 2
    }
}

/// The extent of mip level `k` of an image of extent `e`: `e` halved `k` times, at least 1.
pub open spec fn mip_extent(e: nat, k: nat) -> nat {
    let h = halved(e, k);
    if h >= 1 {
        h
    } else {
        1
    }
}

/// `a / b` rounded up.
pub open spec fn ceil_div(a: nat, b: nat) -> nat {
    if a % b == 0 {
        a / b
    } else {
        a / b + 1
    }
}

/// Errors that are possible when creating textures.
#[derive(Debug, Clone, Copy, PartialEq, Eq, Structural)]
pub enum TextureError {
    /// The texture data does not match with the provided format in the texture from bytes method.
    InvalidFormat,
    /// The size of the texture does not match with the given dimensions or format size:
    /// the expected size, then the given size.
    InvalidSize(usize, usize),
    /// Gets returned when trying to create a texture with either width, height, depth or layer size set to 0.
    ZeroedDimension,
    /// Gets returned when trying to create a texture with a mip level not in valid range:
    /// the given level, then the maximum level. The minimum is 1.
    InvalidMipLevel(u32, u32),
}

/// An unloaded texture instance.
///
/// This does not contain a reference and is slow to clone, if textures are big.
#[derive(Debug, PartialEq)]
pub struct Texture {
    data: Vec<u8>,
    dimensions: ViewTypeDim,
    settings: TextureSettings,
}

impl Clone for Texture {
    fn clone(&self) -> (r: Self)
        ensures
            r.spec_data() == self.spec_data(),
            r.spec_dimensions() == self.spec_dimensions(),
            r.spec_settings() == self.spec_settings(),
            r.wf() == self.wf(),
    {
        Texture { data: self.data.clone(), dimensions: self.dimensions, settings: self.settings }
    }
}

impl Texture {
    /// The number of bytes of mip level `k`: the blocks across, times the blocks down, times
    /// the depth, times the bytes of one block.
    pub open spec fn spec_mip_bytes(dimensions: ViewTypeDim, settings: TextureSettings, k: nat) -> int {
        let e = dimensions.spec_extent();
        let be = settings.format.spec_block_extent();
        ceil_div(mip_extent(e[0] as nat, k), be[0] as nat) * ceil_div(
            mip_extent(e[1] as nat, k),
            be[1] as nat,
        ) * mip_extent(e[2] as nat, k) * settings.format.spec_block_size()
    }

    /// The number of bytes of the first `n` mip levels of every image: every array layer, and
    /// every side of a cube.
    pub open spec fn spec_bytes_upto(dimensions: ViewTypeDim, settings: TextureSettings, n: nat) -> int
        decreases n,
    {
        if n == 0 {
            0
        } else {
            Self::spec_bytes_upto(dimensions, settings, (n - 1) as nat) + Self::spec_mip_bytes(
                dimensions,
                settings,
                (n - 1) as nat,
            ) * dimensions.spec_images()
        }
    }

    /// The number of bytes of a texture: every mip level of every array layer, six times over
    /// for the cube views.
    pub open spec fn spec_buffer_size(dimensions: ViewTypeDim, settings: TextureSettings) -> int {
        Self::spec_bytes_upto(dimensions, settings, settings.mip_levels as nat)
    }

    /// Whether the size of every mip level and the whole size fit a `u32`, the type in which
    /// they are computed.
    pub open spec fn spec_size_fits(dimensions: ViewTypeDim, settings: TextureSettings) -> bool {
        &&& forall|k: nat|
            k < settings.mip_levels ==> #[trigger] Self::spec_mip_bytes(dimensions, settings, k)
                <= u32::MAX
        &&& Self::spec_buffer_size(dimensions, settings) <= u32::MAX
    }

    /// The bytes of this texture.
    pub closed spec fn spec_data(&self) -> Seq<u8> {
        self.data@
    }

    /// The dimensions of this texture.
    pub closed spec fn spec_dimensions(&self) -> ViewTypeDim {
        self.dimensions
    }

    /// The settings of this texture.
    pub closed spec fn spec_settings(&self) -> TextureSettings {
        self.settings
    }

    /// A texture holds exactly as many bytes as its dimensions and settings call for.
    pub closed spec fn wf(&self) -> bool {
        self.data@.len() == Self::spec_buffer_size(self.dimensions, self.settings)
    }

    /// Returns the number of bytes a texture of these dimensions and settings holds:
    /// for every mip level the blocks across times the blocks down times the depth times the
    /// block size, times the array layers, times six for the sides of a cube.
    pub fn calculate_buffer_size(dimensions: &ViewTypeDim, settings: &TextureSettings) -> (r: usize)
        requires
            Self::spec_size_fits(*dimensions, *settings),
        ensures
            r == Self::spec_buffer_size(*dimensions, *settings),
    {
        let mut total_size: u32 = 0;
        let mip_levels = settings.mip_levels;
        let extent = dimensions.extent();
        let block_extent = settings.format.block_extent();
        let block_size = settings.format.block_size();
        let layers = dimensions.array_layers();
        let faces = dimensions.faces();
        let mut width = extent[0];
        let mut height = extent[1];
        let mut depth = extent[2];
        let mut mip: u32 = 0;
        while mip < mip_levels
            invariant
                Self::spec_size_fits(*dimensions, *settings),
                faces == (if dimensions.is_cube() { 6int } else { 1int }),
                mip_levels == settings.mip_levels,
                mip <= mip_levels,
                extent@ == dimensions.spec_extent(),
                block_extent@ == settings.format.spec_block_extent(),
                block_extent[0] >= 1 && block_extent[1] >= 1,
                block_size == settings.format.spec_block_size(),
                1 <= block_size <= 16,
                layers == dimensions.spec_array_layers(),
                width == halved(extent[0] as nat, mip as nat),
                height == halved(extent[1] as nat, mip as nat),
                depth == halved(extent[2] as nat, mip as nat),
                total_size == Self::spec_bytes_upto(*dimensions, *settings, mip as nat),
            decreases mip_levels - mip,
        {
            let mip_width = if width >= 1 { width } else { 1 };
            let mip_height = if height >= 1 { height } else { 1 };
            let mip_depth = if depth >= 1 { depth } else { 1 };
            let num_blocks_x = div_ceil(mip_width, block_extent[0]);
            let num_blocks_y = div_ceil(mip_height, block_extent[1]);
            proof {
                let ghost k = mip as nat;
                assert(Self::spec_mip_bytes(*dimensions, *settings, k) <= u32::MAX);
                lemma_ceil_div_positive(mip_width as nat, block_extent[0] as nat);
                lemma_ceil_div_positive(mip_height as nat, block_extent[1] as nat);
                lemma_factor_le(num_blocks_x as int, num_blocks_y as int);
                lemma_factor_le(num_blocks_x * num_blocks_y, mip_depth as int);
                lemma_factor_le(num_blocks_x * num_blocks_y * mip_depth, block_size as int);
                Self::lemma_bytes_upto_monotone(*dimensions, *settings, k + 1, mip_levels as nat);
            }
            let mip_size = num_blocks_x * num_blocks_y * mip_depth * block_size as u32;
            proof {
                lemma_images_term(mip_size as int, layers as int, faces as int);
            }
            total_size = total_size + mip_size * layers * faces;
            width = width / 2;
            height = height / 2;
            depth = depth / 2;
            mip = mip + 1;
        }
        total_size as usize
    }

    /// The error that creating a texture of `len` bytes with these dimensions and settings
    /// gives, checked in this order: a zero extent or layer count, a mip level count of 0,
    /// a byte count other than the buffer size, a mip level count above the maximum.
    pub open spec fn spec_raw_error(len: int, dimensions: ViewTypeDim, settings: TextureSettings) -> Option<TextureError> {
        if dimensions.has_zero_dimension() {
            Some(TextureError::ZeroedDimension)
        } else if settings.mip_levels == 0 {
            Some(TextureError::InvalidMipLevel(0, dimensions.spec_max_mip_level() as u32))
        } else if len != Self::spec_buffer_size(dimensions, settings) {
            Some(TextureError::InvalidSize(Self::spec_buffer_size(dimensions, settings) as usize, len as usize))
        } else if settings.mip_levels > dimensions.spec_max_mip_level() {
            Some(TextureError::InvalidMipLevel(settings.mip_levels, dimensions.spec_max_mip_level() as u32))
        } else {
            None
        }
    }

    /// Creates a CPU-side texture definition that can be loaded by the graphics backend.
    ///
    /// # Parameters
    /// - `data`: A vector of raw bytes containing the texture data.
    /// - `dimensions`: A type specifying the texture dimensions and view type.
    /// - `settings`: The texture settings, including format, sampler, and access preferences.
    ///
    /// # Errors
    /// - [`TextureError::ZeroedDimension`] if any dimension provided in `dimensions` equals zero.
    /// - [`TextureError::InvalidSize`] if the size of `data` does not match the expected size.
    /// - [`TextureError::InvalidMipLevel`] if the mip level is out of accepted range.
    pub fn from_raw(data: Vec<u8>, dimensions: ViewTypeDim, settings: TextureSettings) -> (r: Result<Texture, TextureError>)
        requires
            Self::spec_size_fits(dimensions, settings),
        ensures
            r is Ok <==> Self::spec_raw_error(data@.len() as int, dimensions, settings) is None,
            r matches Err(e) ==> Some(e) == Self::spec_raw_error(data@.len() as int, dimensions, settings),
            r matches Ok(t) ==> t.wf() && t.spec_data() == data@ && t.spec_dimensions() == dimensions
                && t.spec_settings() == settings,
    {
        let expected_size = Self::calculate_buffer_size(&dimensions, &settings);
        let extent = dimensions.extent();
        if extent[0] == 0 || extent[1] == 0 || extent[2] == 0 || dimensions.array_layers() == 0 {
            return Err(TextureError::ZeroedDimension);
        }
        let max_mip_level = dimensions.max_mip_level();
        if settings.mip_levels == 0 {
            return Err(TextureError::InvalidMipLevel(0, max_mip_level));
        }
        if data.len() != expected_size {
            return Err(TextureError::InvalidSize(expected_size, data.len()));
        }
        if settings.mip_levels > max_mip_level {
            return Err(TextureError::InvalidMipLevel(settings.mip_levels, max_mip_level));
        }
        Ok(Texture { data, dimensions, settings })
    }

    /// Creates a new texture repetitively filled with the same data.
    ///
    /// Returns an error in case the length of the provided data does not match up with the format
    /// block size in the settings; otherwise fails as [`Texture::from_raw`] does on data of the
    /// right size.
    pub fn new_filled(data: Vec<u8>, dimensions: ViewTypeDim, settings: TextureSettings) -> (r: Result<Self, TextureError>)
        requires
            Self::spec_size_fits(dimensions, settings),
        ensures
            data@.len() != settings.format.spec_block_size() ==> r == Err::<Self, TextureError>(
                TextureError::InvalidSize(settings.format.spec_block_size(), data@.len() as usize),
            ),
            data@.len() == settings.format.spec_block_size() ==> {
                let size = Self::spec_buffer_size(dimensions, settings);
                &&& r is Ok <==> Self::spec_raw_error(size, dimensions, settings) is None
                &&& r matches Err(e) ==> Some(e) == Self::spec_raw_error(size, dimensions, settings)
                &&& r matches Ok(t) ==> t.wf() && t.spec_dimensions() == dimensions && t.spec_settings() == settings
                    && t.spec_data().len() == size && forall|i: int|
                    0 <= i < size ==> #[trigger] t.spec_data()[i] == data@[i % (data@.len() as int)]
            },
    {
        let block_size = settings.format.block_size();
        if data.len() != block_size {
            return Err(TextureError::InvalidSize(block_size, data.len()));
        }
        let size = Self::calculate_buffer_size(&dimensions, &settings);
        proof {
            Self::lemma_buffer_size_multiple(dimensions, settings, settings.mip_levels as nat);
        }
        let length = size / block_size;
        let mut filled: Vec<u8> = Vec::new();
        let mut n: usize = 0;
        while n < length
            invariant
                n <= length,
                length * block_size == size,
                data@.len() == block_size,
                1 <= block_size,
                filled@.len() == n * block_size,
                forall|i: int| 0 <= i < filled@.len() ==> #[trigger] filled@[i] == data@[i % (block_size as int)],
            decreases length - n,
        {
            let mut j: usize = 0;
            let ghost start = filled@.len();
            proof {
                lemma_mul_step(n as int, length as int, block_size as int);
            }
            while j < block_size
                invariant
                    j <= block_size,
                    n < length,
                    length * block_size == size,
                    data@.len() == block_size,
                    1 <= block_size,
                    start == n * block_size,
                    (n + 1) * block_size <= size,
                    filled@.len() == start + j,
                    forall|i: int| 0 <= i < filled@.len() ==> #[trigger] filled@[i] == data@[i % (block_size as int)],
                decreases block_size - j,
            {
                proof {
                    lemma_mod_of_block(n as int, j as int, block_size as int);
                }
                filled.push(data[j]);
                j = j + 1;
            }
            proof {
                assert((n + 1) * block_size == n * block_size + block_size) by (nonlinear_arith);
            }
            n = n + 1;
        }
        Self::from_raw(filled, dimensions, settings)
    }

    /// Creates a new texture made completely out of zeroes and depending on the format either
    /// black or transparent. Fails as [`Texture::from_raw`] does on data of the right size.
    pub fn new_empty(dimensions: ViewTypeDim, settings: TextureSettings) -> (r: Result<Self, TextureError>)
        requires
            Self::spec_size_fits(dimensions, settings),
        ensures
            ({
                let size = Self::spec_buffer_size(dimensions, settings);
                &&& r is Ok <==> Self::spec_raw_error(size, dimensions, settings) is None
                &&& r matches Err(e) ==> Some(e) == Self::spec_raw_error(size, dimensions, settings)
                &&& r matches Ok(t) ==> t.wf() && t.spec_dimensions() == dimensions && t.spec_settings() == settings
                    && t.spec_data() == Seq::new(size as nat, |i: int| 0u8)
            }),
    {
        let size = Self::calculate_buffer_size(&dimensions, &settings);
        let data: Vec<u8> = zeroed(size);
        Self::from_raw(data, dimensions, settings)
    }

    /// The byte count of any prefix of the mip levels is a multiple of the block size.
    proof fn lemma_buffer_size_multiple(dimensions: ViewTypeDim, settings: TextureSettings, n: nat)
        ensures
            Self::spec_bytes_upto(dimensions, settings, n) % settings.format.spec_block_size() as int == 0,
        decreases n,
    {
        let bs = settings.format.spec_block_size() as int;
        lemma_format_block_size_positive(settings.format);
        if n > 0 {
            Self::lemma_buffer_size_multiple(dimensions, settings, (n - 1) as nat);
            let e = dimensions.spec_extent();
            let be = settings.format.spec_block_extent();
            let p = ceil_div(mip_extent(e[0] as nat, (n - 1) as nat), be[0] as nat) * ceil_div(
                mip_extent(e[1] as nat, (n - 1) as nat),
                be[1] as nat,
            ) * mip_extent(e[2] as nat, (n - 1) as nat);
            let l = dimensions.spec_images();
            let prev = Self::spec_bytes_upto(dimensions, settings, (n - 1) as nat);
            assert(Self::spec_mip_bytes(dimensions, settings, (n - 1) as nat) == p * bs);
            vstd::arithmetic::div_mod::lemma_mod_multiples_vanish(p * l, prev, bs);
            assert(bs * (p * l) + prev == prev + p * bs * l) by (nonlinear_arith);
        }
    }

    /// Returns a texture data slice.
    pub fn data(&self) -> (r: &[u8])
        ensures
            r@ == self.spec_data(),
    {
        self.data.as_slice()
    }

    /// Returns a mutable slice containing the data of this texture.
    pub fn data_mut(&mut self) -> (r: &mut [u8])
        ensures
            r@ == old(self).spec_data(),
            final(self).spec_data() == final(r)@,
            final(self).spec_dimensions() == old(self).spec_dimensions(),
            final(self).spec_settings() == old(self).spec_settings(),
            final(r)@.len() == r@.len() ==> final(self).wf() == old(self).wf(),
    {
        self.data.as_mut_slice()
    }

    /// Returns the dimensions of this texture.
    pub fn dimensions(&self) -> (r: &ViewTypeDim)
        ensures
            *r == self.spec_dimensions(),
    {
        &self.dimensions
    }

    /// Returns the settings of this texture.
    pub fn settings(&self) -> (r: &TextureSettings)
        ensures
            *r == self.spec_settings(),
    {
        &self.settings
    }

    /// Sets the sampler of the settings of this texture.
    pub fn set_sampler(&mut self, sampler: Sampler)
        ensures
            final(self).spec_settings() == (TextureSettings { sampler, ..old(self).spec_settings() }),
            final(self).spec_data() == old(self).spec_data(),
            final(self).spec_dimensions() == old(self).spec_dimensions(),
            final(self).wf() == old(self).wf(),
    {
        proof {
            Self::lemma_size_ignores_sampler(
                self.dimensions,
                self.settings,
                TextureSettings { sampler, ..self.settings },
                self.settings.mip_levels as nat,
            );
        }
        self.settings.sampler = sampler;
    }

    /// The byte count depends on the format and the mip levels, not on the sampler or the
    /// access pattern.
    proof fn lemma_size_ignores_sampler(dimensions: ViewTypeDim, s1: TextureSettings, s2: TextureSettings, n: nat)
        requires
            s1.format == s2.format,
        ensures
            Self::spec_bytes_upto(dimensions, s1, n) == Self::spec_bytes_upto(dimensions, s2, n),
        decreases n,
    {
        if n > 0 {
            Self::lemma_size_ignores_sampler(dimensions, s1, s2, (n - 1) as nat);
        }
    }

    /// Resizes this texture to the given dimensions, leaving the previous image at the top-left corner
    /// and filling the new area with zeroed data.
    ///
    /// - If the `target_dimensions` are **larger** than the current texture, the additional area is filled with zeros.
    /// - If the `target_dimensions` are **smaller**, the out-of-bounds data is discarded.
    ///
    /// The rows copied are those of the first image (first mip level, first layer), each
    /// texel taken as one block of the format.
    pub fn resize(&mut self, target_dimensions: ViewTypeDim)
        requires
            old(self).wf(),
            Self::spec_size_fits(target_dimensions, old(self).spec_settings()),
            old(self).spec_resize_in_bounds(target_dimensions),
        ensures
            final(self).wf(),
            final(self).spec_dimensions() == target_dimensions,
            final(self).spec_settings() == old(self).spec_settings(),
            final(self).spec_data() == spec_resized(
                old(self).spec_data(),
                old(self).spec_dimensions().spec_extent(),
                target_dimensions.spec_extent(),
                old(self).spec_settings().format.spec_block_size() as int,
                Self::spec_buffer_size(target_dimensions, old(self).spec_settings()) as nat,
            ),
    {
        let old_extent = self.dimensions.extent();
        let new_extent = target_dimensions.extent();
        let c0 = min_u32_exec(old_extent[0], new_extent[0]) as usize;
        let c1 = min_u32_exec(old_extent[1], new_extent[1]) as usize;
        let c2 = min_u32_exec(old_extent[2], new_extent[2]) as usize;
        let o0 = old_extent[0] as usize;
        let o1 = old_extent[1] as usize;
        let n0 = new_extent[0] as usize;
        let n1 = new_extent[1] as usize;
        let block_size = self.settings.format.block_size();
        let new_expected_size = Self::calculate_buffer_size(&target_dimensions, &self.settings);
        let mut new_texture: Vec<u8> = zeroed(new_expected_size);
        let ghost o = old_extent@;
        let ghost n = new_extent@;
        let ghost bs = block_size as int;
        let ghost old_data = self.data@;
        let ghost len = new_expected_size as nat;
        proof {
            lemma_copy_done(old_data, o, n, bs, len as int);
            assert(self.data@.len() == self.data.len());
        }
        let mut z: usize = 0;
        while z < c2
            invariant
                0 <= z <= c2,
                c0 == min_u32(o[0], n[0]),
                c1 == min_u32(o[1], n[1]),
                c2 == min_u32(o[2], n[2]),
                o0 == o[0],
                o1 == o[1],
                n0 == n[0],
                n1 == n[1],
                o.len() == 3,
                n.len() == 3,
                bs == block_size,
                1 <= block_size <= 16,
                old_data == self.data@,
                old_data.len() <= usize::MAX,
                len <= usize::MAX,
                new_texture@.len() == len,
                spec_copy_in_bounds(old_data.len() as int, len as int, o, n, bs),
                forall|i: int| 0 <= i < len ==> #[trigger] new_texture@[i] == spec_partially_resized(
                    old_data, o, n, bs, i, z as int, 0, 0),
            decreases c2 - z,
        {
            let mut y: usize = 0;
            while y < c1
                invariant
                    0 <= z < c2,
                    0 <= y <= c1,
                    c0 == min_u32(o[0], n[0]),
                    c1 == min_u32(o[1], n[1]),
                    c2 == min_u32(o[2], n[2]),
                    o0 == o[0],
                    o1 == o[1],
                    n0 == n[0],
                    n1 == n[1],
                    o.len() == 3,
                    n.len() == 3,
                    bs == block_size,
                    1 <= block_size <= 16,
                    old_data == self.data@,
                    old_data.len() <= usize::MAX,
                    len <= usize::MAX,
                    new_texture@.len() == len,
                    spec_copy_in_bounds(old_data.len() as int, len as int, o, n, bs),
                    forall|i: int| 0 <= i < len ==> #[trigger] new_texture@[i] == spec_partially_resized(
                        old_data, o, n, bs, i, z as int, y as int, 0),
                decreases c1 - y,
            {
                proof {
                    lemma_row_bounds(old_data.len() as int, len as int, o, n, bs, z as int, y as int);
                }
                let old_row_start = (z * o0 * o1 * block_size) + (y * o0 * block_size);
                let new_row_start = (z * n0 * n1 * block_size) + (y * n0 * block_size);
                let row_len = c0 * block_size;
                let mut x: usize = 0;
                while x < row_len
                    invariant
                        0 <= z < c2,
                        0 <= y < c1,
                        0 <= x <= row_len,
                        row_len == c0 * bs,
                        c0 == min_u32(o[0], n[0]),
                        c1 == min_u32(o[1], n[1]),
                        c2 == min_u32(o[2], n[2]),
                        o.len() == 3,
                        n.len() == 3,
                        bs == block_size,
                        1 <= block_size <= 16,
                        old_row_start == z * o[0] * o[1] * bs + y * o[0] * bs,
                        new_row_start == z * n[0] * n[1] * bs + y * n[0] * bs,
                        old_row_start + row_len <= old_data.len(),
                        new_row_start + row_len <= len,
                        old_data == self.data@,
                        old_data.len() <= usize::MAX,
                        len <= usize::MAX,
                        new_texture@.len() == len,
                        forall|i: int| 0 <= i < len ==> #[trigger] new_texture@[i] == spec_partially_resized(
                            old_data, o, n, bs, i, z as int, y as int, x as int),
                    decreases row_len - x,
                {
                    proof {
                        lemma_write_step(old_data, o, n, bs, len as int, z as int, y as int, x as int);
                    }
                    new_texture.set(new_row_start + x, self.data[old_row_start + x]);
                    x = x + 1;
                }
                proof {
                    lemma_next_row(old_data, o, n, bs, len as int, z as int, y as int);
                }
                y = y + 1;
            }
            proof {
                lemma_next_plane(old_data, o, n, bs, len as int, z as int);
            }
            z = z + 1;
        }
        proof {
            lemma_copy_done(old_data, o, n, bs, len as int);
            assert(new_texture@ =~= spec_resized(old_data, o, n, bs, len));
        }
        self.data = new_texture;
        self.dimensions = target_dimensions;
    }

    /// Whether every row that [`Texture::resize`] copies lies within the old data and within
    /// a buffer of the size of the target dimensions.
    pub open spec fn spec_resize_in_bounds(&self, target_dimensions: ViewTypeDim) -> bool {
        spec_copy_in_bounds(
            self.spec_data().len() as int,
            Self::spec_buffer_size(target_dimensions, self.spec_settings()),
            self.spec_dimensions().spec_extent(),
            target_dimensions.spec_extent(),
            self.spec_settings().format.spec_block_size() as int,
        )
    }

    /// Returns whether the size of every mip level and the whole size of a texture of these
    /// dimensions and settings fit a `u32`: whether the size computations of
    /// [`Texture::calculate_buffer_size`] and the constructors stay in range.
    pub fn buffer_size_fits(dimensions: &ViewTypeDim, settings: &TextureSettings) -> (r: bool)
        ensures
            r == Self::spec_size_fits(*dimensions, *settings),
    {
        let mut total: u128 = 0;
        let mip_levels = settings.mip_levels;
        let extent = dimensions.extent();
        let block_extent = settings.format.block_extent();
        let block_size = settings.format.block_size();
        let layers = dimensions.array_layers();
        let faces = dimensions.faces();
        let mut width = extent[0];
        let mut height = extent[1];
        let mut depth = extent[2];
        let mut mip: u32 = 0;
        while mip < mip_levels
            invariant
                mip_levels == settings.mip_levels,
                mip <= mip_levels,
                extent@ == dimensions.spec_extent(),
                block_extent@ == settings.format.spec_block_extent(),
                block_extent[0] >= 1 && block_extent[1] >= 1,
                block_size == settings.format.spec_block_size(),
                1 <= block_size <= 16,
                layers == dimensions.spec_array_layers(),
                faces == (if dimensions.is_cube() { 6int } else { 1int }),
                width == halved(extent[0] as nat, mip as nat),
                height == halved(extent[1] as nat, mip as nat),
                depth == halved(extent[2] as nat, mip as nat),
                total == Self::spec_bytes_upto(*dimensions, *settings, mip as nat),
                total <= u32::MAX,
                forall|k: nat| k < mip ==> #[trigger] Self::spec_mip_bytes(*dimensions, *settings, k) <= u32::MAX,
            decreases mip_levels - mip,
        {
            let mip_width = if width >= 1 { width } else { 1 };
            let mip_height = if height >= 1 { height } else { 1 };
            let mip_depth = if depth >= 1 { depth } else { 1 };
            let num_blocks_x = div_ceil(mip_width, block_extent[0]);
            let num_blocks_y = div_ceil(mip_height, block_extent[1]);
            proof {
                lemma_u128_product_bounds(num_blocks_x, num_blocks_y, mip_depth, block_size as u32);
            }
            let mip_size: u128 = num_blocks_x as u128 * num_blocks_y as u128 * mip_depth as u128
                * block_size as u128;
            if mip_size > 4294967295 {
                proof {
                    assert(Self::spec_mip_bytes(*dimensions, *settings, mip as nat) == mip_size);
                }
                return false;
            }
            proof {
                lemma_u128_term_bound(mip_size, layers, faces);
                lemma_images_term(mip_size as int, layers as int, faces as int);
            }
            let term: u128 = mip_size * layers as u128 * faces as u128;
            total = total + term;
            if total > 4294967295 {
                proof {
                    Self::lemma_bytes_upto_monotone(*dimensions, *settings, mip as nat + 1, mip_levels as nat);
                }
                return false;
            }
            width = width / 2;
            height = height / 2;
            depth = depth / 2;
            mip = mip + 1;
        }
        true
    }

    /// Creates a two-dimensional texture from an image decoded into plain values, choosing the
    /// format from its samples as [`Texture::from_bytes`] does; `None` stands for an image that
    /// could not be decoded.
    pub fn from_decoded(img: Option<DecodedImage>, settings: TextureSettings) -> (r: Result<Self, TextureError>)
        requires
            spec_decoded_size_fits(
                match img {
                    Some(i) => Some(i.value()),
                    None => None,
                },
                settings,
            ),
        ensures
            ({
                let v = match img {
                    Some(i) => Some(i.value()),
                    None => None,
                };
                &&& r is Ok <==> spec_from_decoded_error(v, settings) is None
                &&& r matches Err(e) ==> Some(e) == spec_from_decoded_error(v, settings)
                &&& r matches Ok(t) ==> t.wf() && t.spec_dimensions() == decoded_dimensions(v->0)
                    && t.spec_settings() == with_format(settings, decoded_format(v->0))
                    && t.spec_data() == decoded_data(v->0)
            }),
    {
        let img = match img {
            Some(i) => i,
            None => {
                return Err(TextureError::InvalidFormat);
            },
        };
        let format = match texture_format_of(&img) {
            Some(format) => format,
            None => {
                return Err(TextureError::InvalidFormat);
            },
        };
        let width = img.width;
        let height = img.height;
        let data = match img.bytes {
            Some(bytes) => bytes,
            None => match img.words {
                Some(words) => words_to_le_bytes(&words),
                None => match img.floats {
                    Some(floats) => floats,
                    None => Vec::new(),
                },
            },
        };
        let settings = TextureSettings { format, ..settings };
        Self::from_raw(data, ViewTypeDim::D2 { x: width, y: height }, settings)
    }

    /// Creates a texture from the bytes of an encoded image of the given image format.
    ///
    /// The view type is two-dimensional and the format is chosen from the decoded samples;
    /// [`TextureError::InvalidFormat`] comes back when the bytes do not decode or decode to
    /// samples no texture format holds.
    pub fn from_bytes(data: Vec<u8>, image_format: ImageFormat, settings: TextureSettings) -> (r: Result<Self, TextureError>)
        requires
            spec_decoded_size_fits(decoded_image(data@, image_format), settings),
        ensures
            ({
                let v = decoded_image(data@, image_format);
                &&& r is Ok <==> spec_from_decoded_error(v, settings) is None
                &&& r matches Err(e) ==> Some(e) == spec_from_decoded_error(v, settings)
                &&& r matches Ok(t) ==> t.wf() && t.spec_dimensions() == decoded_dimensions(v->0)
                    && t.spec_settings() == with_format(settings, decoded_format(v->0))
                    && t.spec_data() == decoded_data(v->0)
            }),
    {
        let img = decode_image(data, image_format);
        Self::from_decoded(img, settings)
    }

    /// Like [`Texture::from_bytes`], but gives `None` instead of making the texture when the
    /// sizes of the decoded image do not fit the size computations' range.
    pub fn try_from_bytes(data: Vec<u8>, image_format: ImageFormat, settings: TextureSettings) -> (r: Option<Result<Self, TextureError>>)
        ensures
            ({
                let v = decoded_image(data@, image_format);
                &&& r is None <==> !spec_decoded_size_fits(v, settings)
                &&& r matches Some(res) ==> {
                    &&& res is Ok <==> spec_from_decoded_error(v, settings) is None
                    &&& res matches Err(e) ==> Some(e) == spec_from_decoded_error(v, settings)
                    &&& res matches Ok(t) ==> t.wf() && t.spec_dimensions() == decoded_dimensions(v->0)
                        && t.spec_settings() == with_format(settings, decoded_format(v->0))
                        && t.spec_data() == decoded_data(v->0)
                }
            }),
    {
        let img = decode_image(data, image_format);
        if let Some(i) = &img {
            if let Some(format) = texture_format_of(i) {
                let dimensions = ViewTypeDim::D2 { x: i.width, y: i.height };
                if !Self::buffer_size_fits(&dimensions, &TextureSettings { format, ..settings }) {
                    return None;
                }
            }
        }
        Some(Self::from_decoded(img, settings))
    }

    /// The byte count of a prefix of the mip levels never exceeds that of a longer prefix.
    proof fn lemma_bytes_upto_monotone(dimensions: ViewTypeDim, settings: TextureSettings, a: nat, b: nat)
        requires
            a <= b,
        ensures
            Self::spec_bytes_upto(dimensions, settings, a) <= Self::spec_bytes_upto(dimensions, settings, b),
        decreases b - a,
    {
        if a < b {
            Self::lemma_bytes_upto_monotone(dimensions, settings, a, (b - 1) as nat);
            Self::lemma_mip_bytes_nonneg(dimensions, settings, (b - 1) as nat);
            let m = Self::spec_mip_bytes(dimensions, settings, (b - 1) as nat);
            let l = dimensions.spec_images();
            assert(m * l >= 0) by (nonlinear_arith)
                requires
                    m >= 0,
                    l >= 0,
            ;
        }
    }

    /// Every mip level holds at least one byte.
    proof fn lemma_mip_bytes_nonneg(dimensions: ViewTypeDim, settings: TextureSettings, k: nat)
        ensures
            Self::spec_mip_bytes(dimensions, settings, k) >= 1,
    {
        let e = dimensions.spec_extent();
        let be = settings.format.spec_block_extent();
        lemma_format_block_extent_positive(settings.format);
        let x = ceil_div(mip_extent(e[0] as nat, k), be[0] as nat) as int;
        let y = ceil_div(mip_extent(e[1] as nat, k), be[1] as nat) as int;
        let z = mip_extent(e[2] as nat, k) as int;
        let s = settings.format.spec_block_size() as int;
        lemma_ceil_div_positive(mip_extent(e[0] as nat, k), be[0] as nat);
        lemma_ceil_div_positive(mip_extent(e[1] as nat, k), be[1] as nat);
        lemma_format_block_size_positive(settings.format);
        assert(x * y * z * s >= 1) by (nonlinear_arith)
            requires
                x >= 1,
                y >= 1,
                z >= 1,
                s >= 1,
        ;
    }
}

/// Every block extent is at least one texel.
proof fn lemma_format_block_extent_positive(f: Format)
    ensures
        f.spec_block_extent().len() == 2,
        f.spec_block_extent()[0] >= 1,
        f.spec_block_extent()[1] >= 1,
{
}

/// Every block holds at least one byte.
proof fn lemma_format_block_size_positive(f: Format)
    ensures
        1 <= f.spec_block_size() <= 16,
{
}

/// Rounding up the division of a positive number gives a positive number.
proof fn lemma_ceil_div_positive(a: nat, b: nat)
    requires
        a >= 1,
        b >= 1,
    ensures
        ceil_div(a, b) >= 1,
        ceil_div(a, b) <= a,
{
    if a % b == 0 {
        assert(a / b >= 1) by (nonlinear_arith)
            requires
                a >= 1,
                b >= 1,
                a % b == 0,
        ;
        assert(a / b <= a) by (nonlinear_arith)
            requires
                a >= 1,
                b >= 1,
        ;
    } else {
        assert(a / b + 1 <= a) by (nonlinear_arith)
            requires
                a >= 1,
                b >= 1,
                a % b != 0,
        ;
    }
}

/// A term of the buffer size computed as `m * l * f`, with `f` sides per layer, is at least its
/// first two factors' product and is `m` times the image count `l * f`.
proof fn lemma_images_term(m: int, l: int, f: int)
    requires
        m >= 0,
        l >= 0,
        f >= 1,
    ensures
        m * l <= m * l * f,
        m * l * f == m * (l * f),
{
    assert(m * l <= m * l * f && m * l * f == m * (l * f)) by (nonlinear_arith)
        requires
            m >= 0,
            l >= 0,
            f >= 1,
    ;
}

/// A factor of a product of positive numbers is at most the product.
proof fn lemma_factor_le(a: int, b: int)
    requires
        a >= 1,
        b >= 1,
    ensures
        a <= a * b,
        a * b >= 1,
{
    assert(a <= a * b && a * b >= 1) by (nonlinear_arith)
        requires
            a >= 1,
            b >= 1,
    ;
}

/// Divides `a` by a positive `b`, rounding up.
fn div_ceil(a: u32, b: u32) -> (r: u32)
    requires
        b >= 1,
    ensures
        r == ceil_div(a as nat, b as nat),
{
    let q = a / b;
    if a % b == 0 {
        q
    } else {
        proof {
            assert(q < u32::MAX) by (nonlinear_arith)
                requires
                    q == a / b,
                    a % b != 0,
                    b >= 1,
                    a <= u32::MAX,
            ;
        }
        q + 1
    }
}

/// A vector of `n` zero bytes.
fn zeroed(n: usize) -> (r: Vec<u8>)
    ensures
        r@ == Seq::new(n as nat, |i: int| 0u8),
{
    let mut v: Vec<u8> = Vec::new();
    let mut k: usize = 0;
    while k < n
        invariant
            k <= n,
            v@ == Seq::new(k as nat, |i: int| 0u8),
        decreases n - k,
    {
        v.push(0);
        k = k + 1;
        proof {
            assert(v@ =~= Seq::new(k as nat, |i: int| 0u8));
        }
    }
    v
}

/// The next block of `b` bytes after `n` blocks still lies within `len` blocks.
proof fn lemma_mul_step(n: int, len: int, b: int)
    requires
        0 <= n < len,
        b >= 1,
    ensures
        (n + 1) * b <= len * b,
        n * b + b == (n + 1) * b,
{
    assert((n + 1) * b <= len * b && n * b + b == (n + 1) * b) by (nonlinear_arith)
        requires
            0 <= n < len,
            b >= 1,
    ;
}

/// Byte `j` of block `n` is byte `j` of the block pattern.
proof fn lemma_mod_of_block(n: int, j: int, b: int)
    requires
        n >= 0,
        0 <= j < b,
    ensures
        (n * b + j) % b == j,
{
    assert((n * b + j) % b == j) by (nonlinear_arith)
        requires
            n >= 0,
            0 <= j < b,
    ;
}

/// The smaller of two numbers.
pub open spec fn min_u32(a: u32, b: u32) -> u32 {
    if a <= b {
        a
    } else {
        b
    }
}

fn min_u32_exec(a: u32, b: u32) -> (r: u32)
    ensures
        r == min_u32(a, b),
{
    if a <= b {
        a
    } else {
        b
    }
}

/// Where byte `i` of a texture resized from extent `o` to extent `n` (`bs` bytes per texel)
/// comes from: byte `i` lies in plane `i / (n[0] * n[1] * bs)`, row `(i % plane) / (n[0] * bs)`,
/// column byte `(i % plane) % (n[0] * bs)`; when plane, row and column byte lie within both
/// images it comes from the same plane, row and column byte of the old data, otherwise from
/// nowhere.
pub open spec fn spec_resize_source(o: Seq<u32>, n: Seq<u32>, bs: int, i: int) -> Option<int> {
    let row = n[0] * bs;
    let plane = n[1] * row;
    if row <= 0 || plane <= 0 {
        None
    } else {
        let z = i / plane;
        let y = (i % plane) / row;
        let x = (i % plane) % row;
        if z < min_u32(o[2], n[2]) && y < min_u32(o[1], n[1]) && x < min_u32(o[0], n[0]) * bs {
            Some(z * o[0] * o[1] * bs + y * o[0] * bs + x)
        } else {
            None
        }
    }
}

/// The `len` bytes of a texture resized from extent `o` to extent `n`: each byte is the old
/// byte it comes from, or zero.
pub open spec fn spec_resized(old: Seq<u8>, o: Seq<u32>, n: Seq<u32>, bs: int, len: nat) -> Seq<u8> {
    Seq::new(
        len,
        |i: int|
            match spec_resize_source(o, n, bs, i) {
                Some(j) => old[j],
                None => 0u8,
            },
    )
}

/// Whether every copied row lies within the old data (`old_len` bytes) and within the new
/// data (`new_len` bytes): the last row of the last plane ends within both.
pub open spec fn spec_copy_in_bounds(old_len: int, new_len: int, o: Seq<u32>, n: Seq<u32>, bs: int) -> bool {
    let c0 = min_u32(o[0], n[0]) as int;
    let c1 = min_u32(o[1], n[1]) as int;
    let c2 = min_u32(o[2], n[2]) as int;
    c1 >= 1 && c2 >= 1 ==> {
        &&& (c2 - 1) * o[0] * o[1] * bs + (c1 - 1) * o[0] * bs + c0 * bs <= old_len
        &&& (c2 - 1) * n[0] * n[1] * bs + (c1 - 1) * n[0] * bs + c0 * bs <= new_len
    }
}

/// Whether plane, row and column byte `(z1, y1, x1)` come before `(z2, y2, x2)`.
pub open spec fn spec_before(z1: int, y1: int, x1: int, z2: int, y2: int, x2: int) -> bool {
    z1 < z2 || (z1 == z2 && (y1 < y2 || (y1 == y2 && x1 < x2)))
}

/// Byte `i` of the new data once every byte up to plane `z`, row `y`, column byte `x` has been
/// copied.
pub open spec fn spec_partially_resized(old: Seq<u8>, o: Seq<u32>, n: Seq<u32>, bs: int, i: int, z: int, y: int, x: int) -> u8 {
    let row = n[0] * bs;
    let plane = n[1] * row;
    match spec_resize_source(o, n, bs, i) {
        Some(j) => if spec_before(i / plane, (i % plane) / row, (i % plane) % row, z, y, x) {
            old[j]
        } else {
            0u8
        },
        None => 0u8,
    }
}

/// The row starts and row lengths of the copy fit within both buffers, and so do their partial
/// products.
proof fn lemma_row_bounds(old_len: int, new_len: int, o: Seq<u32>, n: Seq<u32>, bs: int, z: int, y: int)
    requires
        o.len() == 3,
        n.len() == 3,
        bs >= 1,
        spec_copy_in_bounds(old_len, new_len, o, n, bs),
        0 <= z < min_u32(o[2], n[2]),
        0 <= y < min_u32(o[1], n[1]),
    ensures
        z * o[0] <= old_len,
        z * o[0] * o[1] <= old_len,
        z * o[0] * o[1] * bs <= old_len,
        y * o[0] <= old_len,
        y * o[0] * bs <= old_len,
        z * o[0] * o[1] * bs + y * o[0] * bs + min_u32(o[0], n[0]) * bs <= old_len,
        z * n[0] <= new_len,
        z * n[0] * n[1] <= new_len,
        z * n[0] * n[1] * bs <= new_len,
        y * n[0] <= new_len,
        y * n[0] * bs <= new_len,
        z * n[0] * n[1] * bs + y * n[0] * bs + min_u32(o[0], n[0]) * bs <= new_len,
        min_u32(o[0], n[0]) * bs <= old_len,
        min_u32(o[0], n[0]) * bs <= new_len,
{
    let c0 = min_u32(o[0], n[0]) as int;
    let c1 = min_u32(o[1], n[1]) as int;
    let c2 = min_u32(o[2], n[2]) as int;
    lemma_corner_bounds(o[0] as int, o[1] as int, bs, z, y, c0, c1, c2, old_len);
    lemma_corner_bounds(n[0] as int, n[1] as int, bs, z, y, c0, c1, c2, new_len);
}

/// The partial products of the start of row `y` of plane `z` in an image `a` texels wide
/// and `b` rows high are bounded by the end of the last copied row.
proof fn lemma_corner_bounds(a: int, b: int, bs: int, z: int, y: int, c0: int, c1: int, c2: int, len: int)
    requires
        a >= 0,
        b >= 1,
        bs >= 1,
        c0 >= 0,
        0 <= z < c2,
        0 <= y < c1,
        (c2 - 1) * a * b * bs + (c1 - 1) * a * bs + c0 * bs <= len,
    ensures
        z * a <= len,
        z * a * b <= len,
        z * a * b * bs <= len,
        y * a <= len,
        y * a * bs <= len,
        z * a * b * bs + y * a * bs + c0 * bs <= len,
        c0 * bs <= len,
{
    assert(z * a * b * bs <= (c2 - 1) * a * b * bs) by (nonlinear_arith)
        requires
            0 <= z <= c2 - 1,
            a >= 0,
            b >= 1,
            bs >= 1,
    ;
    assert(y * a * bs <= (c1 - 1) * a * bs) by (nonlinear_arith)
        requires
            0 <= y <= c1 - 1,
            a >= 0,
            bs >= 1,
    ;
    assert(z * a <= z * a * b * bs && z * a * b <= z * a * b * bs && y * a <= y * a * bs) by (nonlinear_arith)
        requires
            z >= 0,
            y >= 0,
            a >= 0,
            b >= 1,
            bs >= 1,
    ;
    assert(0 <= y * a * bs && 0 <= z * a * b * bs && 0 <= c0 * bs && 0 <= (c2 - 1) * a * b * bs
        && 0 <= (c1 - 1) * a * bs) by (nonlinear_arith)
        requires
            z >= 0,
            y >= 0,
            a >= 0,
            b >= 1,
            bs >= 1,
            c0 >= 0,
            c1 >= 1,
            c2 >= 1,
    ;
}

/// Resizing a texture of one mip level and one image (one layer, not a cube), whose format keeps one texel per block
/// and none of whose extents is zero, to its own dimensions gives back its data unchanged.
pub proof fn law_resize_to_same_dimensions_keeps_data(t: Texture)
    requires
        t.wf(),
        t.spec_settings().mip_levels == 1,
        t.spec_dimensions().spec_images() == 1,
        t.spec_settings().format.spec_block_extent() == seq![1u32, 1u32],
        !t.spec_dimensions().has_zero_dimension(),
    ensures
        spec_resized(
            t.spec_data(),
            t.spec_dimensions().spec_extent(),
            t.spec_dimensions().spec_extent(),
            t.spec_settings().format.spec_block_size() as int,
            Texture::spec_buffer_size(t.spec_dimensions(), t.spec_settings()) as nat,
        ) == t.spec_data(),
{
    let d = t.spec_dimensions();
    let settings = t.spec_settings();
    let e = d.spec_extent();
    let bs = settings.format.spec_block_size() as int;
    let len = Texture::spec_buffer_size(d, settings);
    lemma_format_block_size_positive(settings.format);
    assert(halved(e[0] as nat, 0) == e[0]);
    assert(halved(e[1] as nat, 0) == e[1]);
    assert(halved(e[2] as nat, 0) == e[2]);
    assert(ceil_div(e[0] as nat, 1) == e[0]);
    assert(ceil_div(e[1] as nat, 1) == e[1]);
    assert(Texture::spec_bytes_upto(d, settings, 0) == 0);
    let row = e[0] * bs;
    let plane = e[1] * row;
    assert(row >= 1 && plane >= 1 && len == e[2] * plane) by (nonlinear_arith)
        requires
            e[0] >= 1,
            e[1] >= 1,
            bs >= 1,
            row == e[0] * bs,
            plane == e[1] * row,
            len == e[0] * e[1] * e[2] * bs * 1,
    ;
    let r = spec_resized(t.spec_data(), e, e, bs, len as nat);
    assert forall|i: int| 0 <= i < len implies r[i] == t.spec_data()[i] by {
        lemma_recompose(i, row, plane);
        let z = i / plane;
        let y = (i % plane) / row;
        let x = (i % plane) % row;
        vstd::arithmetic::div_mod::lemma_fundamental_div_mod(i % plane, row);
        vstd::arithmetic::div_mod::lemma_mod_pos_bound(i, plane);
        assert(z < e[2] && y < e[1]) by (nonlinear_arith)
            requires
                i == plane * z + row * y + x,
                0 <= y,
                0 <= x < row,
                i < len,
                len == e[2] * plane,
                plane == e[1] * row,
                (i % plane) == row * y + x,
                0 <= i % plane < plane,
        ;
        assert(z * e[0] * e[1] * bs + y * e[0] * bs + x == i) by (nonlinear_arith)
            requires
                i == plane * z + row * y + x,
                row == e[0] * bs,
                plane == e[1] * row,
        ;
    }
    assert(r =~= t.spec_data());
}

/// Plane `z`, row `y`, column byte `x` of an image whose rows hold `row` bytes and whose planes
/// hold `plane == rows * row` bytes lies at byte `z * plane + y * row + x`, and only that byte
/// lies there.
proof fn lemma_decompose(i: int, z: int, y: int, x: int, row: int, rows: int, plane: int)
    requires
        row >= 1,
        rows >= 1,
        plane == rows * row,
        z >= 0,
        0 <= y < rows,
        0 <= x < row,
        i == z * plane + y * row + x,
    ensures
        i / plane == z,
        (i % plane) / row == y,
        (i % plane) % row == x,
{
    assert(0 <= y * row + x < plane) by (nonlinear_arith)
        requires
            0 <= y < rows,
            0 <= x < row,
            plane == rows * row,
    ;
    vstd::arithmetic::div_mod::lemma_fundamental_div_mod_converse(i, plane, z, y * row + x);
    vstd::arithmetic::div_mod::lemma_fundamental_div_mod_converse(y * row + x, row, y, x);
}

/// Every byte is determined by its plane, row and column byte.
proof fn lemma_recompose(i: int, row: int, plane: int)
    requires
        row >= 1,
        plane >= 1,
        i >= 0,
    ensures
        i == plane * (i / plane) + row * ((i % plane) / row) + (i % plane) % row,
        i / plane >= 0,
        0 <= (i % plane) / row,
        0 <= (i % plane) % row < row,
{
    vstd::arithmetic::div_mod::lemma_fundamental_div_mod(i, plane);
    vstd::arithmetic::div_mod::lemma_fundamental_div_mod(i % plane, row);
    vstd::arithmetic::div_mod::lemma_mod_pos_bound(i, plane);
    vstd::arithmetic::div_mod::lemma_mod_pos_bound(i % plane, row);
    vstd::arithmetic::div_mod::lemma_div_pos_is_pos(i, plane);
    vstd::arithmetic::div_mod::lemma_div_pos_is_pos(i % plane, row);
}

/// Copying byte `x` of row `y` of plane `z` changes exactly that byte of the new data.
proof fn lemma_write_step(old: Seq<u8>, o: Seq<u32>, n: Seq<u32>, bs: int, len: int, z: int, y: int, x: int)
    requires
        o.len() == 3,
        n.len() == 3,
        bs >= 1,
        0 <= z < min_u32(o[2], n[2]),
        0 <= y < min_u32(o[1], n[1]),
        0 <= x < min_u32(o[0], n[0]) * bs,
    ensures
        ({
            let w = z * n[0] * n[1] * bs + y * n[0] * bs + x;
            &&& spec_resize_source(o, n, bs, w) == Some(z * o[0] * o[1] * bs + y * o[0] * bs + x)
            &&& spec_partially_resized(old, o, n, bs, w, z, y, x + 1) == old[z * o[0] * o[1] * bs + y * o[0] * bs + x]
            &&& forall|i: int| 0 <= i < len && i != w ==> #[trigger] spec_partially_resized(old, o, n, bs, i, z, y, x + 1)
                == spec_partially_resized(old, o, n, bs, i, z, y, x)
        }),
{
    let row = n[0] * bs;
    let plane = n[1] * row;
    let w = z * n[0] * n[1] * bs + y * n[0] * bs + x;
    assert(row >= 1 && plane >= 1 && plane == n[1] * row && w == z * plane + y * row + x) by (nonlinear_arith)
        requires
            row == n[0] * bs,
            plane == n[1] * row,
            w == z * n[0] * n[1] * bs + y * n[0] * bs + x,
            0 <= x < min_u32(o[0], n[0]) * bs,
            min_u32(o[0], n[0]) <= n[0],
            0 <= y < min_u32(o[1], n[1]),
            min_u32(o[1], n[1]) <= n[1],
            bs >= 1,
    ;
    assert(x < row) by (nonlinear_arith)
        requires
            x < min_u32(o[0], n[0]) * bs,
            min_u32(o[0], n[0]) <= n[0],
            row == n[0] * bs,
            bs >= 1,
    ;
    lemma_decompose(w, z, y, x, row, n[1] as int, plane);
    assert forall|i: int| 0 <= i < len && i != w implies #[trigger] spec_partially_resized(old, o, n, bs, i, z, y, x + 1)
        == spec_partially_resized(old, o, n, bs, i, z, y, x) by {
        lemma_recompose(i, row, plane);
        if i / plane == z && (i % plane) / row == y && (i % plane) % row == x {
            assert(i == w) by (nonlinear_arith)
                requires
                    i == plane * (i / plane) + row * ((i % plane) / row) + (i % plane) % row,
                    i / plane == z,
                    (i % plane) / row == y,
                    (i % plane) % row == x,
                    w == z * plane + y * row + x,
            ;
        }
    }
}

/// Moving on from the end of a row to the start of the next one copies nothing.
proof fn lemma_next_row(old: Seq<u8>, o: Seq<u32>, n: Seq<u32>, bs: int, len: int, z: int, y: int)
    requires
        o.len() == 3,
        n.len() == 3,
        bs >= 1,
    ensures
        forall|i: int| 0 <= i < len ==> #[trigger] spec_partially_resized(old, o, n, bs, i, z, y + 1, 0)
            == spec_partially_resized(old, o, n, bs, i, z, y, min_u32(o[0], n[0]) * bs),
{
}

/// Moving on from the end of a plane to the start of the next one copies nothing.
proof fn lemma_next_plane(old: Seq<u8>, o: Seq<u32>, n: Seq<u32>, bs: int, len: int, z: int)
    requires
        o.len() == 3,
        n.len() == 3,
        bs >= 1,
    ensures
        forall|i: int| 0 <= i < len ==> #[trigger] spec_partially_resized(old, o, n, bs, i, z + 1, 0, 0)
            == spec_partially_resized(old, o, n, bs, i, z, min_u32(o[1], n[1]) as int, 0),
{
}

/// Before the first copy every byte is zero; after the last plane every byte is its source.
proof fn lemma_copy_done(old: Seq<u8>, o: Seq<u32>, n: Seq<u32>, bs: int, len: int)
    requires
        o.len() == 3,
        n.len() == 3,
        bs >= 1,
    ensures
        forall|i: int| 0 <= i < len ==> #[trigger] spec_partially_resized(old, o, n, bs, i, min_u32(o[2], n[2]) as int, 0, 0)
            == spec_resized(old, o, n, bs, len as nat)[i],
        forall|i: int| 0 <= i < len ==> #[trigger] spec_partially_resized(old, o, n, bs, i, 0, 0, 0) == 0u8,
{
    let row = n[0] * bs;
    let plane = n[1] * row;
    assert forall|i: int| 0 <= i < len implies #[trigger] spec_partially_resized(old, o, n, bs, i, 0, 0, 0) == 0u8 by {
        if row >= 1 && plane >= 1 {
            lemma_recompose(i, row, plane);
        }
    }
}

/// A product of three `u32` values and a block size up to 16 fits a `u128`.
proof fn lemma_u128_product_bounds(a: u32, b: u32, c: u32, d: u32)
    requires
        d <= 16,
    ensures
        a * b <= u128::MAX,
        a * b * c <= u128::MAX,
        a * b * c * d <= u128::MAX,
{
    let (x, y, z, w) = (a as int, b as int, c as int, d as int);
    assert(x * y <= 4294967295 * 4294967295) by (nonlinear_arith)
        requires
            0 <= x <= 4294967295,
            0 <= y <= 4294967295,
    ;
    assert(x * y * z <= 4294967295 * 4294967295 * 4294967295) by (nonlinear_arith)
        requires
            0 <= x * y <= 4294967295 * 4294967295,
            0 <= z <= 4294967295,
    ;
    assert(x * y * z * w <= 4294967295 * 4294967295 * 4294967295 * 16) by (nonlinear_arith)
        requires
            0 <= x * y * z <= 4294967295 * 4294967295 * 4294967295,
            0 <= w <= 16,
    ;
}

/// A `u32`-sized count times a `u32` count times at most six fits comfortably in a `u128`.
proof fn lemma_u128_term_bound(m: u128, l: u32, f: u32)
    requires
        m <= 4294967295,
        f <= 6,
    ensures
        m * l <= 4294967295 * 4294967295,
        m * l * f <= 6 * 4294967295 * 4294967295,
{
    let (x, y, z) = (m as int, l as int, f as int);
    assert(x * y <= 4294967295 * 4294967295 && x * y * z <= 6 * 4294967295 * 4294967295) by (nonlinear_arith)
        requires
            0 <= x <= 4294967295,
            0 <= y <= 4294967295,
            0 <= z <= 6,
    ;
}

/// The file format of an encoded image, as the `image` crate names it.
#[verifier::external_type_specification]
#[verifier::external_body]
pub struct ExImageFormat(image::ImageFormat);

/// An image decoded into plain values: its width and height, the number of channels per pixel,
/// and its samples, exactly one of `bytes` (8-bit samples), `words` (16-bit samples) and
/// `floats` (32-bit float samples, four little-endian bytes each) present for an image the
/// decoder knows.
#[derive(Debug, Clone, PartialEq, Eq)]
pub struct DecodedImage {
    pub width: u32,
    pub height: u32,
    pub channels: u8,
    pub bytes: Option<Vec<u8>>,
    pub words: Option<Vec<u16>>,
    pub floats: Option<Vec<u8>>,
}

/// The plain values of a decoded image: width, height, channels per pixel, and the 8-bit,
/// 16-bit and float samples (the latter as little-endian bytes) that are present.
pub type DecodedImageValue = (u32, u32, u8, Option<Seq<u8>>, Option<Seq<u16>>, Option<Seq<u8>>);

impl DecodedImage {
    /// The plain values of this decoded image.
    pub open spec fn value(&self) -> DecodedImageValue {
        (
            self.width,
            self.height,
            self.channels,
            match self.bytes {
                Some(b) => Some(b@),
                None => None,
            },
            match self.words {
                Some(w) => Some(w@),
                None => None,
            },
            match self.floats {
                Some(f) => Some(f@),
                None => None,
            },
        )
    }
}

/// What the `image` crate decodes from `data` in `format`; `None` when decoding fails.
pub uninterp spec fn decoded_image(data: Seq<u8>, format: ImageFormat) -> Option<DecodedImageValue>;

/// Decodes `data` as an image of the given format with `image::ImageReader::decode`, and hands
/// the result out as plain values: the dimensions, the channel count of its color type, and its
/// samples as the crate's flat sample views give them.
///
/// The contract says only that the result is what the crate decodes from these bytes and this
/// format, named `decoded_image`.
#[verifier::external_body]
fn decode_image(data: Vec<u8>, format: ImageFormat) -> (r: Option<DecodedImage>)
    ensures
        match r {
            Some(img) => decoded_image(data@, format) == Some(img.value()),
            None => decoded_image(data@, format) is None,
        },
{
    let img = image::ImageReader::with_format(std::io::Cursor::new(data), format).decode().ok()?;
    let channels = img.color().channel_count();
    let bytes = img.as_flat_samples_u8().map(|s| s.samples.to_vec());
    let words = img.as_flat_samples_u16().map(|s| s.samples.to_vec());
    let floats = img.as_flat_samples_f32().map(|s| s.samples.iter().flat_map(|x| x.to_le_bytes()).collect());
    Some(DecodedImage { width: img.width(), height: img.height(), channels, bytes, words, floats })
}

/// The little-endian bytes of 16-bit samples, two per sample.
pub open spec fn le_bytes_u16(words: Seq<u16>) -> Seq<u8> {
    Seq::new(
        2 * words.len(),
        |i: int|
            if i % 2 == 0 {
                (words[i / 2] % 256) as u8
            } else {
                (words[i / 2] / 256) as u8
            },
    )
}

/// The texture format and data of a decoded image: 8-bit samples keep their bytes with one to
/// four sRGB channels, 16-bit samples become little-endian UNORM data with one to four
/// channels, float samples with three or four channels keep their bytes; any other image has
/// no texture format.
pub open spec fn spec_texture_format_of(img: DecodedImageValue) -> Option<(Format, Seq<u8>)> {
    let (w, h, channels, bytes, words, floats) = img;
    if bytes is Some {
        let data = bytes->0;
        if channels == 1 {
            Some((Format::Sr8, data))
        } else if channels == 2 {
            Some((Format::Srg8, data))
        } else if channels == 3 {
            Some((Format::Srgb8, data))
        } else if channels == 4 {
            Some((Format::Srgba8, data))
        } else {
            None
        }
    } else if words is Some {
        let data = le_bytes_u16(words->0);
        if channels == 1 {
            Some((Format::R16Unorm, data))
        } else if channels == 2 {
            Some((Format::Rg16Unorm, data))
        } else if channels == 3 {
            Some((Format::Rgb16Unorm, data))
        } else if channels == 4 {
            Some((Format::Rgba16Unorm, data))
        } else {
            None
        }
    } else if floats is Some {
        let data = floats->0;
        if channels == 3 {
            Some((Format::Rgb32Float, data))
        } else if channels == 4 {
            Some((Format::Rgba32Float, data))
        } else {
            None
        }
    } else {
        None
    }
}

/// The dimensions of the texture made from a decoded image: two-dimensional, of its width and height.
pub open spec fn decoded_dimensions(v: DecodedImageValue) -> ViewTypeDim {
    ViewTypeDim::D2 { x: v.0, y: v.1 }
}

/// The texture format chosen for a decoded image that has one.
pub open spec fn decoded_format(v: DecodedImageValue) -> Format {
    match spec_texture_format_of(v) {
        Some((format, _)) => format,
        None => Format::Sr8,
    }
}

/// The texture data of a decoded image that has a texture format.
pub open spec fn decoded_data(v: DecodedImageValue) -> Seq<u8> {
    match spec_texture_format_of(v) {
        Some((_, data)) => data,
        None => Seq::empty(),
    }
}

/// The settings with the format replaced.
pub open spec fn with_format(settings: TextureSettings, format: Format) -> TextureSettings {
    TextureSettings { format, ..settings }
}

/// Whether a texture made from this decoded image with these settings stays within the size
/// computations' range.
pub open spec fn spec_decoded_size_fits(img: Option<DecodedImageValue>, settings: TextureSettings) -> bool {
    match img {
        Some(v) => match spec_texture_format_of(v) {
            Some((format, _)) => Texture::spec_size_fits(
                ViewTypeDim::D2 { x: v.0, y: v.1 },
                with_format(settings, format),
            ),
            None => true,
        },
        None => true,
    }
}

/// What making a texture from a decoded image gives: `InvalidFormat` for no image or an image
/// without a texture format, otherwise what [`Texture::from_raw`] gives for its data as a
/// two-dimensional texture of its width and height with the format replaced.
pub open spec fn spec_from_decoded_error(img: Option<DecodedImageValue>, settings: TextureSettings) -> Option<TextureError> {
    match img {
        None => Some(TextureError::InvalidFormat),
        Some(v) => match spec_texture_format_of(v) {
            None => Some(TextureError::InvalidFormat),
            Some((format, data)) => Texture::spec_raw_error(
                data.len() as int,
                ViewTypeDim::D2 { x: v.0, y: v.1 },
                with_format(settings, format),
            ),
        },
    }
}

/// The texture format of a decoded image, if any holds its samples.
fn texture_format_of(img: &DecodedImage) -> (r: Option<Format>)
    ensures
        r == match spec_texture_format_of(img.value()) {
            Some((format, _)) => Some(format),
            None => None,
        },
{
    let c = img.channels;
    if img.bytes.is_some() {
        if c == 1 {
            Some(Format::Sr8)
        } else if c == 2 {
            Some(Format::Srg8)
        } else if c == 3 {
            Some(Format::Srgb8)
        } else if c == 4 {
            Some(Format::Srgba8)
        } else {
            None
        }
    } else if img.words.is_some() {
        if c == 1 {
            Some(Format::R16Unorm)
        } else if c == 2 {
            Some(Format::Rg16Unorm)
        } else if c == 3 {
            Some(Format::Rgb16Unorm)
        } else if c == 4 {
            Some(Format::Rgba16Unorm)
        } else {
            None
        }
    } else if img.floats.is_some() {
        if c == 3 {
            Some(Format::Rgb32Float)
        } else if c == 4 {
            Some(Format::Rgba32Float)
        } else {
            None
        }
    } else {
        None
    }
}

/// Writes 16-bit samples as little-endian bytes.
fn words_to_le_bytes(words: &Vec<u16>) -> (r: Vec<u8>)
    ensures
        r@ == le_bytes_u16(words@),
{
    let mut out: Vec<u8> = Vec::new();
    let mut i: usize = 0;
    while i < words.len()
        invariant
            i <= words@.len(),
            out@.len() == 2 * i,
            forall|k: int| 0 <= k < out@.len() ==> #[trigger] out@[k] == le_bytes_u16(words@)[k],
        decreases words@.len() - i,
    {
        let w = words[i];
        proof {
            assert((2 * i) / 2 == i && (2 * i) % 2 == 0) by (nonlinear_arith);
            assert((2 * i + 1) / 2 == i && (2 * i + 1) % 2 == 1) by (nonlinear_arith);
        }
        out.push((w % 256) as u8);
        out.push((w / 256) as u8);
        i = i + 1;
    }
    proof {
        assert(out@ =~= le_bytes_u16(words@));
    }
    out
}

/// The product of two `u32` values fits a `u64`.
proof fn lemma_u32_product_fits_u64(x: u32, y: u32)
    ensures
        x * y <= u64::MAX,
{
    let a = x as int;
    let b = y as int;
    assert(a * b <= 4294967295 * 4294967295) by (nonlinear_arith)
        requires
            0 <= a <= 4294967295,
            0 <= b <= 4294967295,
    ;
}

/// A nonnegative factor of a product that fits a bound, times a positive cofactor, fits it too;
/// with a zero cofactor the product is zero.
proof fn lemma_prefix_bounded(a: int, b: int, bound: int)
    requires
        a >= 0,
        b >= 0,
        a * b <= bound,
        bound >= 0,
    ensures
        b == 0 || a <= bound,
{
    if b > 0 {
        assert(a <= a * b) by (nonlinear_arith)
            requires
                a >= 0,
                b >= 1,
        ;
    }
}

/// Computes the base-2 logarithm of a positive number, rounded down.
fn ilog2(n: u32) -> (r: u32)
    requires
        n > 0,
    ensures
        r == floor_log2(n as nat),
        r <= 31,
{
    proof {
        vstd::arithmetic::power2::lemma2_to64();
        lemma_floor_log2_lt(n as nat, 32);
    }
    let mut m = n;
    let mut k: u32 = 0;
    while m > 1
        invariant
            m >= 1,
            k + floor_log2(m as nat) == floor_log2(n as nat),
            floor_log2(n as nat) < 32,
        decreases m,
    {
        m = m / 2;
        k = k + 1;
    }
    k
}

/// A number below `2^k` has a base-2 logarithm below `k`.
proof fn lemma_floor_log2_lt(n: nat, k: nat)
    requires
        1 <= n < vstd::arithmetic::power2::pow2(k),
    ensures
        floor_log2(n) < k,
    decreases n,
{
    vstd::arithmetic::power2::lemma2_to64();
    if k == 0 {
        assert(false);
    } else {
        vstd::arithmetic::power2::lemma_pow2_unfold(k);
        if n > 1 {
            lemma_floor_log2_lt(n / 2, (k - 1) as nat);
        }
    }
}


/// Creating a texture refuses a mip level count only when it is 0 or above the maximum for the
/// dimensions: every count from 1 up to `max_mip_level`, the full mip chain included, is
/// accepted for data of exactly the buffer size and dimensions without a zero extent.
pub proof fn law_raw_mip_levels_in_range_are_accepted(len: int, dimensions: ViewTypeDim, settings: TextureSettings)
    ensures
        Texture::spec_raw_error(len, dimensions, settings) matches Some(TextureError::InvalidMipLevel(given, max))
            ==> (settings.mip_levels == 0 || settings.mip_levels > dimensions.spec_max_mip_level()) && given
            == settings.mip_levels && max == dimensions.spec_max_mip_level(),
        !dimensions.has_zero_dimension() && 1 <= settings.mip_levels <= dimensions.spec_max_mip_level() && len
            == Texture::spec_buffer_size(dimensions, settings) ==> Texture::spec_raw_error(len, dimensions, settings)
            is None,
{
    if Texture::spec_raw_error(len, dimensions, settings) is Some {
        lemma_max_mip_level_fits(dimensions);
    }
}

/// The maximum mip level count of a view type fits a `u32`.
proof fn lemma_max_mip_level_fits(d: ViewTypeDim)
    ensures
        1 <= d.spec_max_mip_level() <= 33,
{
    vstd::arithmetic::power2::lemma2_to64();
    let m = d.spec_max_extent() as nat;
    if m >= 1 {
        lemma_floor_log2_lt(m, 32);
    }
}

/// The texture format chosen for decoded samples holds one texel per block and as many bytes
/// per texel as the samples of a pixel take: one byte per channel for 8-bit samples, two for
/// 16-bit samples, four for float samples; the data is the samples as they come, 16-bit ones in
/// little-endian order. Images with no samples, or with a channel count no format holds, get
/// no format.
pub proof fn law_decoded_format_fits_the_samples(img: DecodedImageValue)
    ensures
        ({
            let (w, h, channels, bytes, words, floats) = img;
            &&& bytes is Some && 1 <= channels <= 4 ==> (spec_texture_format_of(img) matches Some((f, data))
                && f.spec_block_extent() == seq![1u32, 1u32] && f.spec_block_size() == channels && data == bytes->0)
            &&& bytes is None && words is Some && 1 <= channels <= 4 ==> (spec_texture_format_of(img) matches Some((f, data))
                && f.spec_block_extent() == seq![1u32, 1u32] && f.spec_block_size() == 2 * channels && data
                == le_bytes_u16(words->0))
            &&& bytes is None && words is None && floats is Some && 3 <= channels <= 4 ==> (spec_texture_format_of(img) matches Some((f, data))
                && f.spec_block_extent() == seq![1u32, 1u32] && f.spec_block_size() == 4 * channels && data
                == floats->0)
            &&& spec_texture_format_of(img) is Some ==> (bytes is Some || words is Some || floats is Some) && 1
                <= channels <= 4
        }),
{
}

/// An ordinary 8-bit image of one to four channels loads: a decoded image of width `w` and
/// height `h`, neither zero, whose `w * h * channels` bytes are its samples, becomes a texture
/// of one mip level without an error.
pub proof fn law_decoded_8_bit_images_load(img: DecodedImageValue, settings: TextureSettings)
    requires
        img.0 >= 1,
        img.1 >= 1,
        1 <= img.2 <= 4,
        img.3 is Some,
        img.3->0.len() == img.0 * img.1 * img.2,
        settings.mip_levels == 1,
    ensures
        spec_from_decoded_error(Some(img), settings) is None,
{
    let (w, h, c, bytes, words, floats) = img;
    law_decoded_format_fits_the_samples(img);
    let f = decoded_format(img);
    let d = ViewTypeDim::D2 { x: w, y: h };
    let s = with_format(settings, f);
    lemma_max_mip_level_fits(d);
    assert(halved(w as nat, 0) == w);
    assert(halved(h as nat, 0) == h);
    assert(halved(1, 0) == 1);
    assert(ceil_div(w as nat, 1) == w);
    assert(ceil_div(h as nat, 1) == h);
    assert(Texture::spec_bytes_upto(d, s, 0) == 0);
    assert(d.spec_images() == 1);
    assert(Texture::spec_mip_bytes(d, s, 0) == w * h * c) by (nonlinear_arith)
        requires
            Texture::spec_mip_bytes(d, s, 0) == w * h * 1 * c,
    ;
    assert(Texture::spec_buffer_size(d, s) == w * h * c);
}
} // verus!
