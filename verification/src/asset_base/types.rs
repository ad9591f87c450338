//! Built-in asset types: paths, images, shaders and text.
use vstd::prelude::*;
use crate::text::{owned, str_eq, to_lowercase, lowercase_of};
use vstd::std_specs::cmp::PartialEqSpecImpl;
use vstd::std_specs::convert::FromSpecImpl;

verus! {

/// What `Path::extension` gives for a path, read as text.
pub uninterp spec fn path_extension(p: Seq<char>) -> Option<Seq<char>>;

/// The extension of a path: `std::path::Path::extension`, read back as text.
/// The contract names the result as a function of the path's characters; the
/// rules of `Path` (last component, a leading dot, `..`) are not restated.
#[verifier::external_body]
pub(crate) fn std_path_extension(p: &str) -> (r: Option<&str>)
    ensures
        match r {
            Some(e) => path_extension(p@) == Some(e@),
            None => path_extension(p@) is None,
        },
{
    match std::path::Path::new(p).extension() {
        Some(e) => e.to_str(),
        None => None,
    }
}

/// Asset path, relative to the project's asset root. Two paths are equal
/// when their texts are.
#[derive(Debug, Hash)]
pub struct AssetPath(pub String);

impl PartialEq for AssetPath {
    fn eq(&self, other: &Self) -> (r: bool) {
        str_eq(self.0.as_str(), other.0.as_str())
    }
}

impl PartialEqSpecImpl for AssetPath {
    open spec fn obeys_eq_spec() -> bool {
        true
    }

    open spec fn eq_spec(&self, other: &AssetPath) -> bool {
        self@ == other@
    }
}

impl Eq for AssetPath {
}

impl From<&str> for AssetPath {
    fn from(s: &str) -> (p: AssetPath)
        ensures
            p@ == s@,
    {
        AssetPath::new(s)
    }
}

impl From<String> for AssetPath {
    fn from(s: String) -> (p: AssetPath)
        ensures
            p@ == s@,
    {
        AssetPath(s)
    }
}

// The conversions from text are stated by their own `ensures` (the path's
// text is the given text), not by a spec-level conversion function.
impl FromSpecImpl<&str> for AssetPath {
    open spec fn obeys_from_spec() -> bool {
        false
    }

    open spec fn from_spec(v: &str) -> AssetPath {
        arbitrary()
    }
}

impl FromSpecImpl<String> for AssetPath {
    open spec fn obeys_from_spec() -> bool {
        false
    }

    open spec fn from_spec(v: String) -> AssetPath {
        arbitrary()
    }
}

impl View for AssetPath {
    type V = Seq<char>;

    open spec fn view(&self) -> Seq<char> {
        self.0@
    }
}

impl Clone for AssetPath {
    fn clone(&self) -> (r: Self)
        ensures
            r@ == self@,
    {
        AssetPath(self.0.clone())
    }
}

impl AssetPath {
    pub fn new(path: &str) -> (p: AssetPath)
        ensures
            p@ == path@,
    {
        AssetPath(owned(path))
    }

    pub fn as_str(&self) -> (s: &str)
        ensures
            s@ == self@,
    {
        self.0.as_str()
    }

    /// The path's text (what displaying it shows).
    pub fn to_string(&self) -> (s: String)
        ensures
            s@ == self@,
    {
        self.0.clone()
    }

    /// The file extension, without the dot.
    pub fn extension(&self) -> (r: Option<&str>)
        ensures
            match r {
                Some(e) => path_extension(self@) == Some(e@),
                None => path_extension(self@) is None,
            },
    {
        std_path_extension(self.0.as_str())
    }

    /// The extension in lowercase, or the empty string when there is none.
    pub fn extension_lower(&self) -> (s: String)
        ensures
            s@ == lowercase_of(
                match path_extension(self@) {
                    Some(e) => e,
                    None => Seq::<char>::empty(),
                },
            ),
    {
        match self.extension() {
            Some(e) => to_lowercase(e),
            None => {
                let empty = "";
                proof {
                    reveal_strlit("");
                    assert(empty@ =~= Seq::<char>::empty());
                }
                to_lowercase(empty)
            },
        }
    }
}

/// Pixel formats of GPU images.
#[derive(Debug, Clone, Copy, PartialEq, Eq, Structural)]
pub enum ImageFormat {
    Rgba8Unorm,
    Rgba8UnormSrgb,
    Rgba16Float,
    Rgba32Float,
    Depth32Float,
    Bc7RgbaUnorm,
}

impl ImageFormat {
    pub open spec fn spec_bytes_per_pixel(self) -> u32 {
        match self {
            ImageFormat::Rgba8Unorm | ImageFormat::Rgba8UnormSrgb => 4,
            ImageFormat::Rgba16Float => 8,
            ImageFormat::Rgba32Float => 16,
            ImageFormat::Depth32Float => 4,
            ImageFormat::Bc7RgbaUnorm => 1,
        }
    }

    /// Bytes per pixel (1 for the compressed BC7 format, as an approximation).
    pub fn bytes_per_pixel(&self) -> (n: u32)
        ensures
            n == self.spec_bytes_per_pixel(),
    {
        match self {
            ImageFormat::Rgba8Unorm | ImageFormat::Rgba8UnormSrgb => 4,
            ImageFormat::Rgba16Float => 8,
            ImageFormat::Rgba32Float => 16,
            ImageFormat::Depth32Float => 4,
            ImageFormat::Bc7RgbaUnorm => 1,
        }
    }
}

/// An image asset.
#[derive(Debug)]
pub struct ImageAsset {
    pub width: u32,
    pub height: u32,
    pub format: ImageFormat,
    pub data: Vec<u8>,
    pub mip_levels: u32,
}

impl ImageAsset {
    /// An image with one mip level.
    pub fn new(width: u32, height: u32, format: ImageFormat, data: Vec<u8>) -> (img: ImageAsset)
        ensures
            img.width == width,
            img.height == height,
            img.format == format,
            img.data@ == data@,
            img.mip_levels == 1,
    {
        ImageAsset { width, height, format, data, mip_levels: 1 }
    }

    /// Number of pixels.
    pub fn pixel_count(&self) -> (n: usize)
        requires
            self.width * self.height <= u32::MAX,
        ensures
            n == self.width * self.height,
    {
        let p: u32 = self.width * self.height;
        p as usize
    }

    /// Size of the pixel data in bytes.
    pub fn byte_size(&self) -> (n: usize)
        ensures
            n == self.data@.len(),
    {
        self.data.len()
    }
}

/// One material slot of a mesh.
#[derive(Debug)]
pub struct SubMesh {
    pub name: String,
    pub index_offset: u32,
    pub index_count: u32,
    pub material_index: u32,
}

/// Shader pipeline stage.
#[derive(Debug, Clone, Copy, PartialEq, Eq, Structural)]
pub enum ShaderStage {
    Vertex,
    Fragment,
    Compute,
}

/// Shader source: WGSL text or SPIR-V words.
#[derive(Debug)]
pub enum ShaderSource {
    Wgsl(String),
    SpirV(Vec<u32>),
}

/// A shader asset.
#[derive(Debug)]
pub struct ShaderAsset {
    pub name: String,
    pub stage: ShaderStage,
    pub source: ShaderSource,
}

impl ShaderAsset {
    /// A WGSL shader.
    pub fn wgsl(name: &str, stage: ShaderStage, source: &str) -> (s: ShaderAsset)
        ensures
            s.name@ == name@,
            s.stage == stage,
            s.source matches ShaderSource::Wgsl(t) && t@ == source@,
    {
        ShaderAsset { name: owned(name), stage, source: ShaderSource::Wgsl(owned(source)) }
    }
}

/// Text encodings.
#[derive(Debug, Clone, Copy, PartialEq, Eq, Structural)]
pub enum TextEncoding {
    Utf8,
    Utf16,
    Latin1,
}

/// A text asset.
#[derive(Debug)]
pub struct TextAsset {
    pub content: String,
    pub encoding: TextEncoding,
}

impl TextAsset {
    /// UTF-8 text.
    pub fn utf8(content: &str) -> (t: TextAsset)
        ensures
            t.content@ == content@,
            t.encoding == TextEncoding::Utf8,
    {
        TextAsset { content: owned(content), encoding: TextEncoding::Utf8 }
    }
}

} // verus!
