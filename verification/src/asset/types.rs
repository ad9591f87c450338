//! Built-in asset types of the resource layer: paths, images, shaders, text.
use vstd::prelude::*;
use crate::text::{owned, str_eq, to_lowercase, lowercase_of};
use vstd::std_specs::cmp::PartialEqSpecImpl;
use vstd::std_specs::convert::FromSpecImpl;
use crate::asset_base::types::{path_extension, std_path_extension};

verus! {

/// What `Path::file_name` gives for a path, read as text.
pub uninterp spec fn path_file_name(p: Seq<char>) -> Option<Seq<char>>;

/// What `Path::file_stem` gives for a path, read as text.
pub uninterp spec fn path_file_stem(p: Seq<char>) -> Option<Seq<char>>;

/// The last component of a path: `std::path::Path::file_name`, read back as
/// text. The contract names the result as a function of the path's characters;
/// the component rules of `Path` are not restated.
#[verifier::external_body]
fn std_path_file_name(p: &str) -> (r: Option<&str>)
    ensures
        match r {
            Some(e) => path_file_name(p@) == Some(e@),
            None => path_file_name(p@) is None,
        },
{
    match std::path::Path::new(p).file_name() {
        Some(n) => n.to_str(),
        None => None,
    }
}

/// The file name without its extension: `std::path::Path::file_stem`, read
/// back as text. The contract names the result as a function of the path's
/// characters; the rules of `Path` are not restated.
#[verifier::external_body]
fn std_path_file_stem(p: &str) -> (r: Option<&str>)
    ensures
        match r {
            Some(e) => path_file_stem(p@) == Some(e@),
            None => path_file_stem(p@) is None,
        },
{
    match std::path::Path::new(p).file_stem() {
        Some(n) => n.to_str(),
        None => None,
    }
}

/// Asset path (strongly typed wrapper). Two paths are equal when their
/// texts are.
#[derive(Debug, Hash)]
pub struct AssetPath(pub String);

impl PartialEq for AssetPath {
    fn eq(&self, other: &Self) -> (r: bool) {
        str_eq(self.0.as_str(), other.0.as_str())
    }
}

impl PartialEqSpecImpl for AssetPath {
    open spec fn obeys_eq_spec() -> bool {
        true
    }

    open spec fn eq_spec(&self, other: &AssetPath) -> bool {
        self@ == other@
    }
}

impl Eq for AssetPath {
}

impl From<&str> for AssetPath {
    fn from(s: &str) -> (p: AssetPath)
        ensures
            p@ == s@,
    {
        AssetPath::new(s)
    }
}

// The conversions from text are stated by their own `ensures` (the path's
// text is the given text), not by a spec-level conversion function.
impl FromSpecImpl<&str> for AssetPath {
    open spec fn obeys_from_spec() -> bool {
        false
    }

    open spec fn from_spec(v: &str) -> AssetPath {
        arbitrary()
    }
}

impl FromSpecImpl<String> for AssetPath {
    open spec fn obeys_from_spec() -> bool {
        false
    }

    open spec fn from_spec(v: String) -> AssetPath {
        arbitrary()
    }
}

impl From<String> for AssetPath {
    fn from(s: String) -> (p: AssetPath)
        ensures
            p@ == s@,
    {
        AssetPath(s)
    }
}

impl View for AssetPath {
    type V = Seq<char>;

    open spec fn view(&self) -> Seq<char> {
        self.0@
    }
}

impl Clone for AssetPath {
    fn clone(&self) -> (r: Self)
        ensures
            r@ == self@,
    {
        AssetPath(self.0.clone())
    }
}

impl AssetPath {
    pub fn new(path: &str) -> (p: AssetPath)
        ensures
            p@ == path@,
    {
        AssetPath(owned(path))
    }

    pub fn as_str(&self) -> (s: &str)
        ensures
            s@ == self@,
    {
        self.0.as_str()
    }

    /// The path's text (what displaying it shows).
    pub fn to_string(&self) -> (s: String)
        ensures
            s@ == self@,
    {
        self.0.clone()
    }

    /// The file extension, without the dot, in lowercase.
    pub fn extension(&self) -> (r: Option<String>)
        ensures
            match r {
                Some(e) => path_extension(self@) matches Some(x) && e@ == lowercase_of(x),
                None => path_extension(self@) is None,
            },
    {
        match std_path_extension(self.0.as_str()) {
            Some(e) => Some(to_lowercase(e)),
            None => None,
        }
    }

    /// The file name, without the directories.
    pub fn file_name(&self) -> (r: Option<&str>)
        ensures
            match r {
                Some(e) => path_file_name(self@) == Some(e@),
                None => path_file_name(self@) is None,
            },
    {
        std_path_file_name(self.0.as_str())
    }

    /// The file name without its extension.
    pub fn stem(&self) -> (r: Option<&str>)
        ensures
            match r {
                Some(e) => path_file_stem(self@) == Some(e@),
                None => path_file_stem(self@) is None,
            },
    {
        std_path_file_stem(self.0.as_str())
    }
}

/// Pixel formats of images.
#[derive(Debug, Clone, Copy, PartialEq, Eq, Structural)]
pub enum PixelFormat {
    Rgba8,
    Rgb8,
    Rgba16F,
    R8,
    Rg8,
}

/// An image asset (CPU side).
#[derive(Debug)]
pub struct ImageAsset {
    /// Raw pixel bytes.
    pub data: Vec<u8>,
    pub width: u32,
    pub height: u32,
    pub format: PixelFormat,
    pub premultiplied_alpha: bool,
}

/// The pixel bytes of a solid `color` image of `n` pixels: the four color
/// bytes repeated `n` times.
pub open spec fn is_solid_fill(data: Seq<u8>, n: int, color: [u8; 4]) -> bool {
    &&& data.len() == 4 * n
    &&& forall|i: int| 0 <= i < data.len() ==> #[trigger] data[i] == color[i % 4]
}

impl ImageAsset {
    /// A `width` x `height` RGBA8 image filled with `color`.
    pub fn solid_color(width: u32, height: u32, color: [u8; 4]) -> (img: ImageAsset)
        requires
            width * height <= u32::MAX,
        ensures
            img.width == width,
            img.height == height,
            img.format == PixelFormat::Rgba8,
            !img.premultiplied_alpha,
            is_solid_fill(img.data@, width * height, color),
    {
        let pixels: u32 = width * height;
        let total: u64 = (pixels as u64) * 4;
        let mut data: Vec<u8> = Vec::new();
        let mut j: u64 = 0;
        while j < total
            invariant
                total == 4 * (width * height),
                j <= total,
                data@.len() == j,
                forall|i: int| 0 <= i < data@.len() ==> #[trigger] data@[i] == color[i % 4],
            decreases total - j,
        {
            let k: usize = (j % 4) as usize;
            data.push(color[k]);
            j = j + 1;
        }
        ImageAsset { data, width, height, format: PixelFormat::Rgba8, premultiplied_alpha: false }
    }

    /// A 1x1 white pixel (the default placeholder texture).
    pub fn white_pixel() -> (img: ImageAsset)
        ensures
            img.width == 1 && img.height == 1,
            img.format == PixelFormat::Rgba8,
            is_solid_fill(img.data@, 1, [255u8, 255u8, 255u8, 255u8]),
    {
        ImageAsset::solid_color(1, 1, [255, 255, 255, 255])
    }

    /// A 1x1 black, opaque pixel.
    pub fn black_pixel() -> (img: ImageAsset)
        ensures
            img.width == 1 && img.height == 1,
            img.format == PixelFormat::Rgba8,
            is_solid_fill(img.data@, 1, [0u8, 0u8, 0u8, 255u8]),
    {
        ImageAsset::solid_color(1, 1, [0, 0, 0, 255])
    }

    /// Number of pixels.
    pub fn pixel_count(&self) -> (n: u32)
        requires
            self.width * self.height <= u32::MAX,
        ensures
            n == self.width * self.height,
    {
        self.width * self.height
    }

    /// Bytes per pixel of the image's format.
    pub fn bytes_per_pixel(&self) -> (n: u32)
        ensures
            n == match self.format {
                PixelFormat::Rgba8 => 4u32,
                PixelFormat::Rgb8 => 3u32,
                PixelFormat::Rgba16F => 8u32,
                PixelFormat::R8 => 1u32,
                PixelFormat::Rg8 => 2u32,
            },
    {
        match self.format {
            PixelFormat::Rgba8 => 4,
            PixelFormat::Rgb8 => 3,
            PixelFormat::Rgba16F => 8,
            PixelFormat::R8 => 1,
            PixelFormat::Rg8 => 2,
        }
    }
}

/// A sub-mesh: a range of indices drawn with one material.
#[derive(Debug, Clone, Copy)]
pub struct SubMesh {
    pub index_start: u32,
    pub index_count: u32,
    pub material_index: u32,
}

/// Shader languages.
#[derive(Debug, Clone, Copy, PartialEq, Eq, Structural)]
pub enum ShaderLanguage {
    Wgsl,
    Glsl,
    Hlsl,
    SpirV,
}

/// Shader source: text (WGSL/GLSL/HLSL) or binary (SPIR-V).
#[derive(Debug)]
pub enum ShaderSource {
    Text(String),
    Binary(Vec<u8>),
}

/// A shader asset.
#[derive(Debug)]
pub struct ShaderAsset {
    pub source: ShaderSource,
    pub language: ShaderLanguage,
    /// Vertex entry point.
    pub vertex_entry: String,
    /// Fragment entry point.
    pub fragment_entry: String,
}

impl ShaderAsset {
    /// A WGSL shader with entry points `vs_main` and `fs_main`.
    pub fn from_wgsl(source: &str) -> (s: ShaderAsset)
        ensures
            s.source matches ShaderSource::Text(t) && t@ == source@,
            s.language == ShaderLanguage::Wgsl,
            s.vertex_entry@ == "vs_main"@,
            s.fragment_entry@ == "fs_main"@,
    {
        ShaderAsset {
            source: ShaderSource::Text(owned(source)),
            language: ShaderLanguage::Wgsl,
            vertex_entry: owned("vs_main"),
            fragment_entry: owned("fs_main"),
        }
    }

    /// The source text, unless the shader is binary.
    pub fn source_text(&self) -> (r: Option<&str>)
        ensures
            match self.source {
                ShaderSource::Text(t) => r is Some && r->0@ == t@,
                ShaderSource::Binary(_) => r is None,
            },
    {
        match &self.source {
            ShaderSource::Text(s) => Some(s.as_str()),
            ShaderSource::Binary(_) => None,
        }
    }
}

/// A text file asset (JSON, TOML, Markdown, ...).
#[derive(Debug)]
pub struct TextAsset {
    pub content: String,
    pub encoding: String,
}

impl TextAsset {
    /// Text in the "utf-8" encoding.
    pub fn new(content: &str) -> (t: TextAsset)
        ensures
            t.content@ == content@,
            t.encoding@ == "utf-8"@,
    {
        TextAsset { content: owned(content), encoding: owned("utf-8") }
    }
}

} // verus!
