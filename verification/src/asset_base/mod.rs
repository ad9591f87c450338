//! Asset management: asset kinds, errors, built-in asset types and the
//! change watcher for hot reloading.
use vstd::prelude::*;
use crate::text::{lowercase_of, to_lowercase, str_eq};

pub mod types;
pub mod watcher;

verus! {

/// Kinds of assets.
#[derive(Debug, Clone, Copy, PartialEq, Eq, Structural)]
pub enum AssetType {
    Image,
    Mesh,
    Audio,
    Shader,
    Scene,
    Script,
    Font,
    Text,
    Binary,
    Unknown,
}

/// The asset kind a lowercase file extension denotes.
pub open spec fn spec_asset_type(e: Seq<char>) -> AssetType {
    if e == "png"@ || e == "jpg"@ || e == "jpeg"@ || e == "bmp"@ || e == "webp"@ || e == "hdr"@
        || e == "exr"@ || e == "ktx2"@ {
        AssetType::Image
    } else if e == "gltf"@ || e == "glb"@ || e == "obj"@ || e == "fbx"@ || e == "dae"@ {
        AssetType::Mesh
    } else if e == "wav"@ || e == "mp3"@ || e == "ogg"@ || e == "flac"@ {
        AssetType::Audio
    } else if e == "wgsl"@ || e == "glsl"@ || e == "hlsl"@ || e == "spv"@ {
        AssetType::Shader
    } else if e == "uscn"@ || e == "scn"@ || e == "tscn"@ {
        AssetType::Scene
    } else if e == "wasm"@ {
        AssetType::Script
    } else if e == "ttf"@ || e == "otf"@ || e == "woff"@ || e == "woff2"@ {
        AssetType::Font
    } else if e == "txt"@ || e == "md"@ || e == "toml"@ || e == "json"@ || e == "ron"@ {
        AssetType::Text
    } else {
        AssetType::Unknown
    }
}

impl AssetType {
    /// The asset kind of a file extension, compared case-insensitively.
    pub fn from_extension(ext: &str) -> (t: AssetType)
        ensures
            t == spec_asset_type(lowercase_of(ext@)),
    {
        let lower = to_lowercase(ext);
        let e = lower.as_str();
        if str_eq(e, "png") || str_eq(e, "jpg") || str_eq(e, "jpeg") || str_eq(e, "bmp") || str_eq(e, "webp")
            || str_eq(e, "hdr") || str_eq(e, "exr") || str_eq(e, "ktx2") {
            AssetType::Image
        } else if str_eq(e, "gltf") || str_eq(e, "glb") || str_eq(e, "obj") || str_eq(e, "fbx") || str_eq(e, "dae") {
            AssetType::Mesh
        } else if str_eq(e, "wav") || str_eq(e, "mp3") || str_eq(e, "ogg") || str_eq(e, "flac") {
            AssetType::Audio
        } else if str_eq(e, "wgsl") || str_eq(e, "glsl") || str_eq(e, "hlsl") || str_eq(e, "spv") {
            AssetType::Shader
        } else if str_eq(e, "uscn") || str_eq(e, "scn") || str_eq(e, "tscn") {
            AssetType::Scene
        } else if str_eq(e, "wasm") {
            AssetType::Script
        } else if str_eq(e, "ttf") || str_eq(e, "otf") || str_eq(e, "woff") || str_eq(e, "woff2") {
            AssetType::Font
        } else if str_eq(e, "txt") || str_eq(e, "md") || str_eq(e, "toml") || str_eq(e, "json") || str_eq(e, "ron") {
            AssetType::Text
        } else {
            AssetType::Unknown
        }
    }
}

/// Errors of the asset system.
#[derive(Debug)]
pub enum AssetError {
    NotFound { path: String },
    IoError { path: String, message: String },
    ParseError { path: String, message: String },
    UnsupportedFormat { extension: String },
    LoadFailed(String),
}


/// The file extensions of image assets.
pub open spec fn image_extensions() -> Seq<Seq<char>> {
    seq!["png"@, "jpg"@, "jpeg"@, "bmp"@, "webp"@, "hdr"@, "exr"@, "ktx2"@]
}

/// The file extensions of mesh assets.
pub open spec fn mesh_extensions() -> Seq<Seq<char>> {
    seq!["gltf"@, "glb"@, "obj"@, "fbx"@, "dae"@]
}

/// The file extensions of audio assets.
pub open spec fn audio_extensions() -> Seq<Seq<char>> {
    seq!["wav"@, "mp3"@, "ogg"@, "flac"@]
}

/// The file extensions of shader assets.
pub open spec fn shader_extensions() -> Seq<Seq<char>> {
    seq!["wgsl"@, "glsl"@, "hlsl"@, "spv"@]
}

/// The file extensions of scene assets.
pub open spec fn scene_extensions() -> Seq<Seq<char>> {
    seq!["uscn"@, "scn"@, "tscn"@]
}

/// The file extensions of script assets.
pub open spec fn script_extensions() -> Seq<Seq<char>> {
    seq!["wasm"@]
}

/// The file extensions of font assets.
pub open spec fn font_extensions() -> Seq<Seq<char>> {
    seq!["ttf"@, "otf"@, "woff"@, "woff2"@]
}

/// The file extensions of text assets.
pub open spec fn text_extensions() -> Seq<Seq<char>> {
    seq!["txt"@, "md"@, "toml"@, "json"@, "ron"@]
}

/// Each known extension, in lowercase, names its kind: the image, mesh,
/// audio, shader, scene, script, font and text extensions map to those kinds,
/// and every other extension is unknown. (`from_extension` applies this to
/// the lowercased extension.)
pub proof fn law_extension_kinds(e: Seq<char>)
    ensures
        image_extensions().contains(e) ==> spec_asset_type(e) == AssetType::Image,
        mesh_extensions().contains(e) ==> spec_asset_type(e) == AssetType::Mesh,
        audio_extensions().contains(e) ==> spec_asset_type(e) == AssetType::Audio,
        shader_extensions().contains(e) ==> spec_asset_type(e) == AssetType::Shader,
        scene_extensions().contains(e) ==> spec_asset_type(e) == AssetType::Scene,
        script_extensions().contains(e) ==> spec_asset_type(e) == AssetType::Script,
        font_extensions().contains(e) ==> spec_asset_type(e) == AssetType::Font,
        text_extensions().contains(e) ==> spec_asset_type(e) == AssetType::Text,
        (!image_extensions().contains(e) && !mesh_extensions().contains(e) && !audio_extensions().contains(e) && !shader_extensions().contains(e) && !scene_extensions().contains(e) && !script_extensions().contains(e) && !font_extensions().contains(e) && !text_extensions().contains(e)) ==> spec_asset_type(e) == AssetType::Unknown,
{
    if image_extensions().contains(e) {
        let i = choose|i: int| 0 <= i < image_extensions().len() && image_extensions()[i] == e;
        if i == 0 {
            lemma_literal_kind_png();
        }
        if i == 1 {
            lemma_literal_kind_jpg();
        }
        if i == 2 {
            lemma_literal_kind_jpeg();
        }
        if i == 3 {
            lemma_literal_kind_bmp();
        }
        if i == 4 {
            lemma_literal_kind_webp();
        }
        if i == 5 {
            lemma_literal_kind_hdr();
        }
        if i == 6 {
            lemma_literal_kind_exr();
        }
        if i == 7 {
            lemma_literal_kind_ktx2();
        }
    }
    if mesh_extensions().contains(e) {
        let i = choose|i: int| 0 <= i < mesh_extensions().len() && mesh_extensions()[i] == e;
        if i == 0 {
            lemma_literal_kind_gltf();
        }
        if i == 1 {
            lemma_literal_kind_glb();
        }
        if i == 2 {
            lemma_literal_kind_obj();
        }
        if i == 3 {
            lemma_literal_kind_fbx();
        }
        if i == 4 {
            lemma_literal_kind_dae();
        }
    }
    if audio_extensions().contains(e) {
        let i = choose|i: int| 0 <= i < audio_extensions().len() && audio_extensions()[i] == e;
        if i == 0 {
            lemma_literal_kind_wav();
        }
        if i == 1 {
            lemma_literal_kind_mp3();
        }
        if i == 2 {
            lemma_literal_kind_ogg();
        }
        if i == 3 {
            lemma_literal_kind_flac();
        }
    }
    if shader_extensions().contains(e) {
        let i = choose|i: int| 0 <= i < shader_extensions().len() && shader_extensions()[i] == e;
        if i == 0 {
            lemma_literal_kind_wgsl();
        }
        if i == 1 {
            lemma_literal_kind_glsl();
        }
        if i == 2 {
            lemma_literal_kind_hlsl();
        }
        if i == 3 {
            lemma_literal_kind_spv();
        }
    }
    if scene_extensions().contains(e) {
        let i = choose|i: int| 0 <= i < scene_extensions().len() && scene_extensions()[i] == e;
        if i == 0 {
            lemma_literal_kind_uscn();
        }
        if i == 1 {
            lemma_literal_kind_scn();
        }
        if i == 2 {
            lemma_literal_kind_tscn();
        }
    }
    if script_extensions().contains(e) {
        let i = choose|i: int| 0 <= i < script_extensions().len() && script_extensions()[i] == e;
        if i == 0 {
            lemma_literal_kind_wasm();
        }
    }
    if font_extensions().contains(e) {
        let i = choose|i: int| 0 <= i < font_extensions().len() && font_extensions()[i] == e;
        if i == 0 {
            lemma_literal_kind_ttf();
        }
        if i == 1 {
            lemma_literal_kind_otf();
        }
        if i == 2 {
            lemma_literal_kind_woff();
        }
        if i == 3 {
            lemma_literal_kind_woff2();
        }
    }
    if text_extensions().contains(e) {
        let i = choose|i: int| 0 <= i < text_extensions().len() && text_extensions()[i] == e;
        if i == 0 {
            lemma_literal_kind_txt();
        }
        if i == 1 {
            lemma_literal_kind_md();
        }
        if i == 2 {
            lemma_literal_kind_toml();
        }
        if i == 3 {
            lemma_literal_kind_json();
        }
        if i == 4 {
            lemma_literal_kind_ron();
        }
    }
    if spec_asset_type(e) != AssetType::Unknown {
        if e == "png"@ { assert(image_extensions()[0] == e); }
        if e == "jpg"@ { assert(image_extensions()[1] == e); }
        if e == "jpeg"@ { assert(image_extensions()[2] == e); }
        if e == "bmp"@ { assert(image_extensions()[3] == e); }
        if e == "webp"@ { assert(image_extensions()[4] == e); }
        if e == "hdr"@ { assert(image_extensions()[5] == e); }
        if e == "exr"@ { assert(image_extensions()[6] == e); }
        if e == "ktx2"@ { assert(image_extensions()[7] == e); }
        if e == "gltf"@ { assert(mesh_extensions()[0] == e); }
        if e == "glb"@ { assert(mesh_extensions()[1] == e); }
        if e == "obj"@ { assert(mesh_extensions()[2] == e); }
        if e == "fbx"@ { assert(mesh_extensions()[3] == e); }
        if e == "dae"@ { assert(mesh_extensions()[4] == e); }
        if e == "wav"@ { assert(audio_extensions()[0] == e); }
        if e == "mp3"@ { assert(audio_extensions()[1] == e); }
        if e == "ogg"@ { assert(audio_extensions()[2] == e); }
        if e == "flac"@ { assert(audio_extensions()[3] == e); }
        if e == "wgsl"@ { assert(shader_extensions()[0] == e); }
        if e == "glsl"@ { assert(shader_extensions()[1] == e); }
        if e == "hlsl"@ { assert(shader_extensions()[2] == e); }
        if e == "spv"@ { assert(shader_extensions()[3] == e); }
        if e == "uscn"@ { assert(scene_extensions()[0] == e); }
        if e == "scn"@ { assert(scene_extensions()[1] == e); }
        if e == "tscn"@ { assert(scene_extensions()[2] == e); }
        if e == "wasm"@ { assert(script_extensions()[0] == e); }
        if e == "ttf"@ { assert(font_extensions()[0] == e); }
        if e == "otf"@ { assert(font_extensions()[1] == e); }
        if e == "woff"@ { assert(font_extensions()[2] == e); }
        if e == "woff2"@ { assert(font_extensions()[3] == e); }
        if e == "txt"@ { assert(text_extensions()[0] == e); }
        if e == "md"@ { assert(text_extensions()[1] == e); }
        if e == "toml"@ { assert(text_extensions()[2] == e); }
        if e == "json"@ { assert(text_extensions()[3] == e); }
        if e == "ron"@ { assert(text_extensions()[4] == e); }
    }
}

proof fn lemma_literal_kind_png()
    ensures
        spec_asset_type("png"@) == AssetType::Image,
{
    reveal_strlit("png");
}

proof fn lemma_literal_kind_jpg()
    ensures
        spec_asset_type("jpg"@) == AssetType::Image,
{
    reveal_strlit("jpg");
    reveal_strlit("png");
    assert("jpg"@[0] != "png"@[0]);
}

proof fn lemma_literal_kind_jpeg()
    ensures
        spec_asset_type("jpeg"@) == AssetType::Image,
{
    reveal_strlit("jpeg");
    reveal_strlit("png");
    reveal_strlit("jpg");
    assert("jpeg"@.len() != "png"@.len());
    assert("jpeg"@.len() != "jpg"@.len());
}

proof fn lemma_literal_kind_bmp()
    ensures
        spec_asset_type("bmp"@) == AssetType::Image,
{
    reveal_strlit("bmp");
    reveal_strlit("png");
    reveal_strlit("jpg");
    reveal_strlit("jpeg");
    assert("bmp"@[0] != "png"@[0]);
    assert("bmp"@[0] != "jpg"@[0]);
    assert("bmp"@.len() != "jpeg"@.len());
}

proof fn lemma_literal_kind_webp()
    ensures
        spec_asset_type("webp"@) == AssetType::Image,
{
    reveal_strlit("webp");
    reveal_strlit("png");
    reveal_strlit("jpg");
    reveal_strlit("jpeg");
    reveal_strlit("bmp");
    assert("webp"@.len() != "png"@.len());
    assert("webp"@.len() != "jpg"@.len());
    assert("webp"@[0] != "jpeg"@[0]);
    assert("webp"@.len() != "bmp"@.len());
}

proof fn lemma_literal_kind_hdr()
    ensures
        spec_asset_type("hdr"@) == AssetType::Image,
{
    reveal_strlit("hdr");
    reveal_strlit("png");
    reveal_strlit("jpg");
    reveal_strlit("jpeg");
    reveal_strlit("bmp");
    reveal_strlit("webp");
    assert("hdr"@[0] != "png"@[0]);
    assert("hdr"@[0] != "jpg"@[0]);
    assert("hdr"@.len() != "jpeg"@.len());
    assert("hdr"@[0] != "bmp"@[0]);
    assert("hdr"@.len() != "webp"@.len());
}

proof fn lemma_literal_kind_exr()
    ensures
        spec_asset_type("exr"@) == AssetType::Image,
{
    reveal_strlit("exr");
    reveal_strlit("png");
    reveal_strlit("jpg");
    reveal_strlit("jpeg");
    reveal_strlit("bmp");
    reveal_strlit("webp");
    reveal_strlit("hdr");
    assert("exr"@[0] != "png"@[0]);
    assert("exr"@[0] != "jpg"@[0]);
    assert("exr"@.len() != "jpeg"@.len());
    assert("exr"@[0] != "bmp"@[0]);
    assert("exr"@.len() != "webp"@.len());
    assert("exr"@[0] != "hdr"@[0]);
}

proof fn lemma_literal_kind_ktx2()
    ensures
        spec_asset_type("ktx2"@) == AssetType::Image,
{
    reveal_strlit("ktx2");
    reveal_strlit("png");
    reveal_strlit("jpg");
    reveal_strlit("jpeg");
    reveal_strlit("bmp");
    reveal_strlit("webp");
    reveal_strlit("hdr");
    reveal_strlit("exr");
    assert("ktx2"@.len() != "png"@.len());
    assert("ktx2"@.len() != "jpg"@.len());
    assert("ktx2"@[0] != "jpeg"@[0]);
    assert("ktx2"@.len() != "bmp"@.len());
    assert("ktx2"@[0] != "webp"@[0]);
    assert("ktx2"@.len() != "hdr"@.len());
    assert("ktx2"@.len() != "exr"@.len());
}

proof fn lemma_literal_kind_gltf()
    ensures
        spec_asset_type("gltf"@) == AssetType::Mesh,
{
    reveal_strlit("gltf");
    reveal_strlit("png");
    reveal_strlit("jpg");
    reveal_strlit("jpeg");
    reveal_strlit("bmp");
    reveal_strlit("webp");
    reveal_strlit("hdr");
    reveal_strlit("exr");
    reveal_strlit("ktx2");
    assert("gltf"@.len() != "png"@.len());
    assert("gltf"@.len() != "jpg"@.len());
    assert("gltf"@[0] != "jpeg"@[0]);
    assert("gltf"@.len() != "bmp"@.len());
    assert("gltf"@[0] != "webp"@[0]);
    assert("gltf"@.len() != "hdr"@.len());
    assert("gltf"@.len() != "exr"@.len());
    assert("gltf"@[0] != "ktx2"@[0]);
}

proof fn lemma_literal_kind_glb()
    ensures
        spec_asset_type("glb"@) == AssetType::Mesh,
{
    reveal_strlit("glb");
    reveal_strlit("png");
    reveal_strlit("jpg");
    reveal_strlit("jpeg");
    reveal_strlit("bmp");
    reveal_strlit("webp");
    reveal_strlit("hdr");
    reveal_strlit("exr");
    reveal_strlit("ktx2");
    reveal_strlit("gltf");
    assert("glb"@[0] != "png"@[0]);
    assert("glb"@[0] != "jpg"@[0]);
    assert("glb"@.len() != "jpeg"@.len());
    assert("glb"@[0] != "bmp"@[0]);
    assert("glb"@.len() != "webp"@.len());
    assert("glb"@[0] != "hdr"@[0]);
    assert("glb"@[0] != "exr"@[0]);
    assert("glb"@.len() != "ktx2"@.len());
    assert("glb"@.len() != "gltf"@.len());
}

proof fn lemma_literal_kind_obj()
    ensures
        spec_asset_type("obj"@) == AssetType::Mesh,
{
    reveal_strlit("obj");
    reveal_strlit("png");
    reveal_strlit("jpg");
    reveal_strlit("jpeg");
    reveal_strlit("bmp");
    reveal_strlit("webp");
    reveal_strlit("hdr");
    reveal_strlit("exr");
    reveal_strlit("ktx2");
    reveal_strlit("gltf");
    reveal_strlit("glb");
    assert("obj"@[0] != "png"@[0]);
    assert("obj"@[0] != "jpg"@[0]);
    assert("obj"@.len() != "jpeg"@.len());
    assert("obj"@[0] != "bmp"@[0]);
    assert("obj"@.len() != "webp"@.len());
    assert("obj"@[0] != "hdr"@[0]);
    assert("obj"@[0] != "exr"@[0]);
    assert("obj"@.len() != "ktx2"@.len());
    assert("obj"@.len() != "gltf"@.len());
    assert("obj"@[0] != "glb"@[0]);
}

proof fn lemma_literal_kind_fbx()
    ensures
        spec_asset_type("fbx"@) == AssetType::Mesh,
{
    reveal_strlit("fbx");
    reveal_strlit("png");
    reveal_strlit("jpg");
    reveal_strlit("jpeg");
    reveal_strlit("bmp");
    reveal_strlit("webp");
    reveal_strlit("hdr");
    reveal_strlit("exr");
    reveal_strlit("ktx2");
    reveal_strlit("gltf");
    reveal_strlit("glb");
    reveal_strlit("obj");
    assert("fbx"@[0] != "png"@[0]);
    assert("fbx"@[0] != "jpg"@[0]);
    assert("fbx"@.len() != "jpeg"@.len());
    assert("fbx"@[0] != "bmp"@[0]);
    assert("fbx"@.len() != "webp"@.len());
    assert("fbx"@[0] != "hdr"@[0]);
    assert("fbx"@[0] != "exr"@[0]);
    assert("fbx"@.len() != "ktx2"@.len());
    assert("fbx"@.len() != "gltf"@.len());
    assert("fbx"@[0] != "glb"@[0]);
    assert("fbx"@[0] != "obj"@[0]);
}

proof fn lemma_literal_kind_dae()
    ensures
        spec_asset_type("dae"@) == AssetType::Mesh,
{
    reveal_strlit("dae");
    reveal_strlit("png");
    reveal_strlit("jpg");
    reveal_strlit("jpeg");
    reveal_strlit("bmp");
    reveal_strlit("webp");
    reveal_strlit("hdr");
    reveal_strlit("exr");
    reveal_strlit("ktx2");
    reveal_strlit("gltf");
    reveal_strlit("glb");
    reveal_strlit("obj");
    reveal_strlit("fbx");
    assert("dae"@[0] != "png"@[0]);
    assert("dae"@[0] != "jpg"@[0]);
    assert("dae"@.len() != "jpeg"@.len());
    assert("dae"@[0] != "bmp"@[0]);
    assert("dae"@.len() != "webp"@.len());
    assert("dae"@[0] != "hdr"@[0]);
    assert("dae"@[0] != "exr"@[0]);
    assert("dae"@.len() != "ktx2"@.len());
    assert("dae"@.len() != "gltf"@.len());
    assert("dae"@[0] != "glb"@[0]);
    assert("dae"@[0] != "obj"@[0]);
    assert("dae"@[0] != "fbx"@[0]);
}

proof fn lemma_literal_kind_wav()
    ensures
        spec_asset_type("wav"@) == AssetType::Audio,
{
    reveal_strlit("wav");
    reveal_strlit("png");
    reveal_strlit("jpg");
    reveal_strlit("jpeg");
    reveal_strlit("bmp");
    reveal_strlit("webp");
    reveal_strlit("hdr");
    reveal_strlit("exr");
    reveal_strlit("ktx2");
    reveal_strlit("gltf");
    reveal_strlit("glb");
    reveal_strlit("obj");
    reveal_strlit("fbx");
    reveal_strlit("dae");
    assert("wav"@[0] != "png"@[0]);
    assert("wav"@[0] != "jpg"@[0]);
    assert("wav"@.len() != "jpeg"@.len());
    assert("wav"@[0] != "bmp"@[0]);
    assert("wav"@.len() != "webp"@.len());
    assert("wav"@[0] != "hdr"@[0]);
    assert("wav"@[0] != "exr"@[0]);
    assert("wav"@.len() != "ktx2"@.len());
    assert("wav"@.len() != "gltf"@.len());
    assert("wav"@[0] != "glb"@[0]);
    assert("wav"@[0] != "obj"@[0]);
    assert("wav"@[0] != "fbx"@[0]);
    assert("wav"@[0] != "dae"@[0]);
}

proof fn lemma_literal_kind_mp3()
    ensures
        spec_asset_type("mp3"@) == AssetType::Audio,
{
    reveal_strlit("mp3");
    reveal_strlit("png");
    reveal_strlit("jpg");
    reveal_strlit("jpeg");
    reveal_strlit("bmp");
    reveal_strlit("webp");
    reveal_strlit("hdr");
    reveal_strlit("exr");
    reveal_strlit("ktx2");
    reveal_strlit("gltf");
    reveal_strlit("glb");
    reveal_strlit("obj");
    reveal_strlit("fbx");
    reveal_strlit("dae");
    reveal_strlit("wav");
    assert("mp3"@[0] != "png"@[0]);
    assert("mp3"@[0] != "jpg"@[0]);
    assert("mp3"@.len() != "jpeg"@.len());
    assert("mp3"@[0] != "bmp"@[0]);
    assert("mp3"@.len() != "webp"@.len());
    assert("mp3"@[0] != "hdr"@[0]);
    assert("mp3"@[0] != "exr"@[0]);
    assert("mp3"@.len() != "ktx2"@.len());
    assert("mp3"@.len() != "gltf"@.len());
    assert("mp3"@[0] != "glb"@[0]);
    assert("mp3"@[0] != "obj"@[0]);
    assert("mp3"@[0] != "fbx"@[0]);
    assert("mp3"@[0] != "dae"@[0]);
    assert("mp3"@[0] != "wav"@[0]);
}

proof fn lemma_literal_kind_ogg()
    ensures
        spec_asset_type("ogg"@) == AssetType::Audio,
{
    reveal_strlit("ogg");
    reveal_strlit("png");
    reveal_strlit("jpg");
    reveal_strlit("jpeg");
    reveal_strlit("bmp");
    reveal_strlit("webp");
    reveal_strlit("hdr");
    reveal_strlit("exr");
    reveal_strlit("ktx2");
    reveal_strlit("gltf");
    reveal_strlit("glb");
    reveal_strlit("obj");
    reveal_strlit("fbx");
    reveal_strlit("dae");
    reveal_strlit("wav");
    reveal_strlit("mp3");
    assert("ogg"@[0] != "png"@[0]);
    assert("ogg"@[0] != "jpg"@[0]);
    assert("ogg"@.len() != "jpeg"@.len());
    assert("ogg"@[0] != "bmp"@[0]);
    assert("ogg"@.len() != "webp"@.len());
    assert("ogg"@[0] != "hdr"@[0]);
    assert("ogg"@[0] != "exr"@[0]);
    assert("ogg"@.len() != "ktx2"@.len());
    assert("ogg"@.len() != "gltf"@.len());
    assert("ogg"@[0] != "glb"@[0]);
    assert("ogg"@[1] != "obj"@[1]);
    assert("ogg"@[0] != "fbx"@[0]);
    assert("ogg"@[0] != "dae"@[0]);
    assert("ogg"@[0] != "wav"@[0]);
    assert("ogg"@[0] != "mp3"@[0]);
}

proof fn lemma_literal_kind_flac()
    ensures
        spec_asset_type("flac"@) == AssetType::Audio,
{
    reveal_strlit("flac");
    reveal_strlit("png");
    reveal_strlit("jpg");
    reveal_strlit("jpeg");
    reveal_strlit("bmp");
    reveal_strlit("webp");
    reveal_strlit("hdr");
    reveal_strlit("exr");
    reveal_strlit("ktx2");
    reveal_strlit("gltf");
    reveal_strlit("glb");
    reveal_strlit("obj");
    reveal_strlit("fbx");
    reveal_strlit("dae");
    reveal_strlit("wav");
    reveal_strlit("mp3");
    reveal_strlit("ogg");
    assert("flac"@.len() != "png"@.len());
    assert("flac"@.len() != "jpg"@.len());
    assert("flac"@[0] != "jpeg"@[0]);
    assert("flac"@.len() != "bmp"@.len());
    assert("flac"@[0] != "webp"@[0]);
    assert("flac"@.len() != "hdr"@.len());
    assert("flac"@.len() != "exr"@.len());
    assert("flac"@[0] != "ktx2"@[0]);
    assert("flac"@[0] != "gltf"@[0]);
    assert("flac"@.len() != "glb"@.len());
    assert("flac"@.len() != "obj"@.len());
    assert("flac"@.len() != "fbx"@.len());
    assert("flac"@.len() != "dae"@.len());
    assert("flac"@.len() != "wav"@.len());
    assert("flac"@.len() != "mp3"@.len());
    assert("flac"@.len() != "ogg"@.len());
}

proof fn lemma_literal_kind_wgsl()
    ensures
        spec_asset_type("wgsl"@) == AssetType::Shader,
{
    reveal_strlit("wgsl");
    reveal_strlit("png");
    reveal_strlit("jpg");
    reveal_strlit("jpeg");
    reveal_strlit("bmp");
    reveal_strlit("webp");
    reveal_strlit("hdr");
    reveal_strlit("exr");
    reveal_strlit("ktx2");
    reveal_strlit("gltf");
    reveal_strlit("glb");
    reveal_strlit("obj");
    reveal_strlit("fbx");
    reveal_strlit("dae");
    reveal_strlit("wav");
    reveal_strlit("mp3");
    reveal_strlit("ogg");
    reveal_strlit("flac");
    assert("wgsl"@.len() != "png"@.len());
    assert("wgsl"@.len() != "jpg"@.len());
    assert("wgsl"@[0] != "jpeg"@[0]);
    assert("wgsl"@.len() != "bmp"@.len());
    assert("wgsl"@[1] != "webp"@[1]);
    assert("wgsl"@.len() != "hdr"@.len());
    assert("wgsl"@.len() != "exr"@.len());
    assert("wgsl"@[0] != "ktx2"@[0]);
    assert("wgsl"@[0] != "gltf"@[0]);
    assert("wgsl"@.len() != "glb"@.len());
    assert("wgsl"@.len() != "obj"@.len());
    assert("wgsl"@.len() != "fbx"@.len());
    assert("wgsl"@.len() != "dae"@.len());
    assert("wgsl"@.len() != "wav"@.len());
    assert("wgsl"@.len() != "mp3"@.len());
    assert("wgsl"@.len() != "ogg"@.len());
    assert("wgsl"@[0] != "flac"@[0]);
}

proof fn lemma_literal_kind_glsl()
    ensures
        spec_asset_type("glsl"@) == AssetType::Shader,
{
    reveal_strlit("glsl");
    reveal_strlit("png");
    reveal_strlit("jpg");
    reveal_strlit("jpeg");
    reveal_strlit("bmp");
    reveal_strlit("webp");
    reveal_strlit("hdr");
    reveal_strlit("exr");
    reveal_strlit("ktx2");
    reveal_strlit("gltf");
    reveal_strlit("glb");
    reveal_strlit("obj");
    reveal_strlit("fbx");
    reveal_strlit("dae");
    reveal_strlit("wav");
    reveal_strlit("mp3");
    reveal_strlit("ogg");
    reveal_strlit("flac");
    reveal_strlit("wgsl");
    assert("glsl"@.len() != "png"@.len());
    assert("glsl"@.len() != "jpg"@.len());
    assert("glsl"@[0] != "jpeg"@[0]);
    assert("glsl"@.len() != "bmp"@.len());
    assert("glsl"@[0] != "webp"@[0]);
    assert("glsl"@.len() != "hdr"@.len());
    assert("glsl"@.len() != "exr"@.len());
    assert("glsl"@[0] != "ktx2"@[0]);
    assert("glsl"@[2] != "gltf"@[2]);
    assert("glsl"@.len() != "glb"@.len());
    assert("glsl"@.len() != "obj"@.len());
    assert("glsl"@.len() != "fbx"@.len());
    assert("glsl"@.len() != "dae"@.len());
    assert("glsl"@.len() != "wav"@.len());
    assert("glsl"@.len() != "mp3"@.len());
    assert("glsl"@.len() != "ogg"@.len());
    assert("glsl"@[0] != "flac"@[0]);
    assert("glsl"@[0] != "wgsl"@[0]);
}

proof fn lemma_literal_kind_hlsl()
    ensures
        spec_asset_type("hlsl"@) == AssetType::Shader,
{
    reveal_strlit("hlsl");
    reveal_strlit("png");
    reveal_strlit("jpg");
    reveal_strlit("jpeg");
    reveal_strlit("bmp");
    reveal_strlit("webp");
    reveal_strlit("hdr");
    reveal_strlit("exr");
    reveal_strlit("ktx2");
    reveal_strlit("gltf");
    reveal_strlit("glb");
    reveal_strlit("obj");
    reveal_strlit("fbx");
    reveal_strlit("dae");
    reveal_strlit("wav");
    reveal_strlit("mp3");
    reveal_strlit("ogg");
    reveal_strlit("flac");
    reveal_strlit("wgsl");
    reveal_strlit("glsl");
    assert("hlsl"@.len() != "png"@.len());
    assert("hlsl"@.len() != "jpg"@.len());
    assert("hlsl"@[0] != "jpeg"@[0]);
    assert("hlsl"@.len() != "bmp"@.len());
    assert("hlsl"@[0] != "webp"@[0]);
    assert("hlsl"@.len() != "hdr"@.len());
    assert("hlsl"@.len() != "exr"@.len());
    assert("hlsl"@[0] != "ktx2"@[0]);
    assert("hlsl"@[0] != "gltf"@[0]);
    assert("hlsl"@.len() != "glb"@.len());
    assert("hlsl"@.len() != "obj"@.len());
    assert("hlsl"@.len() != "fbx"@.len());
    assert("hlsl"@.len() != "dae"@.len());
    assert("hlsl"@.len() != "wav"@.len());
    assert("hlsl"@.len() != "mp3"@.len());
    assert("hlsl"@.len() != "ogg"@.len());
    assert("hlsl"@[0] != "flac"@[0]);
    assert("hlsl"@[0] != "wgsl"@[0]);
    assert("hlsl"@[0] != "glsl"@[0]);
}

proof fn lemma_literal_kind_spv()
    ensures
        spec_asset_type("spv"@) == AssetType::Shader,
{
    reveal_strlit("spv");
    reveal_strlit("png");
    reveal_strlit("jpg");
    reveal_strlit("jpeg");
    reveal_strlit("bmp");
    reveal_strlit("webp");
    reveal_strlit("hdr");
    reveal_strlit("exr");
    reveal_strlit("ktx2");
    reveal_strlit("gltf");
    reveal_strlit("glb");
    reveal_strlit("obj");
    reveal_strlit("fbx");
    reveal_strlit("dae");
    reveal_strlit("wav");
    reveal_strlit("mp3");
    reveal_strlit("ogg");
    reveal_strlit("flac");
    reveal_strlit("wgsl");
    reveal_strlit("glsl");
    reveal_strlit("hlsl");
    assert("spv"@[0] != "png"@[0]);
    assert("spv"@[0] != "jpg"@[0]);
    assert("spv"@.len() != "jpeg"@.len());
    assert("spv"@[0] != "bmp"@[0]);
    assert("spv"@.len() != "webp"@.len());
    assert("spv"@[0] != "hdr"@[0]);
    assert("spv"@[0] != "exr"@[0]);
    assert("spv"@.len() != "ktx2"@.len());
    assert("spv"@.len() != "gltf"@.len());
    assert("spv"@[0] != "glb"@[0]);
    assert("spv"@[0] != "obj"@[0]);
    assert("spv"@[0] != "fbx"@[0]);
    assert("spv"@[0] != "dae"@[0]);
    assert("spv"@[0] != "wav"@[0]);
    assert("spv"@[0] != "mp3"@[0]);
    assert("spv"@[0] != "ogg"@[0]);
    assert("spv"@.len() != "flac"@.len());
    assert("spv"@.len() != "wgsl"@.len());
    assert("spv"@.len() != "glsl"@.len());
    assert("spv"@.len() != "hlsl"@.len());
}

proof fn lemma_literal_kind_uscn()
    ensures
        spec_asset_type("uscn"@) == AssetType::Scene,
{
    reveal_strlit("uscn");
    reveal_strlit("png");
    reveal_strlit("jpg");
    reveal_strlit("jpeg");
    reveal_strlit("bmp");
    reveal_strlit("webp");
    reveal_strlit("hdr");
    reveal_strlit("exr");
    reveal_strlit("ktx2");
    reveal_strlit("gltf");
    reveal_strlit("glb");
    reveal_strlit("obj");
    reveal_strlit("fbx");
    reveal_strlit("dae");
    reveal_strlit("wav");
    reveal_strlit("mp3");
    reveal_strlit("ogg");
    reveal_strlit("flac");
    reveal_strlit("wgsl");
    reveal_strlit("glsl");
    reveal_strlit("hlsl");
    reveal_strlit("spv");
    assert("uscn"@.len() != "png"@.len());
    assert("uscn"@.len() != "jpg"@.len());
    assert("uscn"@[0] != "jpeg"@[0]);
    assert("uscn"@.len() != "bmp"@.len());
    assert("uscn"@[0] != "webp"@[0]);
    assert("uscn"@.len() != "hdr"@.len());
    assert("uscn"@.len() != "exr"@.len());
    assert("uscn"@[0] != "ktx2"@[0]);
    assert("uscn"@[0] != "gltf"@[0]);
    assert("uscn"@.len() != "glb"@.len());
    assert("uscn"@.len() != "obj"@.len());
    assert("uscn"@.len() != "fbx"@.len());
    assert("uscn"@.len() != "dae"@.len());
    assert("uscn"@.len() != "wav"@.len());
    assert("uscn"@.len() != "mp3"@.len());
    assert("uscn"@.len() != "ogg"@.len());
    assert("uscn"@[0] != "flac"@[0]);
    assert("uscn"@[0] != "wgsl"@[0]);
    assert("uscn"@[0] != "glsl"@[0]);
    assert("uscn"@[0] != "hlsl"@[0]);
    assert("uscn"@.len() != "spv"@.len());
}

proof fn lemma_literal_kind_scn()
    ensures
        spec_asset_type("scn"@) == AssetType::Scene,
{
    reveal_strlit("scn");
    reveal_strlit("png");
    reveal_strlit("jpg");
    reveal_strlit("jpeg");
    reveal_strlit("bmp");
    reveal_strlit("webp");
    reveal_strlit("hdr");
    reveal_strlit("exr");
    reveal_strlit("ktx2");
    reveal_strlit("gltf");
    reveal_strlit("glb");
    reveal_strlit("obj");
    reveal_strlit("fbx");
    reveal_strlit("dae");
    reveal_strlit("wav");
    reveal_strlit("mp3");
    reveal_strlit("ogg");
    reveal_strlit("flac");
    reveal_strlit("wgsl");
    reveal_strlit("glsl");
    reveal_strlit("hlsl");
    reveal_strlit("spv");
    reveal_strlit("uscn");
    assert("scn"@[0] != "png"@[0]);
    assert("scn"@[0] != "jpg"@[0]);
    assert("scn"@.len() != "jpeg"@.len());
    assert("scn"@[0] != "bmp"@[0]);
    assert("scn"@.len() != "webp"@.len());
    assert("scn"@[0] != "hdr"@[0]);
    assert("scn"@[0] != "exr"@[0]);
    assert("scn"@.len() != "ktx2"@.len());
    assert("scn"@.len() != "gltf"@.len());
    assert("scn"@[0] != "glb"@[0]);
    assert("scn"@[0] != "obj"@[0]);
    assert("scn"@[0] != "fbx"@[0]);
    assert("scn"@[0] != "dae"@[0]);
    assert("scn"@[0] != "wav"@[0]);
    assert("scn"@[0] != "mp3"@[0]);
    assert("scn"@[0] != "ogg"@[0]);
    assert("scn"@.len() != "flac"@.len());
    assert("scn"@.len() != "wgsl"@.len());
    assert("scn"@.len() != "glsl"@.len());
    assert("scn"@.len() != "hlsl"@.len());
    assert("scn"@[1] != "spv"@[1]);
    assert("scn"@.len() != "uscn"@.len());
}

proof fn lemma_literal_kind_tscn()
    ensures
        spec_asset_type("tscn"@) == AssetType::Scene,
{
    reveal_strlit("tscn");
    reveal_strlit("png");
    reveal_strlit("jpg");
    reveal_strlit("jpeg");
    reveal_strlit("bmp");
    reveal_strlit("webp");
    reveal_strlit("hdr");
    reveal_strlit("exr");
    reveal_strlit("ktx2");
    reveal_strlit("gltf");
    reveal_strlit("glb");
    reveal_strlit("obj");
    reveal_strlit("fbx");
    reveal_strlit("dae");
    reveal_strlit("wav");
    reveal_strlit("mp3");
    reveal_strlit("ogg");
    reveal_strlit("flac");
    reveal_strlit("wgsl");
    reveal_strlit("glsl");
    reveal_strlit("hlsl");
    reveal_strlit("spv");
    reveal_strlit("uscn");
    reveal_strlit("scn");
    assert("tscn"@.len() != "png"@.len());
    assert("tscn"@.len() != "jpg"@.len());
    assert("tscn"@[0] != "jpeg"@[0]);
    assert("tscn"@.len() != "bmp"@.len());
    assert("tscn"@[0] != "webp"@[0]);
    assert("tscn"@.len() != "hdr"@.len());
    assert("tscn"@.len() != "exr"@.len());
    assert("tscn"@[0] != "ktx2"@[0]);
    assert("tscn"@[0] != "gltf"@[0]);
    assert("tscn"@.len() != "glb"@.len());
    assert("tscn"@.len() != "obj"@.len());
    assert("tscn"@.len() != "fbx"@.len());
    assert("tscn"@.len() != "dae"@.len());
    assert("tscn"@.len() != "wav"@.len());
    assert("tscn"@.len() != "mp3"@.len());
    assert("tscn"@.len() != "ogg"@.len());
    assert("tscn"@[0] != "flac"@[0]);
    assert("tscn"@[0] != "wgsl"@[0]);
    assert("tscn"@[0] != "glsl"@[0]);
    assert("tscn"@[0] != "hlsl"@[0]);
    assert("tscn"@.len() != "spv"@.len());
    assert("tscn"@[0] != "uscn"@[0]);
    assert("tscn"@.len() != "scn"@.len());
}

proof fn lemma_literal_kind_wasm()
    ensures
        spec_asset_type("wasm"@) == AssetType::Script,
{
    reveal_strlit("wasm");
    reveal_strlit("png");
    reveal_strlit("jpg");
    reveal_strlit("jpeg");
    reveal_strlit("bmp");
    reveal_strlit("webp");
    reveal_strlit("hdr");
    reveal_strlit("exr");
    reveal_strlit("ktx2");
    reveal_strlit("gltf");
    reveal_strlit("glb");
    reveal_strlit("obj");
    reveal_strlit("fbx");
    reveal_strlit("dae");
    reveal_strlit("wav");
    reveal_strlit("mp3");
    reveal_strlit("ogg");
    reveal_strlit("flac");
    reveal_strlit("wgsl");
    reveal_strlit("glsl");
    reveal_strlit("hlsl");
    reveal_strlit("spv");
    reveal_strlit("uscn");
    reveal_strlit("scn");
    reveal_strlit("tscn");
    assert("wasm"@.len() != "png"@.len());
    assert("wasm"@.len() != "jpg"@.len());
    assert("wasm"@[0] != "jpeg"@[0]);
    assert("wasm"@.len() != "bmp"@.len());
    assert("wasm"@[1] != "webp"@[1]);
    assert("wasm"@.len() != "hdr"@.len());
    assert("wasm"@.len() != "exr"@.len());
    assert("wasm"@[0] != "ktx2"@[0]);
    assert("wasm"@[0] != "gltf"@[0]);
    assert("wasm"@.len() != "glb"@.len());
    assert("wasm"@.len() != "obj"@.len());
    assert("wasm"@.len() != "fbx"@.len());
    assert("wasm"@.len() != "dae"@.len());
    assert("wasm"@.len() != "wav"@.len());
    assert("wasm"@.len() != "mp3"@.len());
    assert("wasm"@.len() != "ogg"@.len());
    assert("wasm"@[0] != "flac"@[0]);
    assert("wasm"@[1] != "wgsl"@[1]);
    assert("wasm"@[0] != "glsl"@[0]);
    assert("wasm"@[0] != "hlsl"@[0]);
    assert("wasm"@.len() != "spv"@.len());
    assert("wasm"@[0] != "uscn"@[0]);
    assert("wasm"@.len() != "scn"@.len());
    assert("wasm"@[0] != "tscn"@[0]);
}

proof fn lemma_literal_kind_ttf()
    ensures
        spec_asset_type("ttf"@) == AssetType::Font,
{
    reveal_strlit("ttf");
    reveal_strlit("png");
    reveal_strlit("jpg");
    reveal_strlit("jpeg");
    reveal_strlit("bmp");
    reveal_strlit("webp");
    reveal_strlit("hdr");
    reveal_strlit("exr");
    reveal_strlit("ktx2");
    reveal_strlit("gltf");
    reveal_strlit("glb");
    reveal_strlit("obj");
    reveal_strlit("fbx");
    reveal_strlit("dae");
    reveal_strlit("wav");
    reveal_strlit("mp3");
    reveal_strlit("ogg");
    reveal_strlit("flac");
    reveal_strlit("wgsl");
    reveal_strlit("glsl");
    reveal_strlit("hlsl");
    reveal_strlit("spv");
    reveal_strlit("uscn");
    reveal_strlit("scn");
    reveal_strlit("tscn");
    reveal_strlit("wasm");
    assert("ttf"@[0] != "png"@[0]);
    assert("ttf"@[0] != "jpg"@[0]);
    assert("ttf"@.len() != "jpeg"@.len());
    assert("ttf"@[0] != "bmp"@[0]);
    assert("ttf"@.len() != "webp"@.len());
    assert("ttf"@[0] != "hdr"@[0]);
    assert("ttf"@[0] != "exr"@[0]);
    assert("ttf"@.len() != "ktx2"@.len());
    assert("ttf"@.len() != "gltf"@.len());
    assert("ttf"@[0] != "glb"@[0]);
    assert("ttf"@[0] != "obj"@[0]);
    assert("ttf"@[0] != "fbx"@[0]);
    assert("ttf"@[0] != "dae"@[0]);
    assert("ttf"@[0] != "wav"@[0]);
    assert("ttf"@[0] != "mp3"@[0]);
    assert("ttf"@[0] != "ogg"@[0]);
    assert("ttf"@.len() != "flac"@.len());
    assert("ttf"@.len() != "wgsl"@.len());
    assert("ttf"@.len() != "glsl"@.len());
    assert("ttf"@.len() != "hlsl"@.len());
    assert("ttf"@[0] != "spv"@[0]);
    assert("ttf"@.len() != "uscn"@.len());
    assert("ttf"@[0] != "scn"@[0]);
    assert("ttf"@.len() != "tscn"@.len());
    assert("ttf"@.len() != "wasm"@.len());
}

proof fn lemma_literal_kind_otf()
    ensures
        spec_asset_type("otf"@) == AssetType::Font,
{
    reveal_strlit("otf");
    reveal_strlit("png");
    reveal_strlit("jpg");
    reveal_strlit("jpeg");
    reveal_strlit("bmp");
    reveal_strlit("webp");
    reveal_strlit("hdr");
    reveal_strlit("exr");
    reveal_strlit("ktx2");
    reveal_strlit("gltf");
    reveal_strlit("glb");
    reveal_strlit("obj");
    reveal_strlit("fbx");
    reveal_strlit("dae");
    reveal_strlit("wav");
    reveal_strlit("mp3");
    reveal_strlit("ogg");
    reveal_strlit("flac");
    reveal_strlit("wgsl");
    reveal_strlit("glsl");
    reveal_strlit("hlsl");
    reveal_strlit("spv");
    reveal_strlit("uscn");
    reveal_strlit("scn");
    reveal_strlit("tscn");
    reveal_strlit("wasm");
    reveal_strlit("ttf");
    assert("otf"@[0] != "png"@[0]);
    assert("otf"@[0] != "jpg"@[0]);
    assert("otf"@.len() != "jpeg"@.len());
    assert("otf"@[0] != "bmp"@[0]);
    assert("otf"@.len() != "webp"@.len());
    assert("otf"@[0] != "hdr"@[0]);
    assert("otf"@[0] != "exr"@[0]);
    assert("otf"@.len() != "ktx2"@.len());
    assert("otf"@.len() != "gltf"@.len());
    assert("otf"@[0] != "glb"@[0]);
    assert("otf"@[1] != "obj"@[1]);
    assert("otf"@[0] != "fbx"@[0]);
    assert("otf"@[0] != "dae"@[0]);
    assert("otf"@[0] != "wav"@[0]);
    assert("otf"@[0] != "mp3"@[0]);
    assert("otf"@[1] != "ogg"@[1]);
    assert("otf"@.len() != "flac"@.len());
    assert("otf"@.len() != "wgsl"@.len());
    assert("otf"@.len() != "glsl"@.len());
    assert("otf"@.len() != "hlsl"@.len());
    assert("otf"@[0] != "spv"@[0]);
    assert("otf"@.len() != "uscn"@.len());
    assert("otf"@[0] != "scn"@[0]);
    assert("otf"@.len() != "tscn"@.len());
    assert("otf"@.len() != "wasm"@.len());
    assert("otf"@[0] != "ttf"@[0]);
}

proof fn lemma_literal_kind_woff()
    ensures
        spec_asset_type("woff"@) == AssetType::Font,
{
    reveal_strlit("woff");
    reveal_strlit("png");
    reveal_strlit("jpg");
    reveal_strlit("jpeg");
    reveal_strlit("bmp");
    reveal_strlit("webp");
    reveal_strlit("hdr");
    reveal_strlit("exr");
    reveal_strlit("ktx2");
    reveal_strlit("gltf");
    reveal_strlit("glb");
    reveal_strlit("obj");
    reveal_strlit("fbx");
    reveal_strlit("dae");
    reveal_strlit("wav");
    reveal_strlit("mp3");
    reveal_strlit("ogg");
    reveal_strlit("flac");
    reveal_strlit("wgsl");
    reveal_strlit("glsl");
    reveal_strlit("hlsl");
    reveal_strlit("spv");
    reveal_strlit("uscn");
    reveal_strlit("scn");
    reveal_strlit("tscn");
    reveal_strlit("wasm");
    reveal_strlit("ttf");
    reveal_strlit("otf");
    assert("woff"@.len() != "png"@.len());
    assert("woff"@.len() != "jpg"@.len());
    assert("woff"@[0] != "jpeg"@[0]);
    assert("woff"@.len() != "bmp"@.len());
    assert("woff"@[1] != "webp"@[1]);
    assert("woff"@.len() != "hdr"@.len());
    assert("woff"@.len() != "exr"@.len());
    assert("woff"@[0] != "ktx2"@[0]);
    assert("woff"@[0] != "gltf"@[0]);
    assert("woff"@.len() != "glb"@.len());
    assert("woff"@.len() != "obj"@.len());
    assert("woff"@.len() != "fbx"@.len());
    assert("woff"@.len() != "dae"@.len());
    assert("woff"@.len() != "wav"@.len());
    assert("woff"@.len() != "mp3"@.len());
    assert("woff"@.len() != "ogg"@.len());
    assert("woff"@[0] != "flac"@[0]);
    assert("woff"@[1] != "wgsl"@[1]);
    assert("woff"@[0] != "glsl"@[0]);
    assert("woff"@[0] != "hlsl"@[0]);
    assert("woff"@.len() != "spv"@.len());
    assert("woff"@[0] != "uscn"@[0]);
    assert("woff"@.len() != "scn"@.len());
    assert("woff"@[0] != "tscn"@[0]);
    assert("woff"@[1] != "wasm"@[1]);
    assert("woff"@.len() != "ttf"@.len());
    assert("woff"@.len() != "otf"@.len());
}

proof fn lemma_literal_kind_woff2()
    ensures
        spec_asset_type("woff2"@) == AssetType::Font,
{
    reveal_strlit("woff2");
    reveal_strlit("png");
    reveal_strlit("jpg");
    reveal_strlit("jpeg");
    reveal_strlit("bmp");
    reveal_strlit("webp");
    reveal_strlit("hdr");
    reveal_strlit("exr");
    reveal_strlit("ktx2");
    reveal_strlit("gltf");
    reveal_strlit("glb");
    reveal_strlit("obj");
    reveal_strlit("fbx");
    reveal_strlit("dae");
    reveal_strlit("wav");
    reveal_strlit("mp3");
    reveal_strlit("ogg");
    reveal_strlit("flac");
    reveal_strlit("wgsl");
    reveal_strlit("glsl");
    reveal_strlit("hlsl");
    reveal_strlit("spv");
    reveal_strlit("uscn");
    reveal_strlit("scn");
    reveal_strlit("tscn");
    reveal_strlit("wasm");
    reveal_strlit("ttf");
    reveal_strlit("otf");
    reveal_strlit("woff");
    assert("woff2"@.len() != "png"@.len());
    assert("woff2"@.len() != "jpg"@.len());
    assert("woff2"@.len() != "jpeg"@.len());
    assert("woff2"@.len() != "bmp"@.len());
    assert("woff2"@.len() != "webp"@.len());
    assert("woff2"@.len() != "hdr"@.len());
    assert("woff2"@.len() != "exr"@.len());
    assert("woff2"@.len() != "ktx2"@.len());
    assert("woff2"@.len() != "gltf"@.len());
    assert("woff2"@.len() != "glb"@.len());
    assert("woff2"@.len() != "obj"@.len());
    assert("woff2"@.len() != "fbx"@.len());
    assert("woff2"@.len() != "dae"@.len());
    assert("woff2"@.len() != "wav"@.len());
    assert("woff2"@.len() != "mp3"@.len());
    assert("woff2"@.len() != "ogg"@.len());
    assert("woff2"@.len() != "flac"@.len());
    assert("woff2"@.len() != "wgsl"@.len());
    assert("woff2"@.len() != "glsl"@.len());
    assert("woff2"@.len() != "hlsl"@.len());
    assert("woff2"@.len() != "spv"@.len());
    assert("woff2"@.len() != "uscn"@.len());
    assert("woff2"@.len() != "scn"@.len());
    assert("woff2"@.len() != "tscn"@.len());
    assert("woff2"@.len() != "wasm"@.len());
    assert("woff2"@.len() != "ttf"@.len());
    assert("woff2"@.len() != "otf"@.len());
    assert("woff2"@.len() != "woff"@.len());
}

proof fn lemma_literal_kind_txt()
    ensures
        spec_asset_type("txt"@) == AssetType::Text,
{
    reveal_strlit("txt");
    reveal_strlit("png");
    reveal_strlit("jpg");
    reveal_strlit("jpeg");
    reveal_strlit("bmp");
    reveal_strlit("webp");
    reveal_strlit("hdr");
    reveal_strlit("exr");
    reveal_strlit("ktx2");
    reveal_strlit("gltf");
    reveal_strlit("glb");
    reveal_strlit("obj");
    reveal_strlit("fbx");
    reveal_strlit("dae");
    reveal_strlit("wav");
    reveal_strlit("mp3");
    reveal_strlit("ogg");
    reveal_strlit("flac");
    reveal_strlit("wgsl");
    reveal_strlit("glsl");
    reveal_strlit("hlsl");
    reveal_strlit("spv");
    reveal_strlit("uscn");
    reveal_strlit("scn");
    reveal_strlit("tscn");
    reveal_strlit("wasm");
    reveal_strlit("ttf");
    reveal_strlit("otf");
    reveal_strlit("woff");
    reveal_strlit("woff2");
    assert("txt"@[0] != "png"@[0]);
    assert("txt"@[0] != "jpg"@[0]);
    assert("txt"@.len() != "jpeg"@.len());
    assert("txt"@[0] != "bmp"@[0]);
    assert("txt"@.len() != "webp"@.len());
    assert("txt"@[0] != "hdr"@[0]);
    assert("txt"@[0] != "exr"@[0]);
    assert("txt"@.len() != "ktx2"@.len());
    assert("txt"@.len() != "gltf"@.len());
    assert("txt"@[0] != "glb"@[0]);
    assert("txt"@[0] != "obj"@[0]);
    assert("txt"@[0] != "fbx"@[0]);
    assert("txt"@[0] != "dae"@[0]);
    assert("txt"@[0] != "wav"@[0]);
    assert("txt"@[0] != "mp3"@[0]);
    assert("txt"@[0] != "ogg"@[0]);
    assert("txt"@.len() != "flac"@.len());
    assert("txt"@.len() != "wgsl"@.len());
    assert("txt"@.len() != "glsl"@.len());
    assert("txt"@.len() != "hlsl"@.len());
    assert("txt"@[0] != "spv"@[0]);
    assert("txt"@.len() != "uscn"@.len());
    assert("txt"@[0] != "scn"@[0]);
    assert("txt"@.len() != "tscn"@.len());
    assert("txt"@.len() != "wasm"@.len());
    assert("txt"@[1] != "ttf"@[1]);
    assert("txt"@[0] != "otf"@[0]);
    assert("txt"@.len() != "woff"@.len());
    assert("txt"@.len() != "woff2"@.len());
}

proof fn lemma_literal_kind_md()
    ensures
        spec_asset_type("md"@) == AssetType::Text,
{
    reveal_strlit("md");
    reveal_strlit("png");
    reveal_strlit("jpg");
    reveal_strlit("jpeg");
    reveal_strlit("bmp");
    reveal_strlit("webp");
    reveal_strlit("hdr");
    reveal_strlit("exr");
    reveal_strlit("ktx2");
    reveal_strlit("gltf");
    reveal_strlit("glb");
    reveal_strlit("obj");
    reveal_strlit("fbx");
    reveal_strlit("dae");
    reveal_strlit("wav");
    reveal_strlit("mp3");
    reveal_strlit("ogg");
    reveal_strlit("flac");
    reveal_strlit("wgsl");
    reveal_strlit("glsl");
    reveal_strlit("hlsl");
    reveal_strlit("spv");
    reveal_strlit("uscn");
    reveal_strlit("scn");
    reveal_strlit("tscn");
    reveal_strlit("wasm");
    reveal_strlit("ttf");
    reveal_strlit("otf");
    reveal_strlit("woff");
    reveal_strlit("woff2");
    reveal_strlit("txt");
    assert("md"@.len() != "png"@.len());
    assert("md"@.len() != "jpg"@.len());
    assert("md"@.len() != "jpeg"@.len());
    assert("md"@.len() != "bmp"@.len());
    assert("md"@.len() != "webp"@.len());
    assert("md"@.len() != "hdr"@.len());
    assert("md"@.len() != "exr"@.len());
    assert("md"@.len() != "ktx2"@.len());
    assert("md"@.len() != "gltf"@.len());
    assert("md"@.len() != "glb"@.len());
    assert("md"@.len() != "obj"@.len());
    assert("md"@.len() != "fbx"@.len());
    assert("md"@.len() != "dae"@.len());
    assert("md"@.len() != "wav"@.len());
    assert("md"@.len() != "mp3"@.len());
    assert("md"@.len() != "ogg"@.len());
    assert("md"@.len() != "flac"@.len());
    assert("md"@.len() != "wgsl"@.len());
    assert("md"@.len() != "glsl"@.len());
    assert("md"@.len() != "hlsl"@.len());
    assert("md"@.len() != "spv"@.len());
    assert("md"@.len() != "uscn"@.len());
    assert("md"@.len() != "scn"@.len());
    assert("md"@.len() != "tscn"@.len());
    assert("md"@.len() != "wasm"@.len());
    assert("md"@.len() != "ttf"@.len());
    assert("md"@.len() != "otf"@.len());
    assert("md"@.len() != "woff"@.len());
    assert("md"@.len() != "woff2"@.len());
    assert("md"@.len() != "txt"@.len());
}

proof fn lemma_literal_kind_toml()
    ensures
        spec_asset_type("toml"@) == AssetType::Text,
{
    reveal_strlit("toml");
    reveal_strlit("png");
    reveal_strlit("jpg");
    reveal_strlit("jpeg");
    reveal_strlit("bmp");
    reveal_strlit("webp");
    reveal_strlit("hdr");
    reveal_strlit("exr");
    reveal_strlit("ktx2");
    reveal_strlit("gltf");
    reveal_strlit("glb");
    reveal_strlit("obj");
    reveal_strlit("fbx");
    reveal_strlit("dae");
    reveal_strlit("wav");
    reveal_strlit("mp3");
    reveal_strlit("ogg");
    reveal_strlit("flac");
    reveal_strlit("wgsl");
    reveal_strlit("glsl");
    reveal_strlit("hlsl");
    reveal_strlit("spv");
    reveal_strlit("uscn");
    reveal_strlit("scn");
    reveal_strlit("tscn");
    reveal_strlit("wasm");
    reveal_strlit("ttf");
    reveal_strlit("otf");
    reveal_strlit("woff");
    reveal_strlit("woff2");
    reveal_strlit("txt");
    reveal_strlit("md");
    assert("toml"@.len() != "png"@.len());
    assert("toml"@.len() != "jpg"@.len());
    assert("toml"@[0] != "jpeg"@[0]);
    assert("toml"@.len() != "bmp"@.len());
    assert("toml"@[0] != "webp"@[0]);
    assert("toml"@.len() != "hdr"@.len());
    assert("toml"@.len() != "exr"@.len());
    assert("toml"@[0] != "ktx2"@[0]);
    assert("toml"@[0] != "gltf"@[0]);
    assert("toml"@.len() != "glb"@.len());
    assert("toml"@.len() != "obj"@.len());
    assert("toml"@.len() != "fbx"@.len());
    assert("toml"@.len() != "dae"@.len());
    assert("toml"@.len() != "wav"@.len());
    assert("toml"@.len() != "mp3"@.len());
    assert("toml"@.len() != "ogg"@.len());
    assert("toml"@[0] != "flac"@[0]);
    assert("toml"@[0] != "wgsl"@[0]);
    assert("toml"@[0] != "glsl"@[0]);
    assert("toml"@[0] != "hlsl"@[0]);
    assert("toml"@.len() != "spv"@.len());
    assert("toml"@[0] != "uscn"@[0]);
    assert("toml"@.len() != "scn"@.len());
    assert("toml"@[1] != "tscn"@[1]);
    assert("toml"@[0] != "wasm"@[0]);
    assert("toml"@.len() != "ttf"@.len());
    assert("toml"@.len() != "otf"@.len());
    assert("toml"@[0] != "woff"@[0]);
    assert("toml"@.len() != "woff2"@.len());
    assert("toml"@.len() != "txt"@.len());
    assert("toml"@.len() != "md"@.len());
}

proof fn lemma_literal_kind_json()
    ensures
        spec_asset_type("json"@) == AssetType::Text,
{
    reveal_strlit("json");
    reveal_strlit("png");
    reveal_strlit("jpg");
    reveal_strlit("jpeg");
    reveal_strlit("bmp");
    reveal_strlit("webp");
    reveal_strlit("hdr");
    reveal_strlit("exr");
    reveal_strlit("ktx2");
    reveal_strlit("gltf");
    reveal_strlit("glb");
    reveal_strlit("obj");
    reveal_strlit("fbx");
    reveal_strlit("dae");
    reveal_strlit("wav");
    reveal_strlit("mp3");
    reveal_strlit("ogg");
    reveal_strlit("flac");
    reveal_strlit("wgsl");
    reveal_strlit("glsl");
    reveal_strlit("hlsl");
    reveal_strlit("spv");
    reveal_strlit("uscn");
    reveal_strlit("scn");
    reveal_strlit("tscn");
    reveal_strlit("wasm");
    reveal_strlit("ttf");
    reveal_strlit("otf");
    reveal_strlit("woff");
    reveal_strlit("woff2");
    reveal_strlit("txt");
    reveal_strlit("md");
    reveal_strlit("toml");
    assert("json"@.len() != "png"@.len());
    assert("json"@.len() != "jpg"@.len());
    assert("json"@[1] != "jpeg"@[1]);
    assert("json"@.len() != "bmp"@.len());
    assert("json"@[0] != "webp"@[0]);
    assert("json"@.len() != "hdr"@.len());
    assert("json"@.len() != "exr"@.len());
    assert("json"@[0] != "ktx2"@[0]);
    assert("json"@[0] != "gltf"@[0]);
    assert("json"@.len() != "glb"@.len());
    assert("json"@.len() != "obj"@.len());
    assert("json"@.len() != "fbx"@.len());
    assert("json"@.len() != "dae"@.len());
    assert("json"@.len() != "wav"@.len());
    assert("json"@.len() != "mp3"@.len());
    assert("json"@.len() != "ogg"@.len());
    assert("json"@[0] != "flac"@[0]);
    assert("json"@[0] != "wgsl"@[0]);
    assert("json"@[0] != "glsl"@[0]);
    assert("json"@[0] != "hlsl"@[0]);
    assert("json"@.len() != "spv"@.len());
    assert("json"@[0] != "uscn"@[0]);
    assert("json"@.len() != "scn"@.len());
    assert("json"@[0] != "tscn"@[0]);
    assert("json"@[0] != "wasm"@[0]);
    assert("json"@.len() != "ttf"@.len());
    assert("json"@.len() != "otf"@.len());
    assert("json"@[0] != "woff"@[0]);
    assert("json"@.len() != "woff2"@.len());
    assert("json"@.len() != "txt"@.len());
    assert("json"@.len() != "md"@.len());
    assert("json"@[0] != "toml"@[0]);
}

proof fn lemma_literal_kind_ron()
    ensures
        spec_asset_type("ron"@) == AssetType::Text,
{
    reveal_strlit("ron");
    reveal_strlit("png");
    reveal_strlit("jpg");
    reveal_strlit("jpeg");
    reveal_strlit("bmp");
    reveal_strlit("webp");
    reveal_strlit("hdr");
    reveal_strlit("exr");
    reveal_strlit("ktx2");
    reveal_strlit("gltf");
    reveal_strlit("glb");
    reveal_strlit("obj");
    reveal_strlit("fbx");
    reveal_strlit("dae");
    reveal_strlit("wav");
    reveal_strlit("mp3");
    reveal_strlit("ogg");
    reveal_strlit("flac");
    reveal_strlit("wgsl");
    reveal_strlit("glsl");
    reveal_strlit("hlsl");
    reveal_strlit("spv");
    reveal_strlit("uscn");
    reveal_strlit("scn");
    reveal_strlit("tscn");
    reveal_strlit("wasm");
    reveal_strlit("ttf");
    reveal_strlit("otf");
    reveal_strlit("woff");
    reveal_strlit("woff2");
    reveal_strlit("txt");
    reveal_strlit("md");
    reveal_strlit("toml");
    reveal_strlit("json");
    assert("ron"@[0] != "png"@[0]);
    assert("ron"@[0] != "jpg"@[0]);
    assert("ron"@.len() != "jpeg"@.len());
    assert("ron"@[0] != "bmp"@[0]);
    assert("ron"@.len() != "webp"@.len());
    assert("ron"@[0] != "hdr"@[0]);
    assert("ron"@[0] != "exr"@[0]);
    assert("ron"@.len() != "ktx2"@.len());
    assert("ron"@.len() != "gltf"@.len());
    assert("ron"@[0] != "glb"@[0]);
    assert("ron"@[0] != "obj"@[0]);
    assert("ron"@[0] != "fbx"@[0]);
    assert("ron"@[0] != "dae"@[0]);
    assert("ron"@[0] != "wav"@[0]);
    assert("ron"@[0] != "mp3"@[0]);
    assert("ron"@[0] != "ogg"@[0]);
    assert("ron"@.len() != "flac"@.len());
    assert("ron"@.len() != "wgsl"@.len());
    assert("ron"@.len() != "glsl"@.len());
    assert("ron"@.len() != "hlsl"@.len());
    assert("ron"@[0] != "spv"@[0]);
    assert("ron"@.len() != "uscn"@.len());
    assert("ron"@[0] != "scn"@[0]);
    assert("ron"@.len() != "tscn"@.len());
    assert("ron"@.len() != "wasm"@.len());
    assert("ron"@[0] != "ttf"@[0]);
    assert("ron"@[0] != "otf"@[0]);
    assert("ron"@.len() != "woff"@.len());
    assert("ron"@.len() != "woff2"@.len());
    assert("ron"@[0] != "txt"@[0]);
    assert("ron"@.len() != "md"@.len());
    assert("ron"@.len() != "toml"@.len());
    assert("ron"@.len() != "json"@.len());
}

} // verus!
