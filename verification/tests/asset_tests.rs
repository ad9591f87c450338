use ummerse::asset_base::types::{AssetPath as BasePath, ImageAsset as BaseImage, ImageFormat, ShaderAsset as BaseShader, ShaderSource as BaseSource, ShaderStage, TextAsset as BaseText};
use ummerse::asset_base::watcher::{AssetChangedEvent, AssetWatcher, ChangeKind};
use ummerse::asset_base::{AssetError, AssetType};
use ummerse::asset::loader::{extensions_support, AssetLoader, EmbeddedLoader, ImageLoader, LoadContext, LoaderTable, PassthroughLoader};
use ummerse::asset::types::{AssetPath, ImageAsset, PixelFormat, ShaderAsset, TextAsset};

#[test]
fn asset_types_from_extensions() {
    assert_eq!(AssetType::from_extension("png"), AssetType::Image);
    assert_eq!(AssetType::from_extension("PNG"), AssetType::Image);
    assert_eq!(AssetType::from_extension("glb"), AssetType::Mesh);
    assert_eq!(AssetType::from_extension("Ogg"), AssetType::Audio);
    assert_eq!(AssetType::from_extension("wgsl"), AssetType::Shader);
    assert_eq!(AssetType::from_extension("uscn"), AssetType::Scene);
    assert_eq!(AssetType::from_extension("wasm"), AssetType::Script);
    assert_eq!(AssetType::from_extension("ttf"), AssetType::Font);
    assert_eq!(AssetType::from_extension("json"), AssetType::Text);
    assert_eq!(AssetType::from_extension("xyz"), AssetType::Unknown);
    assert_eq!(AssetType::from_extension(""), AssetType::Unknown);
}

#[test]
fn base_paths_and_images() {
    let p = BasePath::new("textures/Player.PNG");
    assert_eq!(p.as_str(), "textures/Player.PNG");
    assert_eq!(p.extension(), Some("PNG"));
    assert_eq!(p.extension_lower(), "png");
    assert_eq!(BasePath::new("README").extension(), None);
    assert_eq!(BasePath::new("README").extension_lower(), "");
    let img = BaseImage::new(4, 2, ImageFormat::Rgba8Unorm, vec![0u8; 32]);
    assert_eq!(img.pixel_count(), 8);
    assert_eq!(img.byte_size(), 32);
    assert_eq!(img.mip_levels, 1);
    assert_eq!(ImageFormat::Rgba16Float.bytes_per_pixel(), 8);
    assert_eq!(ImageFormat::Bc7RgbaUnorm.bytes_per_pixel(), 1);
    let s = BaseShader::wgsl("sprite", ShaderStage::Fragment, "fn main() {}");
    assert!(matches!(s.source, BaseSource::Wgsl(ref t) if t == "fn main() {}"));
    let t = BaseText::utf8("hello");
    assert_eq!(t.content, "hello");
}

#[test]
fn watcher_is_first_in_first_out() {
    let mut w = AssetWatcher::new();
    assert!(w.poll_events().is_empty());
    w.send_event(AssetChangedEvent { path: "a.png".to_string(), kind: ChangeKind::Created });
    w.send_event(AssetChangedEvent { path: "b.png".to_string(), kind: ChangeKind::Modified });
    let events = w.poll_events();
    assert_eq!(events.len(), 2);
    assert_eq!(events[0].path, "a.png");
    assert_eq!(events[1].kind, ChangeKind::Modified);
    assert!(w.poll_events().is_empty());
}

#[test]
fn resource_paths() {
    let p = AssetPath::new("assets/sprites/hero.idle.png");
    assert_eq!(p.extension().as_deref(), Some("png"));
    assert_eq!(p.file_name(), Some("hero.idle.png"));
    assert_eq!(p.stem(), Some("hero.idle"));
    assert_eq!(AssetPath::new("dir/").file_name(), Some("dir"));
    assert_eq!(AssetPath::new("..").file_name(), None);
}

#[test]
fn solid_images() {
    let img = ImageAsset::solid_color(2, 3, [1, 2, 3, 4]);
    assert_eq!(img.pixel_count(), 6);
    assert_eq!(img.data.len(), 24);
    assert_eq!(&img.data[4..8], &[1, 2, 3, 4]);
    assert_eq!(img.format, PixelFormat::Rgba8);
    assert_eq!(img.bytes_per_pixel(), 4);
    assert_eq!(ImageAsset::white_pixel().data, vec![255, 255, 255, 255]);
    assert_eq!(ImageAsset::black_pixel().data, vec![0, 0, 0, 255]);
    let s = ShaderAsset::from_wgsl("@vertex fn vs_main() {}");
    assert_eq!(s.source_text(), Some("@vertex fn vs_main() {}"));
    assert_eq!(s.vertex_entry, "vs_main");
    assert_eq!(s.fragment_entry, "fs_main");
    assert_eq!(TextAsset::new("x").encoding, "utf-8");
}

#[test]
fn load_contexts_decode_utf8() {
    let ok = LoadContext::new(AssetPath::new("a.txt"), b"hello".to_vec());
    assert_eq!(ok.as_str().unwrap(), "hello");
    let bad = LoadContext::new(AssetPath::new("b.txt"), vec![0xff, 0xfe]);
    match bad.as_str() {
        Err(AssetError::ParseError { path, message }) => {
            assert_eq!(path, "b.txt");
            assert!(message.starts_with("UTF-8 decode error: "));
            assert!(message.len() > "UTF-8 decode error: ".len());
        }
        _ => panic!("expected a parse error"),
    }
}

const LOGO: &[u8] = &[1, 2, 3];
const LOGO2: &[u8] = &[9];

#[test]
fn embedded_loader() {
    let mut l = EmbeddedLoader::new();
    assert!(l.get_bytes(&AssetPath::new("logo.png")).is_none());
    l.register("logo.png", LOGO);
    assert_eq!(l.get_bytes(&AssetPath::new("logo.png")), Some(LOGO));
    l.register("logo.png", LOGO2);
    assert_eq!(l.get_bytes(&AssetPath::new("logo.png")), Some(LOGO2));
    let ctx = l.load(LoadContext::new(AssetPath::new("logo.png"), Vec::new())).unwrap();
    assert_eq!(ctx.bytes, vec![9]);
    match l.load(LoadContext::new(AssetPath::new("missing.png"), Vec::new())) {
        Err(AssetError::NotFound { path }) => assert_eq!(path, "missing.png"),
        _ => panic!("expected not found"),
    }
    let c = l.clone();
    assert_eq!(c.get_bytes(&AssetPath::new("logo.png")), Some(LOGO2));
    assert!(l.supports("anything"));
}

#[test]
fn loaders_support_extensions() {
    assert!(ImageLoader.supports("PNG"));
    assert!(ImageLoader.supports("hdr"));
    assert!(!ImageLoader.supports("wav"));
    assert_eq!(ImageLoader.name(), "ImageLoader");
    let p = PassthroughLoader::new("text", vec!["txt", "md"]);
    assert!(p.supports("MD"));
    assert!(!p.supports("png"));
    assert!(PassthroughLoader::all("any").supports("bin"));
    assert!(extensions_support(&["*"], "x"));
    assert!(!extensions_support(&[], "x"));
    let ctx = p.load(LoadContext::new(AssetPath::new("a.txt"), vec![1])).unwrap();
    assert_eq!(ctx.bytes, vec![1]);
}

#[test]
fn loader_table_picks_extension_then_wildcard() {
    let mut table = LoaderTable::new();
    assert_eq!(table.len(), 0);
    assert!(matches!(
        table.loader_for(&AssetPath::new("a/b.png")),
        Err(AssetError::UnsupportedFormat { ref extension }) if extension == "png"
    ));
    table.register(&["png", "jpg"], 0);
    table.register(&["*"], 1);
    assert_eq!(table.len(), 3);
    assert_eq!(table.loader_for(&AssetPath::new("a/b.PNG")).unwrap(), 0);
    assert_eq!(table.loader_for(&AssetPath::new("a/b.jpg")).unwrap(), 0);
    assert_eq!(table.loader_for(&AssetPath::new("a/b.txt")).unwrap(), 1);
    assert_eq!(table.loader_for(&AssetPath::new("noext")).unwrap(), 1);
    table.register(&["jpg"], 2);
    assert_eq!(table.len(), 3);
    assert_eq!(table.loader_for(&AssetPath::new("x.jpg")).unwrap(), 2);
    assert_eq!(table.lookup("png").unwrap(), 0);
}

#[test]
fn loader_table_error_names_lowercase_extension() {
    let mut table = LoaderTable::new();
    table.register(&["json"], 0);
    match table.loader_for(&AssetPath::new("scene.TOML")) {
        Err(AssetError::UnsupportedFormat { extension }) => assert_eq!(extension, "toml"),
        _ => panic!("expected an unsupported format"),
    }
    match table.loader_for(&AssetPath::new("noext")) {
        Err(AssetError::UnsupportedFormat { extension }) => assert_eq!(extension, ""),
        _ => panic!("expected an unsupported format"),
    }
}

#[test]
fn resource_path_extension_is_lowercase() {
    let p = AssetPath::new("textures/Player.PNG");
    assert_eq!(p.extension().as_deref(), Some("png"));
    assert_eq!(p.as_str(), "textures/Player.PNG");
    assert_eq!(AssetPath::new("README").extension(), None);
}

#[test]
fn resource_path_conversions_and_equality() {
    let s = "scenes/main.uscn";
    assert_eq!(AssetPath::new(s).as_str(), s);
    assert_eq!(AssetPath::new(s).to_string(), s);
    assert!(AssetPath::new(s) == AssetPath::from(s));
    assert!(AssetPath::from(String::from(s)) == AssetPath::new(s));
    assert!(AssetPath::new("a.png") != AssetPath::new("b.png"));
}

#[test]
fn base_path_conversions_and_equality() {
    let s = "textures/hero.png";
    assert_eq!(BasePath::new(s).as_str(), s);
    assert_eq!(BasePath::new(s).to_string(), s);
    assert!(BasePath::new(s) == BasePath::from(s));
    assert!(BasePath::from(String::from(s)) == BasePath::new(s));
    assert!(BasePath::new("a") != BasePath::new("b"));
}
