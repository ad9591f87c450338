//! Asset loader interface and the built-in loaders.
use vstd::prelude::*;
use vstd::utf8::{valid_utf8, decode_utf8};
use crate::asset::types::AssetPath;
use crate::asset_base::AssetError;
use crate::asset_base::types::{path_extension, std_path_extension};
use crate::text::{owned, to_lowercase, lowercase_of, str_eq, last_index_of, lemma_last_index_bounds, lemma_last_index_prefix};

verus! {

/// Declares `std::str::Utf8Error`, the error of `std::str::from_utf8`.
#[verifier::external_type_specification]
#[verifier::external_body]
pub struct ExUtf8Error(std::str::Utf8Error);

/// Declares `std::path::PathBuf`, the root of a file-system loader.
#[verifier::external_type_specification]
#[verifier::external_body]
pub struct ExPathBuf(std::path::PathBuf);

/// `std::str::from_utf8`: the bytes read as UTF-8 text. As its documentation
/// says, it succeeds exactly on valid UTF-8, and then the text is the decoding
/// of the bytes.
#[verifier::external_body]
fn std_from_utf8(bytes: &[u8]) -> (r: Result<&str, std::str::Utf8Error>)
    ensures
        r is Ok <==> valid_utf8(bytes@),
        r matches Ok(s) ==> s@ == decode_utf8(bytes@),
{
    std::str::from_utf8(bytes)
}

/// The text of a UTF-8 decoding error (its `Display`). Nothing is claimed
/// about that text.
#[verifier::external_body]
fn utf8_error_text(e: &std::str::Utf8Error) -> String {
    e.to_string()
}

/// Load context: the asset's path and raw bytes.
#[derive(Debug)]
pub struct LoadContext {
    pub path: AssetPath,
    pub bytes: Vec<u8>,
}

impl LoadContext {
    pub fn new(path: AssetPath, bytes: Vec<u8>) -> (c: LoadContext)
        ensures
            c.path@ == path@,
            c.bytes@ == bytes@,
    {
        LoadContext { path, bytes }
    }

    /// The bytes as UTF-8 text; a `ParseError` naming the path and starting
    /// "UTF-8 decode error: " when they are not valid UTF-8.
    pub fn as_str(&self) -> (r: Result<&str, AssetError>)
        ensures
            r is Ok <==> valid_utf8(self.bytes@),
            r matches Ok(s) ==> s@ == decode_utf8(self.bytes@),
            r matches Err(e) ==> e matches AssetError::ParseError { path, message }
                && path@ == self.path@
                && crate::text::seq_starts_with(message@, "UTF-8 decode error: "@),
    {
        match std_from_utf8(self.bytes.as_slice()) {
            Ok(s) => Ok(s),
            Err(e) => {
                let mut message = owned("UTF-8 decode error: ");
                let ghost prefix = message@;
                let detail = utf8_error_text(&e);
                message.append(detail.as_str());
                assert(message@.subrange(0, prefix.len() as int) =~= prefix);
                Err(AssetError::ParseError { path: owned(self.path.as_str()), message })
            },
        }
    }
}

/// Whether a loader with extensions `exts` takes files with the lowercase
/// extension `e`: some listed extension is `*` or equals it.
pub open spec fn spec_supports(exts: Seq<Seq<char>>, e: Seq<char>) -> bool {
    exists|i: int| 0 <= i < exts.len() && (exts[i] == "*"@ || exts[i] == e)
}

/// Whether an extension list `exts` takes files with extension `ext`:
/// some listed extension is `*` or equals `ext` in lowercase.
pub fn extensions_support(exts: &[&str], ext: &str) -> (b: bool)
    ensures
        b == spec_supports(exts@.map_values(|s: &str| s@), lowercase_of(ext@)),
{
    let lower = to_lowercase(ext);
    let ghost ev = exts@.map_values(|s: &str| s@);
    let mut i: usize = 0;
    while i < exts.len()
        invariant
            i <= exts@.len(),
            ev == exts@.map_values(|s: &str| s@),
            lower@ == lowercase_of(ext@),
            forall|j: int| 0 <= j < i ==> !(ev[j] == "*"@ || ev[j] == lower@),
        decreases exts@.len() - i,
    {
        let e = exts[i];
        if str_eq(e, "*") || str_eq(e, lower.as_str()) {
            assert(ev[i as int] == e@);
            return true;
        }
        i = i + 1;
    }
    false
}

/// Asset loader. Implemented by the engine's loaders and by users.
pub trait AssetLoader {
    /// The extensions this loader takes, as text, where the loader states
    /// them; a loader that does not say states nothing.
    open spec fn extension_names(&self) -> Option<Seq<Seq<char>>> {
        None
    }

    /// File extensions this loader takes (`*` takes every extension).
    fn extensions(&self) -> (r: &[&str])
        ensures
            self.extension_names() matches Some(n) ==> r@.map_values(|s: &str| s@) == n,
    ;

    fn name(&self) -> &str;

    /// Checks and transforms a load context; passes it through unchanged
    /// when the loader does not say otherwise.
    fn load(&self, ctx: LoadContext) -> (r: Result<LoadContext, AssetError>)
        default_ensures
            r matches Ok(c) && c.path@ == ctx.path@ && c.bytes@ == ctx.bytes@,
    {
        Ok(ctx)
    }

    /// Whether the loader takes files with extension `ext` (case-insensitive):
    /// unless the loader says otherwise, exactly when one of its extensions
    /// is `*` or equals `ext` in lowercase.
    fn supports(&self, ext: &str) -> (b: bool)
        default_ensures
            self.extension_names() matches Some(n) ==> b == spec_supports(n, lowercase_of(ext@)),
    {
        extensions_support(self.extensions(), ext)
    }
}

/// Loader that passes the bytes through unchanged.
#[derive(Debug)]
pub struct PassthroughLoader {
    pub supported_extensions: Vec<&'static str>,
    pub loader_name: &'static str,
}

impl Clone for PassthroughLoader {
    fn clone(&self) -> (r: Self)
        ensures
            r.supported_extensions@ == self.supported_extensions@,
            r.loader_name == self.loader_name,
    {
        PassthroughLoader { supported_extensions: self.supported_extensions.clone(), loader_name: self.loader_name }
    }
}

impl PassthroughLoader {
    pub fn new(name: &'static str, extensions: Vec<&'static str>) -> (l: PassthroughLoader)
        ensures
            l.supported_extensions@ == extensions@,
            l.loader_name == name,
    {
        PassthroughLoader { supported_extensions: extensions, loader_name: name }
    }

    /// A loader that takes every extension.
    pub fn all(name: &'static str) -> (l: PassthroughLoader)
        ensures
            l.supported_extensions@.map_values(|s: &str| s@) == seq!["*"@],
            l.loader_name == name,
    {
        let mut v: Vec<&'static str> = Vec::new();
        v.push("*");
        assert(v@.map_values(|s: &str| s@) =~= seq!["*"@]);
        PassthroughLoader { supported_extensions: v, loader_name: name }
    }
}

impl AssetLoader for PassthroughLoader {
    open spec fn extension_names(&self) -> Option<Seq<Seq<char>>> {
        Some(self.supported_extensions@.map_values(|s: &str| s@))
    }

    fn extensions(&self) -> (r: &[&str])
        ensures
            r@ == self.supported_extensions@,
    {
        self.supported_extensions.as_slice()
    }

    fn name(&self) -> (r: &str)
        ensures
            r == self.loader_name,
    {
        self.loader_name
    }

}

/// Loader of files under a root directory (desktop platforms).
#[derive(Debug)]
pub struct FileSystemLoader {
    /// Asset root directory.
    pub root: std::path::PathBuf,
}

impl FileSystemLoader {
    pub fn new(root: std::path::PathBuf) -> (l: FileSystemLoader)
        ensures
            l.root == root,
    {
        FileSystemLoader { root }
    }
}

/// The one-element extension list `["*"]`.
fn every_extension() -> (r: &'static [&'static str])
    ensures
        r@.map_values(|s: &str| s@) == seq!["*"@],
{
    let r: &'static [&'static str] = &["*"];
    assert(r@.map_values(|s: &str| s@) =~= seq!["*"@]);
    r
}

impl AssetLoader for FileSystemLoader {
    open spec fn extension_names(&self) -> Option<Seq<Seq<char>>> {
        Some(seq!["*"@])
    }

    fn extensions(&self) -> (r: &[&str])
        ensures
            r@.map_values(|s: &str| s@) == seq!["*"@],
    {
        every_extension()
    }

    fn name(&self) -> (r: &str)
        ensures
            r@ == "FileSystemLoader"@,
    {
        "FileSystemLoader"
    }

}

/// Loader of assets embedded in the binary as static byte arrays.
#[derive(Debug)]
pub struct EmbeddedLoader {
    entries: Vec<(String, &'static [u8])>,
}

impl EmbeddedLoader {
    pub closed spec fn spec_keys(&self) -> Seq<Seq<char>> {
        self.entries@.map_values(|e: (String, &'static [u8])| e.0@)
    }

    /// The bytes registered under `path`, if any (the latest registration wins).
    pub closed spec fn spec_lookup(&self, path: Seq<char>) -> Option<Seq<u8>> {
        let i = last_index_of(self.spec_keys(), path);
        if i < 0 { None } else { Some(self.entries@[i].1@) }
    }

    pub fn new() -> (l: EmbeddedLoader)
        ensures
            forall|p: Seq<char>| l.spec_lookup(p) is None,
    {
        let l = EmbeddedLoader { entries: Vec::new() };
        assert forall|p: Seq<char>| l.spec_lookup(p) is None by {
            assert(l.spec_keys().len() == 0);
        }
        l
    }

    /// Registers (or replaces) the bytes of an embedded asset.
    pub fn register(&mut self, path: &str, data: &'static [u8])
        ensures
            final(self).spec_lookup(path@) == Some(data@),
            forall|p: Seq<char>| p != path@ ==> final(self).spec_lookup(p) == old(self).spec_lookup(p),
    {
        let ghost old_keys = self.spec_keys();
        self.entries.push((owned(path), data));
        assert(self.spec_keys() =~= old_keys.push(path@));
        assert(self.spec_keys().drop_last() =~= old_keys);
        assert forall|p: Seq<char>| p != path@ implies self.spec_lookup(p) == old(self).spec_lookup(p) by {
            lemma_last_index_bounds(old_keys, p);
        }
    }

    /// The bytes registered under `path`.
    pub fn get_bytes(&self, path: &AssetPath) -> (r: Option<&'static [u8]>)
        ensures
            match r {
                Some(b) => self.spec_lookup(path@) == Some(b@),
                None => self.spec_lookup(path@) is None,
            },
    {
        let key = path.as_str();
        let ghost keys = self.spec_keys();
        let mut i: usize = self.entries.len();
        while i > 0
            invariant
                i <= self.entries@.len(),
                keys == self.spec_keys(),
                key@ == path@,
                forall|j: int| i <= j < keys.len() ==> keys[j] != key@,
            decreases i,
        {
            let j = i - 1;
            if str_eq(self.entries[j].0.as_str(), key) {
                assert(keys[j as int] == key@);
                proof {
                    lemma_last_index_prefix(keys, key@, i as int);
                    assert(keys.take(i as int).last() == key@);
                }
                return Some(self.entries[j].1);
            }
            i = j;
        }
        proof {
            lemma_last_index_prefix(keys, key@, 0);
        }
        None
    }
}

impl Default for EmbeddedLoader {
    fn default() -> (l: Self)
        ensures
            forall|p: Seq<char>| l.spec_lookup(p) is None,
    {
        EmbeddedLoader::new()
    }
}

impl Clone for EmbeddedLoader {
    fn clone(&self) -> (r: Self)
        ensures
            forall|p: Seq<char>| r.spec_lookup(p) == self.spec_lookup(p),
    {
        let mut entries: Vec<(String, &'static [u8])> = Vec::new();
        let mut i: usize = 0;
        while i < self.entries.len()
            invariant
                i <= self.entries@.len(),
                entries@.len() == i,
                forall|j: int| 0 <= j < i ==> entries@[j].0@ == self.entries@[j].0@ && entries@[j].1@ == self.entries@[j].1@,
            decreases self.entries@.len() - i,
        {
            let name = self.entries[i].0.clone();
            entries.push((name, self.entries[i].1));
            i = i + 1;
        }
        let r = EmbeddedLoader { entries };
        assert(r.spec_keys() =~= self.spec_keys());
        assert forall|p: Seq<char>| r.spec_lookup(p) == self.spec_lookup(p) by {
            lemma_last_index_bounds(self.spec_keys(), p);
            let i = last_index_of(self.spec_keys(), p);
            if i >= 0 {
                assert(r.entries@[i].1@ == self.entries@[i].1@);
            }
        }
        r
    }
}

impl AssetLoader for EmbeddedLoader {
    open spec fn extension_names(&self) -> Option<Seq<Seq<char>>> {
        Some(seq!["*"@])
    }

    fn extensions(&self) -> (r: &[&str])
        ensures
            r@.map_values(|s: &str| s@) == seq!["*"@],
    {
        every_extension()
    }

    fn name(&self) -> (r: &str)
        ensures
            r@ == "EmbeddedLoader"@,
    {
        "EmbeddedLoader"
    }

    /// Replaces the context's bytes with the embedded ones; `NotFound` when
    /// nothing is embedded under the context's path.
    fn load(&self, ctx: LoadContext) -> (r: Result<LoadContext, AssetError>)
        ensures
            match self.spec_lookup(ctx.path@) {
                Some(b) => r matches Ok(c) && c.path@ == ctx.path@ && c.bytes@ == b,
                None => r matches Err(e) && e matches AssetError::NotFound { path } && path@ == ctx.path@,
            },
    {
        match self.get_bytes(&ctx.path) {
            Some(bytes) => {
                let v = vstd::slice::slice_to_vec(bytes);
                Ok(LoadContext { path: ctx.path, bytes: v })
            },
            None => Err(AssetError::NotFound { path: owned(ctx.path.as_str()) }),
        }
    }

}

/// Loader that takes the common image formats.
#[derive(Debug, Clone, Copy)]
pub struct ImageLoader;

/// The image extensions `png jpg jpeg bmp webp hdr`.
pub open spec fn image_extensions() -> Seq<Seq<char>> {
    seq!["png"@, "jpg"@, "jpeg"@, "bmp"@, "webp"@, "hdr"@]
}

fn image_extension_list() -> (r: &'static [&'static str])
    ensures
        r@.map_values(|s: &str| s@) == image_extensions(),
{
    let r: &'static [&'static str] = &["png", "jpg", "jpeg", "bmp", "webp", "hdr"];
    assert(r@.map_values(|s: &str| s@) =~= image_extensions());
    r
}

impl AssetLoader for ImageLoader {
    open spec fn extension_names(&self) -> Option<Seq<Seq<char>>> {
        Some(image_extensions())
    }

    fn extensions(&self) -> (r: &[&str])
        ensures
            r@.map_values(|s: &str| s@) == image_extensions(),
    {
        image_extension_list()
    }

    fn name(&self) -> (r: &str)
        ensures
            r@ == "ImageLoader"@,
    {
        "ImageLoader"
    }

}


/// The loaders registered with an asset server, by extension: each extension
/// names the loader registered last for it, as a position in the server's
/// list of loaders.
pub struct LoaderTable {
    keys: Vec<String>,
    slots: Vec<usize>,
    model: Ghost<Map<Seq<char>, usize>>,
}

/// The table after registering `slot` for each extension in `exts`.
pub open spec fn with_extensions(m: Map<Seq<char>, usize>, exts: Seq<Seq<char>>, slot: usize) -> Map<
    Seq<char>,
    usize,
> {
    m.union_prefer_right(Map::new(|k: Seq<char>| exts.contains(k), |k: Seq<char>| slot))
}

/// The loader that takes files whose lowercase extension is `e`: the one
/// registered for `e`, else the one registered for `*`.
pub open spec fn table_lookup(m: Map<Seq<char>, usize>, e: Seq<char>) -> Option<usize> {
    if m.contains_key(e) {
        Some(m[e])
    } else if m.contains_key("*"@) {
        Some(m["*"@])
    } else {
        None
    }
}

/// A path's extension, or the empty text when it has none.
pub open spec fn extension_or_empty(p: Seq<char>) -> Seq<char> {
    match path_extension(p) {
        Some(x) => x,
        None => Seq::<char>::empty(),
    }
}

impl View for LoaderTable {
    type V = Map<Seq<char>, usize>;

    closed spec fn view(&self) -> Map<Seq<char>, usize> {
        self.model@
    }
}

impl LoaderTable {
    /// The table's entries agree with its map, and no extension occurs twice.
    pub closed spec fn wf(&self) -> bool {
        &&& self.keys@.len() == self.slots@.len()
        &&& forall|i: int|
            0 <= i < self.keys@.len() ==> #[trigger] self.model@.contains_key(self.keys@[i]@)
                && self.model@[self.keys@[i]@] == self.slots@[i]
        &&& forall|k: Seq<char>|
            #[trigger] self.model@.contains_key(k) ==> exists|i: int|
                0 <= i < self.keys@.len() && self.keys@[i]@ == k
        &&& forall|i: int, j: int|
            0 <= i < j < self.keys@.len() ==> self.keys@[i]@ != self.keys@[j]@
    }

    /// An empty table.
    pub fn new() -> (t: LoaderTable)
        ensures
            t.wf(),
            t@ == Map::<Seq<char>, usize>::empty(),
    {
        LoaderTable { keys: Vec::new(), slots: Vec::new(), model: Ghost(Map::empty()) }
    }

    fn position(&self, key: &str) -> (r: Option<usize>)
        ensures
            match r {
                Some(i) => i < self.keys@.len() && self.keys@[i as int]@ == key@,
                None => forall|i: int| 0 <= i < self.keys@.len() ==> self.keys@[i]@ != key@,
            },
    {
        let mut i: usize = 0;
        while i < self.keys.len()
            invariant
                i <= self.keys@.len(),
                forall|j: int| 0 <= j < i ==> self.keys@[j]@ != key@,
            decreases self.keys@.len() - i,
        {
            if str_eq(self.keys[i].as_str(), key) {
                return Some(i);
            }
            i = i + 1;
        }
        None
    }

    fn set(&mut self, key: &str, slot: usize)
        requires
            old(self).wf(),
        ensures
            final(self).wf(),
            final(self)@ == old(self)@.insert(key@, slot),
    {
        let ghost m0 = self.model@;
        match self.position(key) {
            Some(i) => {
                self.slots.set(i, slot);
                self.model = Ghost(m0.insert(key@, slot));
                assert forall|k: Seq<char>| #[trigger] self.model@.contains_key(k) implies exists|j: int|
                    0 <= j < self.keys@.len() && self.keys@[j]@ == k by {
                    if k != key@ {
                        assert(m0.contains_key(k));
                    } else {
                        assert(self.keys@[i as int]@ == k);
                    }
                }
            },
            None => {
                let ghost n = self.keys@.len();
                self.keys.push(owned(key));
                self.slots.push(slot);
                self.model = Ghost(m0.insert(key@, slot));
                assert forall|k: Seq<char>| #[trigger] self.model@.contains_key(k) implies exists|j: int|
                    0 <= j < self.keys@.len() && self.keys@[j]@ == k by {
                    if k != key@ {
                        assert(m0.contains_key(k));
                        let j = choose|j: int| 0 <= j < n && old(self).keys@[j]@ == k;
                        assert(self.keys@[j]@ == k);
                    } else {
                        assert(self.keys@[n as int]@ == k);
                    }
                }
            },
        }
    }

    /// Registers the loader at position `slot` for each of `extensions`,
    /// replacing what was registered for them before.
    pub fn register(&mut self, extensions: &[&str], slot: usize)
        requires
            old(self).wf(),
        ensures
            final(self).wf(),
            final(self)@ == with_extensions(old(self)@, extensions@.map_values(|s: &str| s@), slot),
    {
        let ghost exts = extensions@.map_values(|s: &str| s@);
        let mut i: usize = 0;
        while i < extensions.len()
            invariant
                i <= extensions@.len(),
                exts == extensions@.map_values(|s: &str| s@),
                self.wf(),
                self@ == with_extensions(old(self)@, exts.take(i as int), slot),
            decreases extensions@.len() - i,
        {
            let ghost before = self@;
            self.set(extensions[i], slot);
            proof {
                assert(exts[i as int] == extensions@[i as int]@);
                let t0 = exts.take(i as int);
                let t1 = exts.take(i + 1);
                assert(t1 =~= t0.push(exts[i as int]));
                assert forall|k: Seq<char>| #![trigger t1.contains(k)]
                    t1.contains(k) <==> (t0.contains(k) || k == exts[i as int]) by {
                    if t1.contains(k) && k != exts[i as int] {
                        let j = choose|j: int| 0 <= j < t1.len() && t1[j] == k;
                        assert(t0[j] == k);
                    }
                    if t0.contains(k) {
                        let j = choose|j: int| 0 <= j < t0.len() && t0[j] == k;
                        assert(t1[j] == k);
                    }
                    if k == exts[i as int] {
                        assert(t1[i as int] == k);
                    }
                }
                assert(self@ =~= with_extensions(old(self)@, exts.take(i + 1), slot));
            }
            i = i + 1;
        }
        assert(exts.take(extensions@.len() as int) =~= exts);
    }

    /// The position of the loader for the lowercase extension `ext`: the one
    /// registered for `ext`, else the one registered for `*`; else an
    /// `UnsupportedFormat` error naming `ext`.
    pub fn lookup(&self, ext: &str) -> (r: Result<usize, AssetError>)
        requires
            self.wf(),
        ensures
            match table_lookup(self@, ext@) {
                Some(s) => r == Ok::<usize, AssetError>(s),
                None => r matches Err(AssetError::UnsupportedFormat { extension }) && extension@ == ext@,
            },
    {
        match self.position(ext) {
            Some(i) => Ok(self.slots[i]),
            None => {
                proof {
                    if self@.contains_key(ext@) {
                        let j = choose|j: int| 0 <= j < self.keys@.len() && self.keys@[j]@ == ext@;
                    }
                }
                match self.position("*") {
                    Some(i) => Ok(self.slots[i]),
                    None => {
                        proof {
                            if self@.contains_key("*"@) {
                                let j = choose|j: int| 0 <= j < self.keys@.len() && self.keys@[j]@ == "*"@;
                            }
                        }
                        Err(AssetError::UnsupportedFormat { extension: owned(ext) })
                    },
                }
            },
        }
    }

    /// The position of the loader for a path: `lookup` on the path's
    /// extension (empty when it has none) in lowercase.
    pub fn loader_for(&self, path: &AssetPath) -> (r: Result<usize, AssetError>)
        requires
            self.wf(),
        ensures
            match table_lookup(self@, lowercase_of(extension_or_empty(path@))) {
                Some(s) => r == Ok::<usize, AssetError>(s),
                None => r matches Err(AssetError::UnsupportedFormat { extension })
                    && extension@ == lowercase_of(extension_or_empty(path@)),
            },
    {
        let ext = match std_path_extension(path.as_str()) {
            Some(e) => e,
            None => "",
        };
        proof {
            reveal_strlit("");
        }
        assert(ext@ == extension_or_empty(path@));
        let lower = to_lowercase(ext);
        self.lookup(lower.as_str())
    }

    /// The number of extensions with a loader.
    pub fn len(&self) -> (n: usize)
        requires
            self.wf(),
        ensures
            n == self@.len(),
    {
        proof {
            let ks = self.keys@.map_values(|s: String| s@);
            assert forall|a: int, b: int| 0 <= a < b < ks.len() implies ks[a] != ks[b] by {}
            assert(ks.no_duplicates());
            assert(self@.dom() =~= ks.to_set()) by {
                assert forall|k: Seq<char>| self@.dom().contains(k) implies ks.to_set().contains(k) by {
                    let j = choose|j: int| 0 <= j < self.keys@.len() && self.keys@[j]@ == k;
                    assert(ks[j] == k);
                }
                assert forall|k: Seq<char>| ks.to_set().contains(k) implies self@.dom().contains(k) by {
                    let j = choose|j: int| 0 <= j < ks.len() && ks[j] == k;
                    assert(self.model@.contains_key(self.keys@[j]@));
                }
            }
            ks.unique_seq_to_set();
        }
        self.keys.len()
    }
}

} // verus!
