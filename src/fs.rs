//! File classification used when scanning a workspace.

use vstd::prelude::*;

verus! {

/// The extension of the last component of `path`, as std's `Path::extension`
/// gives it: `None` when the file name has no dot other than a leading one.
pub uninterp spec fn path_extension(p: Seq<char>) -> Option<Seq<char>>;

/// Relies on std's `Path::extension`; an extension that is not valid UTF-8
/// cannot arise from a `&str` path.
#[verifier::external_body]
fn extension_of(path: &str) -> (r: Option<String>)
    ensures
        r matches Some(e) ==> path_extension(path@) == Some(e@),
        r is None ==> path_extension(path@) is None,
{
    std::path::Path::new(path).extension().and_then(|e| e.to_str()).map(|e| e.to_string())
}

/// Extensions of files that are never searched as text.
pub open spec fn binary_extensions() -> Seq<Seq<char>> {
    seq![
        "exe"@, "dll"@, "so"@, "dylib"@, "bin"@, "o"@,
        "png"@, "jpg"@, "jpeg"@, "gif"@, "webp"@,
        "pdf"@, "zip"@, "gz"@, "7z"@, "tar"@,
        "mp3"@, "mp4"@, "avi"@, "mov"@,
    ]
}

/// Whether `ext` is one of the binary file extensions.
pub fn is_binary_extension(ext: &str) -> (b: bool)
    ensures
        b == binary_extensions().contains(ext@),
{
    let known: [&str; 20] = [
        "exe", "dll", "so", "dylib", "bin", "o",
        "png", "jpg", "jpeg", "gif", "webp",
        "pdf", "zip", "gz", "7z", "tar",
        "mp3", "mp4", "avi", "mov",
    ];
    assert(known@.map_values(|s: &str| s@) =~= binary_extensions());
    let mut i: usize = 0;
    while i < 20
        invariant
            i <= 20,
            known@.map_values(|s: &str| s@) == binary_extensions(),
            forall|j: int| 0 <= j < i ==> binary_extensions()[j] != ext@,
        decreases 20 - i,
    {
        if str_eq(known[i], ext) {
            assert(binary_extensions()[i as int] == ext@);
            return true;
        }
        i = i + 1;
    }
    false
}

/// Whether two strings hold the same characters.
pub fn str_eq(a: &str, b: &str) -> (r: bool)
    ensures
        r == (a@ == b@),
{
    let n = a.unicode_len();
    if n != b.unicode_len() {
        return false;
    }
    let mut i: usize = 0;
    while i < n
        invariant
            n == a@.len(),
            n == b@.len(),
            i <= n,
            forall|j: int| 0 <= j < i ==> a@[j] == b@[j],
        decreases n - i,
    {
        if a.get_char(i) != b.get_char(i) {
            return false;
        }
        i = i + 1;
    }
    assert(a@ =~= b@);
    true
}

/// What is known of a file without reading it.
#[derive(Debug, Clone, Copy, PartialEq, Eq, Structural)]
pub struct FileMetadata {
    /// Size in bytes.
    pub size: u64,
    /// Last modification, in whole seconds since the Unix epoch.
    pub modified: u64,
    pub is_binary: bool,
}

/// lru's cache, opaque to proofs; `cache_contents` names what it holds.
#[verifier::external_type_specification]
#[verifier::external_body]
#[verifier::reject_recursive_types(K)]
#[verifier::reject_recursive_types(V)]
#[verifier::reject_recursive_types(S)]
pub struct ExLruCache<K, V, S>(lru::LruCache<K, V, S>);

/// The hasher lru's cache uses by default, opaque to proofs.
#[verifier::external_type_specification]
#[verifier::external_body]
pub struct ExDefaultHasher(lru::DefaultHasher);

/// The contents of an empty cache.
pub open spec fn no_files() -> Map<Seq<char>, Seq<char>> {
    Map::empty()
}

/// What a file cache holds: path to content.
pub uninterp spec fn cache_contents(c: lru::LruCache<String, String>) -> Map<Seq<char>, Seq<char>>;

/// The number of entries a file cache keeps at most.
pub uninterp spec fn cache_capacity(c: lru::LruCache<String, String>) -> nat;

/// Relies on lru's `LruCache::new`: an empty cache that keeps at most `cap`
/// entries.
#[verifier::external_body]
fn new_cache(cap: usize) -> (r: lru::LruCache<String, String>)
    requires
        cap > 0,
    ensures
        cache_contents(r) == no_files(),
        cache_capacity(r) == cap,
{
    lru::LruCache::new(std::num::NonZeroUsize::new(cap).unwrap())
}

/// Relies on lru's `LruCache::get`: the value stored under the key, if any;
/// the lookup only marks the entry as recently used.
#[verifier::external_body]
fn cache_get(c: &mut lru::LruCache<String, String>, k: &str) -> (r: Option<String>)
    ensures
        cache_contents(*final(c)) == cache_contents(*old(c)),
        cache_capacity(*final(c)) == cache_capacity(*old(c)),
        r is None <==> !cache_contents(*old(c)).contains_key(k@),
        r matches Some(v) ==> cache_contents(*old(c))[k@] == v@,
{
    c.get(k).cloned()
}

/// Relies on lru's `LruCache::put`: the key now maps to the value. When the
/// key is new and the cache is full, the least recently used entry is
/// dropped; nothing else changes.
#[verifier::external_body]
fn cache_put(c: &mut lru::LruCache<String, String>, k: String, v: String)
    ensures
        cache_capacity(*final(c)) == cache_capacity(*old(c)),
        cache_contents(*final(c)).contains_key(k@),
        cache_contents(*final(c))[k@] == v@,
        forall|key: Seq<char>|
            #[trigger] cache_contents(*final(c)).contains_key(key) && key != k@ ==> cache_contents(
                *old(c),
            ).contains_key(key) && cache_contents(*final(c))[key] == cache_contents(*old(c))[key],
        cache_contents(*old(c)).contains_key(k@) || cache_contents(*old(c)).len() < cache_capacity(
            *old(c),
        ) ==> cache_contents(*final(c)) == cache_contents(*old(c)).insert(k@, v@),
{
    c.put(k, v);
}

/// The number of files whose content is kept in memory.
pub const CACHE_CAPACITY: usize = 1024;

/// Manages files of the workspace: the cache of their contents, and their
/// classification.
pub struct FSManager {
    pub cache: lru::LruCache<String, String>,
}

impl FSManager {
    /// The cached contents, by path.
    pub open spec fn contents(&self) -> Map<Seq<char>, Seq<char>> {
        cache_contents(self.cache)
    }

    /// A manager with an empty cache.
    pub fn new() -> (m: FSManager)
        ensures
            m.contents() == no_files(),
            cache_capacity(m.cache) == CACHE_CAPACITY,
    {
        FSManager { cache: new_cache(CACHE_CAPACITY) }
    }

    /// The cached content of `path`, if any; reading marks it recently used.
    pub fn cached(&mut self, path: &str) -> (r: Option<String>)
        ensures
            final(self).contents() == old(self).contents(),
            r is None <==> !old(self).contents().contains_key(path@),
            r matches Some(v) ==> old(self).contents()[path@] == v@,
    {
        cache_get(&mut self.cache, path)
    }

    /// Records `content` as the content of `path`, after reading or writing
    /// it. Other entries stay, but for the least recently used one when the
    /// path is new and the cache is full.
    pub fn remember(&mut self, path: String, content: String)
        ensures
            final(self).contents().contains_key(path@),
            final(self).contents()[path@] == content@,
            forall|key: Seq<char>|
                #[trigger] final(self).contents().contains_key(key) && key != path@ ==> old(
                    self,
                ).contents().contains_key(key) && final(self).contents()[key] == old(self).contents()[key],
            old(self).contents().contains_key(path@) || old(self).contents().len() < cache_capacity(
                old(self).cache,
            ) ==> final(self).contents() == old(self).contents().insert(path@, content@),
    {
        cache_put(&mut self.cache, path, content);
    }

    /// Whether the file at `path` is binary, judged by its extension.
    pub fn is_binary_file(path: &str) -> (b: bool)
        ensures
            b == (path_extension(path@) matches Some(e) && binary_extensions().contains(e)),
    {
        match extension_of(path) {
            Some(e) => is_binary_extension(e.as_str()),
            None => false,
        }
    }
}

} // verus!
