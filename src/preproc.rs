use vstd::prelude::*;
use vstd::string::*;
use crate::adapters::{
    active_spec, filter_ok, get_adapters_filtered, match_adapter, match_spec, opt_view,
    AdapterMetadata, FileMatcher, FileMeta, MatchReason,
};
use crate::cache_key::{compute_cache_key, db_name, key_spec, namespace_of, KeyError};

verus! {

/// The settings the pipeline reads.
pub struct RgaConfig {
    /// Sniff content to choose adapters, and let unmatched files through.
    pub accurate: bool,
    /// Names of the adapters that take part; all of them where empty.
    pub adapters: Vec<String>,
    /// Deepest nesting of archives that is still processed; a branch
    /// nested deeper is cut off.
    pub max_archive_recursion: i32,
    /// Largest compressed output that is stored.
    pub cache_max_blob_len: u64,
    pub cache_compression_level: i32,
    pub cache_enabled: bool,
}

/// One unit of work, without its input stream.
pub struct AdaptInfo {
    /// Path used for display and matching; not always a path on disk.
    pub filepath_hint: String,
    /// The input is a file on disk, not a member unpacked from a parent.
    pub is_real_file: bool,
    /// Text put before each output line.
    pub line_prefix: String,
    pub archive_recursion_depth: i32,
    pub postprocess: bool,
}

/// Why a file could not be processed.
pub enum PreprocError {
    /// The path hint has no file name.
    EmptyFilename,
    /// The allowlist names an adapter that does not exist.
    UnknownAdapter(String),
    /// No adapter matched a real top-level file and passthrough is off;
    /// holds the file name.
    NoAdapterFound(String),
    /// The modification time could not be read; holds the path.
    MetadataUnavailable(String),
}

/// What to do with the input.
pub enum Step {
    /// Emit this marker instead of the content: nesting is too deep.
    RecursionLimit(String),
    /// Hand the raw bytes on unchanged.
    Passthrough,
    /// Run the adapter at this registry position, chosen for this reason,
    /// with these active adapters.
    Adapt { adapter: usize, reason: FileMatcher, active: Vec<usize> },
}

/// The text that stands for a branch cut off at the recursion limit.
pub open spec fn limit_marker() -> Seq<char> {
    "[rga: max archive recursion reached]"@
}

/// The name `std::path::Path::file_name` gives a path: its last normal
/// component, if there is one.
pub uninterp spec fn file_name_of(p: Seq<char>) -> Option<Seq<char>>;

/// Relies on `std::path::Path::file_name`, which reads the path's text
/// alone; a name taken from UTF-8 text is UTF-8 itself.
#[verifier::external_body]
fn file_name(p: &str) -> (r: Option<String>)
    ensures
        opt_view(r) == file_name_of(p@),
{
    match std::path::Path::new(p).file_name() {
        Some(n) => Some(n.to_string_lossy().into_owned()),
        None => None,
    }
}

/// Relies on `tree_magic::from_u8`, which guesses a mimetype from the bytes
/// with the mimetype database found on the machine; nothing is promised of
/// the guess.
#[verifier::external_body]
fn sniff(head: &[u8]) -> String {
    tree_magic::from_u8(head)
}

/// The mimetype of a file from the first bytes of its content, looked at
/// only in accurate mode.
pub fn detect_mimetype(accurate: bool, head: &[u8]) -> (r: Option<String>)
    ensures
        r is Some <==> accurate,
{
    if accurate {
        Some(sniff(head))
    } else {
        None
    }
}

/// The mimetype the matcher gets: the sniffed one, in accurate mode only.
pub open spec fn used_mime(config: RgaConfig, mimetype: Option<String>) -> Option<Seq<char>> {
    if config.accurate {
        opt_view(mimetype)
    } else {
        None
    }
}

/// Picks the adapter for a file, with the adapters that take part.
pub fn choose_adapter(
    config: &RgaConfig,
    reg: &Vec<AdapterMetadata>,
    filepath_hint: &String,
    mimetype: Option<String>,
) -> (r: Result<Option<(usize, FileMatcher, Vec<usize>)>, PreprocError>)
    ensures
        !filter_ok(reg@, config.adapters@) <==> r matches Err(PreprocError::UnknownAdapter(_)),
        filter_ok(reg@, config.adapters@) && file_name_of(filepath_hint@) is None <==> r matches Err(
            PreprocError::EmptyFilename,
        ),
        filter_ok(reg@, config.adapters@) ==> (file_name_of(filepath_hint@) matches Some(f) ==> match match_spec(
            reg@,
            active_spec(reg@, config.adapters@),
            used_mime(*config, mimetype),
            f,
        ) {
            Some(p) => r matches Ok(Some(q)) && q.0 == p.0 && q.1@ == p.1 && q.2@ == active_spec(
                reg@,
                config.adapters@,
            ),
            None => r matches Ok(None),
        }),
        r matches Err(e) ==> (e is UnknownAdapter || e is EmptyFilename),
{
    let active = match get_adapters_filtered(reg, &config.adapters) {
        Ok(a) => a,
        Err(n) => {
            return Err(PreprocError::UnknownAdapter(n));
        },
    };
    let filename = match file_name(filepath_hint.as_str()) {
        Some(f) => f,
        None => {
            return Err(PreprocError::EmptyFilename);
        },
    };
    let mimetype = if config.accurate {
        mimetype
    } else {
        None
    };
    let meta = FileMeta { mimetype, lossy_filename: filename };
    match match_adapter(reg, &active, &meta) {
        Some((a, m)) => Ok(Some((a, m, active))),
        None => Ok(None),
    }
}

/// The marker text for a branch cut off at the recursion limit.
fn recursion_marker(line_prefix: &String) -> (r: String)
    ensures
        r@ == line_prefix@ + limit_marker(),
{
    let mut s = line_prefix.clone();
    s.append("[rga: max archive recursion reached]");
    s
}

/// Decides what to do with one input: cut it off where nesting is beyond
/// the limit, else run the chosen adapter, else let the bytes through where
/// the file was unpacked from a parent or accurate mode is on, else fail
/// naming the file.
pub fn rga_preproc(
    config: &RgaConfig,
    reg: &Vec<AdapterMetadata>,
    ai: &AdaptInfo,
    mimetype: Option<String>,
) -> (r: Result<Step, PreprocError>)
    ensures
        ai.archive_recursion_depth > config.max_archive_recursion ==> (r matches Ok(
            Step::RecursionLimit(m),
        ) && m@ == ai.line_prefix@ + limit_marker()),
        ai.archive_recursion_depth <= config.max_archive_recursion ==> {
            &&& (!filter_ok(reg@, config.adapters@) <==> r matches Err(PreprocError::UnknownAdapter(_)))
            &&& (filter_ok(reg@, config.adapters@) && file_name_of(ai.filepath_hint@) is None <==> r matches Err(
                PreprocError::EmptyFilename,
            ))
            &&& filter_ok(reg@, config.adapters@) ==> (file_name_of(ai.filepath_hint@) matches Some(f)
                ==> match match_spec(
                reg@,
                active_spec(reg@, config.adapters@),
                used_mime(*config, mimetype),
                f,
            ) {
                Some(p) => (r matches Ok(Step::Adapt { adapter, reason, active }) && adapter == p.0
                    && reason@ == p.1 && active@ == active_spec(reg@, config.adapters@)),
                None => if !ai.is_real_file || config.accurate {
                    r matches Ok(Step::Passthrough)
                } else {
                    r matches Err(PreprocError::NoAdapterFound(n)) && n@ == f
                },
            })
        },
{
    if ai.archive_recursion_depth > config.max_archive_recursion {
        return Ok(Step::RecursionLimit(recursion_marker(&ai.line_prefix)));
    }
    let chosen = choose_adapter(config, reg, &ai.filepath_hint, mimetype);
    match chosen {
        Err(e) => Err(e),
        Ok(Some((adapter, reason, active))) => Ok(Step::Adapt { adapter, reason, active }),
        Ok(None) => {
            let allow_cat = !ai.is_real_file || config.accurate;
            if allow_cat {
                Ok(Step::Passthrough)
            } else {
                match file_name(ai.filepath_hint.as_str()) {
                    Some(f) => Err(PreprocError::NoAdapterFound(f)),
                    None => Err(PreprocError::EmptyFilename),
                }
            }
        },
    }
}


/// Where an adapter's output is looked up and stored.
pub enum CachePlan {
    /// The input is not a file on disk, or caching is off.
    Uncached,
    /// Look up, and store on completion, under this namespace and key.
    Cached { db_name: String, key: Vec<u8> },
}

/// What follows the cache lookup.
pub enum Next {
    /// Decode this stored blob; the adapter does not run.
    DecodeCached(Vec<u8>),
    /// Run the adapter, and store its output on completion under the
    /// namespace and key given, if any.
    RunAdapter(Option<(String, Vec<u8>)>),
}

/// A cache entry to write.
pub struct CacheWrite {
    pub db_name: String,
    pub key: Vec<u8>,
    pub blob: Vec<u8>,
}

/// The input is cached: it is a file on disk and caching is on.
pub open spec fn caches(config: RgaConfig, ai: AdaptInfo) -> bool {
    ai.is_real_file && config.cache_enabled
}

/// Decides where the chosen adapter's output is cached: under the adapter's
/// namespace and the file's key for a file on disk with caching on, nowhere
/// otherwise.
pub fn run_adapter_recursively(
    config: &RgaConfig,
    reg: &Vec<AdapterMetadata>,
    ai: &AdaptInfo,
    adapter: usize,
    active: &Vec<usize>,
    mtime: Option<(u64, u32)>,
) -> (r: Result<CachePlan, PreprocError>)
    requires
        adapter < reg@.len(),
        forall|i: int| 0 <= i < active@.len() ==> (#[trigger] active@[i]) < reg@.len(),
    ensures
        !caches(*config, *ai) ==> r matches Ok(CachePlan::Uncached),
        caches(*config, *ai) ==> {
            &&& (mtime is None <==> r matches Err(PreprocError::MetadataUnavailable(p)))
            &&& (r matches Err(PreprocError::MetadataUnavailable(p)) ==> p@ == ai.filepath_hint@)
            &&& (mtime is Some <==> r is Ok)
            &&& (r matches Ok(plan) ==> (mtime matches Some(t) && plan matches CachePlan::Cached { db_name, key }
                && db_name@ == namespace_of(reg@[adapter as int].name@, reg@[adapter as int].version)
                && key@ == key_spec(reg@, reg@[adapter as int], active@, ai.filepath_hint@, t.0, t.1)))
        },
{
    if !(ai.is_real_file && config.cache_enabled) {
        return Ok(CachePlan::Uncached);
    }
    let meta = &reg[adapter];
    let db = db_name(meta);
    match compute_cache_key(&ai.filepath_hint, mtime, meta, reg, active) {
        Ok(key) => Ok(CachePlan::Cached { db_name: db, key }),
        Err(KeyError::MetadataUnavailable(p)) => Err(PreprocError::MetadataUnavailable(p)),
    }
}

/// Decides on the result of the cache lookup: a stored blob is decoded and
/// the adapter skipped; otherwise the adapter runs and its output is stored
/// under the plan's namespace and key.
pub fn on_cache_lookup(plan: CachePlan, hit: Option<Vec<u8>>) -> (r: Next)
    ensures
        plan is Cached && hit is Some ==> r == Next::DecodeCached(hit->0),
        plan matches CachePlan::Cached { db_name, key } ==> (hit is None ==> r == Next::RunAdapter(
            Some((db_name, key)),
        )),
        plan is Uncached ==> r == Next::RunAdapter(None),
{
    match plan {
        CachePlan::Uncached => Next::RunAdapter(None),
        CachePlan::Cached { db_name, key } => match hit {
            Some(blob) => Next::DecodeCached(blob),
            None => Next::RunAdapter(Some((db_name, key))),
        },
    }
}

/// The entry to write once the output stream has ended: one exists only
/// where the output was to be stored and its compressed copy stayed within
/// the bound.
pub fn cache_write(write_back: Option<(String, Vec<u8>)>, compressed: Option<Vec<u8>>) -> (r: Option<CacheWrite>)
    ensures
        r is Some <==> write_back is Some && compressed is Some,
        r matches Some(w) ==> (write_back matches Some(p) && compressed matches Some(b) && w.db_name
            == p.0 && w.key == p.1 && w.blob == b),
{
    match (write_back, compressed) {
        (Some((db_name, key)), Some(blob)) => Some(CacheWrite { db_name, key, blob }),
        _ => None,
    }
}

} // verus!
