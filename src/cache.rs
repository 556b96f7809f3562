use crate::error::WikiError;
use crate::formats::PageFormat;
use vstd::prelude::*;

verus! {

/// How long a cached page stays fresh: 14 days, in seconds.
pub const CACHE_TTL_SECS: u64 = 1_209_600;

/// The directories the program keeps its files in.
#[derive(Debug)]
pub struct AppDirs {
    pub data_dir: String,
    pub cache_dir: String,
    pub log_dir: String,
}

/// The file name that sanitize-filename makes of a page or category name.
pub uninterp spec fn sanitized(name: Seq<char>) -> Seq<char>;

/// Relies on sanitize-filename's `sanitize_with_options` with fixed options
/// (no Windows rules, names cut at 255 bytes, illegal characters dropped):
/// a file name made from `name` alone.
#[verifier::external_body]
pub(crate) fn to_save_file_name(name: &str) -> (r: String)
    ensures
        r@ == sanitized(name@),
{
    let options = sanitize_filename::Options { windows: false, truncate: true, replacement: "" };
    sanitize_filename::sanitize_with_options(name, options)
}

/// The file extension of a format; empty for plain text.
pub open spec fn extension(format: PageFormat) -> Seq<char> {
    match format {
        PageFormat::PlainText => Seq::empty(),
        PageFormat::Markdown => "md"@,
        PageFormat::Html => "html"@,
    }
}

/// `name` inside the directory `dir`.
pub open spec fn joined_path(dir: Seq<char>, name: Seq<char>) -> Seq<char> {
    if dir.len() == 0 {
        name
    } else if dir.last() == '/' {
        dir + name
    } else {
        dir + "/"@ + name
    }
}

/// `name` with the extension `ext`, if there is one.
pub open spec fn with_extension(name: Seq<char>, ext: Seq<char>) -> Seq<char> {
    if ext.len() == 0 {
        name
    } else {
        name + "."@ + ext
    }
}

/// The file of a page in a directory: the sanitized title with the format's
/// extension.
pub open spec fn page_file(page: Seq<char>, format: PageFormat, dir: Seq<char>) -> Seq<char> {
    joined_path(dir, with_extension(sanitized(page), extension(format)))
}

fn extension_str(format: &PageFormat) -> (r: &'static str)
    ensures
        r@ == extension(*format),
{
    match format {
        PageFormat::PlainText => {
            proof {
                reveal_strlit("");
            }
            ""
        },
        PageFormat::Markdown => "md",
        PageFormat::Html => "html",
    }
}

/// Joins a directory and a name.
pub fn join_path(dir: &str, name: &str) -> (r: String)
    ensures
        r@ == joined_path(dir@, name@),
{
    let mut r = String::from_str(dir);
    let len = dir.unicode_len();
    if len > 0 && dir.get_char(len - 1) != '/' {
        r.append("/");
    }
    r.append(name);
    r
}

/// Path of the file that holds `page` in `format` inside `parent_dir`.
pub fn page_path(page: &str, format: &PageFormat, parent_dir: &str) -> (r: String)
    ensures
        r@ == page_file(page@, *format, parent_dir@),
{
    let mut name = to_save_file_name(page);
    let ext = extension_str(format);
    if ext.unicode_len() > 0 {
        name.append(".");
        name.append(ext);
    }
    join_path(parent_dir, name.as_str())
}

/// A cached copy as old as `age` seconds is still fresh.
pub fn is_cache_fresh(secs_since_modified: u64) -> (r: bool)
    ensures
        r == (secs_since_modified < CACHE_TTL_SECS),
{
    secs_since_modified < CACHE_TTL_SECS
}

/// Whether a cached page can be used: it must exist, and be fresh unless
/// invalidation is disabled. The age is only read when it decides.
pub fn page_cache_exists(
    cache_exists: bool,
    disable_cache_invalidation: bool,
    secs_since_modified: Result<u64, WikiError>,
) -> (r: Result<bool, WikiError>)
    ensures
        !cache_exists ==> r == Ok::<bool, WikiError>(false),
        cache_exists && disable_cache_invalidation ==> r == Ok::<bool, WikiError>(true),
        cache_exists && !disable_cache_invalidation ==> match secs_since_modified {
            Ok(age) => r == Ok::<bool, WikiError>(age < CACHE_TTL_SECS),
            Err(e) => r == Err::<bool, WikiError>(e),
        },
{
    if !cache_exists {
        return Ok(false);
    } else if disable_cache_invalidation {
        return Ok(true);
    }
    match secs_since_modified {
        Ok(age) => Ok(is_cache_fresh(age)),
        Err(e) => Err(e),
    }
}

/// Whether an interactive read takes the cached copy instead of fetching.
pub fn read_from_cache(ignore_cache: bool, fresh: Result<bool, WikiError>) -> (r: bool)
    ensures
        r == (!ignore_cache && fresh == Ok::<bool, WikiError>(true)),
{
    if ignore_cache {
        false
    } else {
        match fresh {
            Ok(f) => f,
            Err(_) => false,
        }
    }
}

/// Whether a failed fetch falls back to a cached copy, stale or not.
pub fn fall_back_to_cache(ignore_cache: bool, cache_exists: bool) -> (r: bool)
    ensures
        r == (!ignore_cache && cache_exists),
{
    !ignore_cache && cache_exists
}

/// Whether an interactive read writes the page to the cache: only a page
/// fetched just now, and only when writing is not turned off. A page read
/// from the cache, fresh or stale, leaves the cached copy and its age alone.
pub fn write_to_cache(no_cache_write: bool, fetched: bool) -> (r: bool)
    ensures
        r == (!no_cache_write && fetched),
{
    !no_cache_write && fetched
}

} // verus!
