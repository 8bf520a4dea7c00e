//! Which files of a directory listing are NDJSON files.
use std::path::PathBuf;
use vstd::prelude::*;

use crate::error::NdJsonError;
use crate::syntax::opt_view;
use crate::text::{contains_text, same_text, text_contains};

verus! {

/// A file found in a directory, with what the rule below reads of its path.
pub struct Candidate {
    /// The file's path.
    pub path: PathBuf,
    /// The path's extension (what follows the last dot of the file name), if any.
    pub extension: Option<String>,
    /// The whole path as text.
    pub text: String,
}

/// Whether a file counts as NDJSON: its extension is `ndjson` or `jsonl`, or
/// its path holds `.nd.json`.
pub open spec fn is_ndjson_name(extension: Option<Seq<char>>, text: Seq<char>) -> bool {
    extension == Some("ndjson"@) || extension == Some("jsonl"@) || contains_text(text, ".nd.json"@)
}

/// Whether a file with this extension and path text counts as NDJSON.
pub fn is_ndjson_path(extension: &Option<String>, text: &str) -> (r: bool)
    ensures
        r == is_ndjson_name(opt_view(*extension), text@),
{
    let by_extension = match extension {
        Some(e) => same_text(e.as_str(), "ndjson") || same_text(e.as_str(), "jsonl"),
        None => false,
    };
    by_extension || text_contains(text, ".nd.json")
}

/// The paths of the NDJSON files among `candidates`, in order.
pub open spec fn selected(candidates: Seq<Candidate>) -> Seq<PathBuf>
    decreases candidates.len(),
{
    if candidates.len() == 0 {
        Seq::empty()
    } else {
        let before = selected(candidates.drop_last());
        let c = candidates.last();
        if is_ndjson_name(opt_view(c.extension), c.text@) {
            before.push(c.path)
        } else {
            before
        }
    }
}

/// Keeps the NDJSON files of the directory `dir` among `candidates`, in
/// order; finding none is an error.
pub fn select_ndjson_files(dir: &str, candidates: Vec<Candidate>) -> (r: Result<
    Vec<PathBuf>,
    NdJsonError,
>)
    ensures
        match r {
            Ok(paths) => paths@ == selected(candidates@) && paths@.len() > 0,
            Err(NdJsonError::NoFilesFound(d)) => selected(candidates@).len() == 0 && d@ == dir@,
            Err(_) => false,
        },
{
    let ghost all = candidates@;
    let mut paths: Vec<PathBuf> = Vec::new();
    for c in it: candidates
        invariant
            it.seq() == all,
            paths@ == selected(all.take(it.index() as int)),
    {
        let ghost k = it.index();
        assert(all.take(k + 1).drop_last() =~= all.take(k as int));
        assert(all.take(k + 1).last() == c);
        if is_ndjson_path(&c.extension, c.text.as_str()) {
            paths.push(c.path);
        }
    }
    assert(all.take(all.len() as int) =~= all);
    if paths.len() == 0 {
        Err(NdJsonError::NoFilesFound(dir.to_owned()))
    } else {
        Ok(paths)
    }
}

} // verus!
