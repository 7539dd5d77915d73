//! Decisions about input files: which container a data file is, which zip
//! entry holds its CSV, and which of the places a path may be in is used.

use crate::error::ImportError;
use crate::text::{ends_with, lower_text, text_ends_with, to_lower};
use vstd::prelude::*;
use vstd::string::*;

verus! {

/// How a data file's bytes are packed.
#[derive(Debug, Clone, Copy, PartialEq, Eq, Structural)]
pub enum Container {
    Plain,
    Gzip,
    Zip,
}

/// A zip file by its extension, else gzip when the path ends in `.gz`,
/// in any case; else plain CSV.
pub open spec fn container_of(extension: Seq<char>, path: Seq<char>) -> Container {
    if lower_text(extension) == seq!['z', 'i', 'p'] {
        Container::Zip
    } else if ends_with(lower_text(path), seq!['.', 'g', 'z']) {
        Container::Gzip
    } else {
        Container::Plain
    }
}

/// The container of the data file at `path`, whose extension is `extension`
/// (empty when it has none).
pub fn container_format(extension: &str, path: &str) -> (r: Container)
    ensures
        r == container_of(extension@, path@),
{
    proof {
        reveal_strlit("zip");
        reveal_strlit(".gz");
    }
    assert("zip"@ =~= seq!['z', 'i', 'p']);
    assert(".gz"@ =~= seq!['.', 'g', 'z']);
    let ext = to_lower(extension);
    let zip = "zip".to_owned();
    if ext == zip {
        Container::Zip
    } else if text_ends_with(to_lower(path).as_str(), ".gz") {
        Container::Gzip
    } else {
        Container::Plain
    }
}

/// A zip entry name that ends in `.csv`, in any case.
pub open spec fn is_csv_entry(name: Seq<char>) -> bool {
    ends_with(lower_text(name), seq!['.', 'c', 's', 'v'])
}

/// The first entry of a zip archive whose name ends in `.csv`.
pub fn first_csv_entry(names: &Vec<String>) -> (r: Result<usize, ImportError>)
    ensures
        match r {
            Ok(i) => i < names@.len() && is_csv_entry(names@[i as int]@) && forall|j: int|
                0 <= j < i ==> !is_csv_entry(#[trigger] names@[j]@),
            Err(e) => e == ImportError::NoCsvEntry && forall|j: int|
                0 <= j < names@.len() ==> !is_csv_entry(#[trigger] names@[j]@),
        },
{
    proof {
        reveal_strlit(".csv");
    }
    assert(".csv"@ =~= seq!['.', 'c', 's', 'v']);
    let mut i: usize = 0;
    while i < names.len()
        invariant
            i <= names.len(),
            ".csv"@ == seq!['.', 'c', 's', 'v'],
            forall|j: int| 0 <= j < i ==> !is_csv_entry(#[trigger] names@[j]@),
        decreases names.len() - i,
    {
        let low = to_lower(names[i].as_str());
        assert(low@ == lower_text(names@[i as int]@));
        if text_ends_with(low.as_str(), ".csv") {
            return Ok(i);
        }
        i = i + 1;
    }
    Err(ImportError::NoCsvEntry)
}

/// Which candidate path to use, and whether to make it canonical first.
#[derive(Debug, Clone, Copy, PartialEq, Eq, Structural)]
pub struct Resolution {
    pub candidate: usize,
    pub canonicalize: bool,
}

/// Whether candidate `k` exists.
pub open spec fn found(exists: Seq<bool>, k: int) -> bool {
    k < exists.len() && exists[k]
}

/// Candidates, in order: the path as given, then the path under the project
/// directory, then under its parent. An absolute path that exists is used as
/// it is; any other hit is made canonical.
pub open spec fn project_fallback(path_is_absolute: bool, exists: Seq<bool>) -> Result<
    Resolution,
    ImportError,
> {
    if path_is_absolute && found(exists, 0) {
        Ok(Resolution { candidate: 0, canonicalize: false })
    } else if found(exists, 0) {
        Ok(Resolution { candidate: 0, canonicalize: true })
    } else if found(exists, 1) {
        Ok(Resolution { candidate: 1, canonicalize: true })
    } else if found(exists, 2) {
        Ok(Resolution { candidate: 2, canonicalize: true })
    } else {
        Err(ImportError::PathNotFound)
    }
}

/// Picks among a path, the path under the project directory and the path
/// under the project directory's parent; `exists[k]` tells whether the
/// `k`-th of them exists.
pub fn resolve_with_project_fallback(path_is_absolute: bool, exists: &Vec<bool>) -> (r: Result<
    Resolution,
    ImportError,
>)
    ensures
        r == project_fallback(path_is_absolute, exists@),
{
    let found0 = exists.len() > 0 && exists[0];
    if path_is_absolute && found0 {
        return Ok(Resolution { candidate: 0, canonicalize: false });
    }
    if found0 {
        return Ok(Resolution { candidate: 0, canonicalize: true });
    }
    let mut k: usize = 1;
    while k < 3
        invariant
            1 <= k <= 3,
            !found(exists@, 0),
            forall|j: int| 1 <= j < k ==> !found(exists@, j),
        decreases 3 - k,
    {
        if k < exists.len() && exists[k] {
            return Ok(Resolution { candidate: k, canonicalize: true });
        }
        k = k + 1;
    }
    Err(ImportError::PathNotFound)
}

/// Candidates, in order: the path as given, the path under the data
/// directory, then the project fallbacks.
pub open spec fn file_resolution(path_is_absolute: bool, exists: Seq<bool>) -> Result<
    Resolution,
    ImportError,
> {
    if path_is_absolute && found(exists, 0) {
        Ok(Resolution { candidate: 0, canonicalize: false })
    } else if found(exists, 0) {
        Ok(Resolution { candidate: 0, canonicalize: true })
    } else if found(exists, 1) {
        Ok(Resolution { candidate: 1, canonicalize: true })
    } else if found(exists, 2) {
        Ok(Resolution { candidate: 2, canonicalize: true })
    } else if found(exists, 3) {
        Ok(Resolution { candidate: 3, canonicalize: true })
    } else {
        Err(ImportError::FileNotFound)
    }
}

/// Picks among a data file path, the path under the data directory, and the
/// path under the project directory and its parent; `exists[k]` tells
/// whether the `k`-th of them exists.
pub fn resolve_file_path(path_is_absolute: bool, exists: &Vec<bool>) -> (r: Result<
    Resolution,
    ImportError,
>)
    ensures
        r == file_resolution(path_is_absolute, exists@),
{
    let found0 = exists.len() > 0 && exists[0];
    if path_is_absolute && found0 {
        return Ok(Resolution { candidate: 0, canonicalize: false });
    }
    if found0 {
        return Ok(Resolution { candidate: 0, canonicalize: true });
    }
    if exists.len() > 1 && exists[1] {
        return Ok(Resolution { candidate: 1, canonicalize: true });
    }
    let project = vec![false, exists.len() > 2 && exists[2], exists.len() > 3 && exists[3]];
    match resolve_with_project_fallback(path_is_absolute, &project) {
        Ok(found) => Ok(Resolution { candidate: found.candidate + 1, canonicalize: true }),
        Err(_) => Err(ImportError::FileNotFound),
    }
}

} // verus!
