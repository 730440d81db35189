use vstd::prelude::*;

verus! {

/// The file-name extension of a dynamic library: `dll` on Windows, `so`
/// elsewhere.
pub open spec fn library_extension(windows: bool) -> Seq<char> {
    if windows {
        seq!['d', 'l', 'l']
    } else {
        seq!['s', 'o']
    }
}

/// The file-name extension of a dynamic library on the platform.
pub fn library_suffix(windows: bool) -> (r: String)
    ensures
        r@ == library_extension(windows),
{
    proof {
        reveal_strlit("dll");
        reveal_strlit("so");
    }
    if windows {
        "dll".to_owned()
    } else {
        "so".to_owned()
    }
}

/// Whether a directory entry is a plugin candidate: a regular file whose
/// extension is the platform's dynamic-library extension. `extension` is
/// `None` when the file name has no extension.
pub fn is_candidate(is_file: bool, extension: &Option<String>, windows: bool) -> (r: bool)
    ensures
        r == (is_file && extension is Some && extension->0@ == library_extension(windows)),
{
    if !is_file {
        return false;
    }
    match extension {
        Some(e) => *e == library_suffix(windows),
        None => false,
    }
}

} // verus!
