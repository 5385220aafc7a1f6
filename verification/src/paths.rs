//! Paths under the app data directory: where the rolling backup lives and
//! the checks that keep caller-supplied relative paths inside it.

use vstd::prelude::*;

use crate::error::MythicError;
use crate::text::{concat3, owned, str_trim, trim_ws};

verus! {

/// The name of the directory, under the app data directory, that holds backups.
pub const BACKUP_DIR_NAME: &'static str = "backups";

/// The file name of the rolling automatic backup, rewritten on every start.
pub const AUTO_BACKUP_FILENAME: &'static str = "janus_auto_backup.surql";

/// The kind of one component of a path, as `std::path::Component` tells them apart.
#[derive(Debug, Clone, Copy, PartialEq, Eq, Structural)]
pub enum PathPart {
    /// A Windows drive or UNC prefix.
    Prefix,
    /// The root directory.
    RootDir,
    /// `.`
    CurDir,
    /// `..`
    ParentDir,
    /// A plain name.
    Normal,
}

/// The component kinds of `s` read as a path (`Path::components`).
pub uninterp spec fn path_parts_of(s: Seq<char>) -> Seq<PathPart>;

/// Calls `Path::components` on `s` and keeps the kind of each component.
#[verifier::external_body]
fn path_parts(s: &str) -> (r: Vec<PathPart>)
    ensures
        r@ == path_parts_of(s@),
{
    std::path::Path::new(s).components().map(|c| match c {
        std::path::Component::Prefix(_) => PathPart::Prefix,
        std::path::Component::RootDir => PathPart::RootDir,
        std::path::Component::CurDir => PathPart::CurDir,
        std::path::Component::ParentDir => PathPart::ParentDir,
        std::path::Component::Normal(_) => PathPart::Normal,
    }).collect()
}

/// Whether a path has a component that can leave the directory it is
/// joined onto: `..`, a root, or a drive prefix.
pub open spec fn has_escaping_part(parts: Seq<PathPart>) -> bool {
    exists|i: int|
        0 <= i < parts.len() && (#[trigger] parts[i] == PathPart::ParentDir || parts[i] == PathPart::RootDir
            || parts[i] == PathPart::Prefix)
}

/// The message of a refused relative path.
pub open spec fn invalid_path_message(relative: Seq<char>) -> Seq<char> {
    "Invalid path: '"@ + relative + "'"@
}

/// Checks a caller-supplied path before it is joined onto a base
/// directory: it must not be blank, and none of its components may be
/// `..`, a root or a drive prefix.
pub fn check_relative_path(relative: &str) -> (r: Result<(), MythicError>)
    ensures
        trim_ws(relative@).len() == 0 ==> (r matches Err(MythicError::Validation(m)) && m@
            == "Path cannot be empty"@),
        trim_ws(relative@).len() > 0 && has_escaping_part(path_parts_of(relative@)) ==> (r matches Err(
            MythicError::Validation(m),
        ) && m@ == invalid_path_message(relative@)),
        trim_ws(relative@).len() > 0 && !has_escaping_part(path_parts_of(relative@)) ==> r is Ok,
{
    if str_trim(relative).unicode_len() == 0 {
        return Err(MythicError::Validation(owned("Path cannot be empty")));
    }
    let parts = path_parts(relative);
    let mut i: usize = 0;
    while i < parts.len()
        invariant
            i <= parts@.len(),
            trim_ws(relative@).len() > 0,
            parts@ == path_parts_of(relative@),
            forall|j: int|
                0 <= j < i ==> !(#[trigger] parts@[j] == PathPart::ParentDir || parts@[j] == PathPart::RootDir
                    || parts@[j] == PathPart::Prefix),
        decreases parts.len() - i,
    {
        let p = parts[i];
        if p == PathPart::ParentDir || p == PathPart::RootDir || p == PathPart::Prefix {
            return Err(MythicError::Validation(concat3("Invalid path: '", relative, "'")));
        }
        i = i + 1;
    }
    Ok(())
}

/// The verdict on a joined path once both it and the base directory have
/// been canonicalised: `inside` is `None` when either could not be (the
/// target does not exist yet), else whether the joined path starts with
/// the base. Only a path known to lead outside is refused.
pub fn check_containment(relative: &str, inside: Option<bool>) -> (r: Result<(), MythicError>)
    ensures
        inside == Some(false) ==> (r matches Err(MythicError::Validation(m)) && m@ == invalid_path_message(
            relative@,
        )),
        inside != Some(false) ==> r is Ok,
{
    match inside {
        Some(false) => Err(MythicError::Validation(concat3("Invalid path: '", relative, "'"))),
        _ => Ok(()),
    }
}

} // verus!
