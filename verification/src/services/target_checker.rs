//! Which changed paths are backed up.

use vstd::prelude::*;
use crate::services::extensions::{Extensions, lowered, has_listed_extension};

verus! {

/// The rule that decides which paths are backed up.
pub struct TargetChecker {
    all_files_enabled: bool,
    extensions: Extensions,
    windows: bool,
}

/// The rule as values: every file, or the files whose lower-cased extension is
/// listed, with paths read as on Windows when `windows`.
pub struct TargetCheckerView {
    pub all_files_enabled: bool,
    pub extensions: Set<Seq<char>>,
    pub windows: bool,
}

impl View for TargetChecker {
    type V = TargetCheckerView;

    closed spec fn view(&self) -> TargetCheckerView {
        TargetCheckerView {
            all_files_enabled: self.all_files_enabled,
            extensions: self.extensions@,
            windows: self.windows,
        }
    }
}

/// Whether the rule takes `path`, a file: every file when all files are
/// enabled, else a file whose extension, lower-cased, is listed.
pub open spec fn is_target_path(c: TargetCheckerView, path: Seq<char>) -> bool {
    c.all_files_enabled || has_listed_extension(c.extensions, path, c.windows)
}

impl TargetChecker {
    /// The rule from the settings: the flag for all files and the extensions,
    /// which are lower-cased.
    /// Paths are read as on Windows when `windows`.
    pub fn new_on(all_files_enabled: bool, extensions: &[String], windows: bool) -> (r: Self)
        ensures
            r@.all_files_enabled == all_files_enabled,
            r@.extensions == lowered(extensions@.map_values(|s: String| s@)),
            r@.windows == windows,
    {
        TargetChecker { all_files_enabled, extensions: Extensions::from_list(extensions), windows }
    }

    /// The rule from the settings, with paths read as on the platform the
    /// crate was built for.
    pub fn new(all_files_enabled: bool, extensions: &[String]) -> (r: Self)
        ensures
            r@.all_files_enabled == all_files_enabled,
            r@.extensions == lowered(extensions@.map_values(|s: String| s@)),
    {
        TargetChecker::new_on(all_files_enabled, extensions, crate::path::windows_paths())
    }

    /// Whether `path` is backed up; `is_file` says whether the path names an
    /// existing file (a folder, or a file already gone, is never backed up).
    pub fn is_target(&self, path: &str, is_file: bool) -> (r: bool)
        ensures
            r == (is_file && is_target_path(self@, path@)),
    {
        if !is_file {
            return false;
        }
        self.is_target_logic(path)
    }

    /// Whether the rule takes `path`, given that it names a file.
    pub fn is_target_logic(&self, path: &str) -> (r: bool)
        ensures
            r == is_target_path(self@, path@),
    {
        if self.all_files_enabled {
            return true;
        }
        self.extensions.contains_on(path, self.windows)
    }
}

} // verus!
