//! The user's settings, and the check that they can start a watch.

use vstd::prelude::*;
use crate::path::{same_path_in, path_eq_in, windows_paths};
use crate::text::chars_of;
use crate::models::notify::ConfigError;

verus! {

/// The user's settings.
#[derive(Debug, Clone, PartialEq, Eq)]
pub struct Config {
    /// The folder that is watched.
    pub source_path: String,
    /// The folder that receives the copies.
    pub destination_path: String,
    /// Whether subfolders are watched too.
    pub recursive: bool,
    /// Whether every file is backed up (else only the listed extensions).
    pub all_files_enabled: bool,
    /// The extensions of the files to back up.
    pub extensions: Vec<String>,
    /// Whether backups are announced on the desktop.
    pub is_notify: bool,
    /// Whether a long time without a save is announced.
    pub is_notify_unsaved: bool,
    /// How many minutes without a save make one announcement.
    pub notify_interval: u32,
    /// Whether the window is shown when the application starts.
    pub is_shown: bool,
    /// Whether the watch starts when the application starts.
    pub auto_start: bool,
}

/// Settings as values.
pub struct ConfigView {
    pub source_path: Seq<char>,
    pub destination_path: Seq<char>,
    pub recursive: bool,
    pub all_files_enabled: bool,
    pub extensions: Seq<Seq<char>>,
    pub is_notify: bool,
    pub is_notify_unsaved: bool,
    pub notify_interval: u32,
    pub is_shown: bool,
    pub auto_start: bool,
}

pub open spec fn string_views(v: Seq<String>) -> Seq<Seq<char>> {
    v.map_values(|s: String| s@)
}

impl View for Config {
    type V = ConfigView;

    open spec fn view(&self) -> ConfigView {
        ConfigView {
            source_path: self.source_path@,
            destination_path: self.destination_path@,
            recursive: self.recursive,
            all_files_enabled: self.all_files_enabled,
            extensions: string_views(self.extensions@),
            is_notify: self.is_notify,
            is_notify_unsaved: self.is_notify_unsaved,
            notify_interval: self.notify_interval,
            is_shown: self.is_shown,
            auto_start: self.auto_start,
        }
    }
}

/// The settings of a fresh installation: no folders and no extensions chosen,
/// subfolders and all files included, backups announced, no unsaved-time
/// announcement (interval 30 minutes), window shown, no automatic start.
pub open spec fn default_config() -> ConfigView {
    ConfigView {
        source_path: Seq::<char>::empty(),
        destination_path: Seq::<char>::empty(),
        recursive: true,
        all_files_enabled: true,
        extensions: Seq::<Seq<char>>::empty(),
        is_notify: true,
        is_notify_unsaved: false,
        notify_interval: 30,
        is_shown: true,
        auto_start: false,
    }
}

impl Default for Config {
    fn default() -> (c: Self)
        ensures
            c@ == default_config(),
    {
        let c = Config {
            source_path: String::new(),
            destination_path: String::new(),
            recursive: true,
            all_files_enabled: true,
            extensions: Vec::new(),
            is_notify: true,
            is_notify_unsaved: false,
            notify_interval: 30,
            is_shown: true,
            auto_start: false,
        };
        assert(c@.extensions =~= Seq::<Seq<char>>::empty());
        c
    }
}

/// A copy of a list of strings.
pub fn copy_strings(v: &Vec<String>) -> (r: Vec<String>)
    ensures
        string_views(r@) == string_views(v@),
{
    let mut r: Vec<String> = Vec::new();
    let mut i: usize = 0;
    while i < v.len()
        invariant
            i <= v.len(),
            string_views(r@) == string_views(v@).take(i as int),
        decreases v.len() - i,
    {
        let s = v[i].clone();
        let ghost pre = string_views(r@);
        r.push(s);
        assert(string_views(r@) =~= pre.push(s@));
        i = i + 1;
        assert(string_views(v@).take(i as int) =~= string_views(v@).take(i - 1).push(v@[i - 1]@));
    }
    assert(string_views(v@).take(v.len() as int) =~= string_views(v@));
    r
}

impl Config {
    /// A copy of these settings.
    pub fn copy(&self) -> (c: Config)
        ensures
            c@ == self@,
    {
        Config {
            source_path: self.source_path.clone(),
            destination_path: self.destination_path.clone(),
            recursive: self.recursive,
            all_files_enabled: self.all_files_enabled,
            extensions: copy_strings(&self.extensions),
            is_notify: self.is_notify,
            is_notify_unsaved: self.is_notify_unsaved,
            notify_interval: self.notify_interval,
            is_shown: self.is_shown,
            auto_start: self.auto_start,
        }
    }

    /// Checks the settings before a watch starts, and writes the folders in the
    /// canonical form that the file system gave.
    ///
    /// `source` and `destination` are the canonical forms of the two folders,
    /// each `None` when the path cannot be canonicalised or is not a folder.
    /// The checks come in this order, and the first that fails is returned:
    /// the watched folder, the backup folder (the watched folder is already
    /// rewritten when this fails), the two being the same, an empty extension
    /// list when not all files are backed up, an unsaved-time interval under one
    /// minute when that announcement is on. Only the two folder fields change.
    ///
    /// The two folders are compared as paths of Windows (`windows`) or of
    /// other systems.
    pub fn validate_on(
        &mut self,
        source: Option<String>,
        destination: Option<String>,
        windows: bool,
    ) -> (r: Result<(), ConfigError>)
        ensures
            r == validation_result(old(self)@, opt_chars(source), opt_chars(destination), windows),
            final(self)@ == validated(old(self)@, opt_chars(source), opt_chars(destination)),
            r == Err::<(), ConfigError>(ConfigError::NoExtension) ==> !old(self).all_files_enabled
                && old(self).extensions.len() == 0,
            r == Err::<(), ConfigError>(ConfigError::InvalidNotifyInterval) ==> old(
                self,
            ).is_notify_unsaved && old(self).notify_interval == 0,
            (source is Some && destination is Some && (old(self).all_files_enabled || old(
                self,
            ).extensions.len() >= 1) && (!old(self).is_notify_unsaved || old(self).notify_interval
                >= 1)) ==> (r is Ok || r == Err::<(), ConfigError>(ConfigError::PathConflict)),
    {
        match source {
            None => {
                return Err(ConfigError::InvalidSourcePath);
            },
            Some(s) => {
                self.source_path = s;
            },
        }
        match destination {
            None => {
                return Err(ConfigError::InvalidDestinationPath);
            },
            Some(d) => {
                self.destination_path = d;
            },
        }
        let a = chars_of(self.source_path.as_str());
        let b = chars_of(self.destination_path.as_str());
        if path_eq_in(&a, &b, windows) {
            return Err(ConfigError::PathConflict);
        }
        if !self.all_files_enabled && self.extensions.len() < 1 {
            return Err(ConfigError::NoExtension);
        }
        if self.is_notify_unsaved && self.notify_interval < 1 {
            return Err(ConfigError::InvalidNotifyInterval);
        }
        Ok(())
    }

    /// The check of `validate_on`, with the folders compared as paths of the
    /// platform the crate was built for.
    pub fn validate(&mut self, source: Option<String>, destination: Option<String>) -> (r: Result<
        (),
        ConfigError,
    >)
        ensures
            r == validation_result(old(self)@, opt_chars(source), opt_chars(destination), false)
                || r == validation_result(
                old(self)@,
                opt_chars(source),
                opt_chars(destination),
                true,
            ),
            final(self)@ == validated(old(self)@, opt_chars(source), opt_chars(destination)),
    {
        self.validate_on(source, destination, windows_paths())
    }
}

pub open spec fn opt_chars(o: Option<String>) -> Option<Seq<char>> {
    match o {
        Some(s) => Some(s@),
        None => None,
    }
}

/// The outcome of the checks on settings `c`, given the canonical folders
/// (paths of Windows when `windows`).
pub open spec fn validation_result(
    c: ConfigView,
    source: Option<Seq<char>>,
    destination: Option<Seq<char>>,
    windows: bool,
) -> Result<(), ConfigError> {
    if source is None {
        Err(ConfigError::InvalidSourcePath)
    } else if destination is None {
        Err(ConfigError::InvalidDestinationPath)
    } else if same_path_in(source->0, destination->0, windows) {
        Err(ConfigError::PathConflict)
    } else if !c.all_files_enabled && c.extensions.len() < 1 {
        Err(ConfigError::NoExtension)
    } else if c.is_notify_unsaved && c.notify_interval < 1 {
        Err(ConfigError::InvalidNotifyInterval)
    } else {
        Ok(())
    }
}

/// The settings after the checks: each folder that was reached is replaced by
/// its canonical form.
pub open spec fn validated(
    c: ConfigView,
    source: Option<Seq<char>>,
    destination: Option<Seq<char>>,
) -> ConfigView {
    match source {
        None => c,
        Some(s) => match destination {
            None => ConfigView { source_path: s, ..c },
            Some(d) => ConfigView { source_path: s, destination_path: d, ..c },
        },
    }
}


/// Law of the check: settings that passed it pass it again unchanged, with the
/// same canonical folders; whatever the outcome, only the folder fields move.
pub proof fn lemma_validate_idempotent(
    c: ConfigView,
    source: Option<Seq<char>>,
    destination: Option<Seq<char>>,
    windows: bool,
)
    ensures
        validation_result(c, source, destination, windows) is Ok ==> {
            &&& validation_result(validated(c, source, destination), source, destination, windows) is Ok
            &&& validated(validated(c, source, destination), source, destination) == validated(
                c,
                source,
                destination,
            )
        },
        validated(c, source, destination).extensions == c.extensions,
        validated(c, source, destination).all_files_enabled == c.all_files_enabled,
        validated(c, source, destination).notify_interval == c.notify_interval,
{
}

/// Law of the settings check, what passes: with both folders reached and
/// different, settings pass when they back up all files or list at least one
/// extension (with all files backed up the list does not matter), and when the
/// unsaved-time announcement is off or comes every minute or less often.
pub proof fn lemma_validation_accepts(
    c: ConfigView,
    source: Seq<char>,
    destination: Seq<char>,
    windows: bool,
)
    requires
        !same_path_in(source, destination, windows),
        c.all_files_enabled || c.extensions.len() >= 1,
        !c.is_notify_unsaved || c.notify_interval >= 1,
    ensures
        validation_result(c, Some(source), Some(destination), windows) == Ok::<(), ConfigError>(()),
{
}

/// Law of the settings check, what is refused and why: a missing watched
/// folder; a missing backup folder; the same folder twice; no extension while
/// only listed extensions are backed up; an unsaved-time interval of zero
/// minutes while that announcement is on. Each refusal comes only from its
/// own cause.
pub proof fn lemma_validation_refusals(
    c: ConfigView,
    source: Option<Seq<char>>,
    destination: Option<Seq<char>>,
    windows: bool,
)
    ensures
        validation_result(c, source, destination, windows) == Err::<(), ConfigError>(
            ConfigError::InvalidSourcePath,
        ) <==> source is None,
        validation_result(c, source, destination, windows) == Err::<(), ConfigError>(
            ConfigError::InvalidDestinationPath,
        ) <==> (source is Some && destination is None),
        validation_result(c, source, destination, windows) == Err::<(), ConfigError>(
            ConfigError::PathConflict,
        ) <==> (source is Some && destination is Some && same_path_in(
            source->0,
            destination->0,
            windows,
        )),
        validation_result(c, source, destination, windows) == Err::<(), ConfigError>(
            ConfigError::NoExtension,
        ) ==> !c.all_files_enabled && c.extensions.len() == 0,
        validation_result(c, source, destination, windows) == Err::<(), ConfigError>(
            ConfigError::InvalidNotifyInterval,
        ) ==> c.is_notify_unsaved && c.notify_interval == 0,
{
}

} // verus!
