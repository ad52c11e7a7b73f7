//! The extension-list watch, with its own rule for the paths it
//! reports: with all files enabled, paths that are not files are dropped
//! silently; otherwise a path is backed up when its extension is listed,
//! whether or not it is a file.

use vstd::prelude::*;
use crate::models::config::{Config, ConfigView, validation_result, validated, opt_chars};
use crate::models::message::WatchInfo;
use crate::models::notify::ConfigError;
use crate::services::app_manager::{DebounceOutcome, DetectedPath, WatchEvent, EventKindClass, is_change};
use crate::services::extensions::{Extensions, has_listed_extension};
use crate::services::backup::{destination_folder_on, destination_folder_of};

verus! {

/// Checks the settings (see `Config::validate_on`, with the folders compared
/// as paths of Windows when `windows`) and hands them back with the folders
/// in canonical form.
pub fn validate_config_on(
    config: Config,
    source: Option<String>,
    destination: Option<String>,
    windows: bool,
) -> (r: Result<Config, ConfigError>)
    ensures
        match r {
            Ok(c) => {
                &&& validation_result(config@, opt_chars(source), opt_chars(destination), windows) is Ok
                &&& c@ == validated(config@, opt_chars(source), opt_chars(destination))
            },
            Err(e) => validation_result(config@, opt_chars(source), opt_chars(destination), windows)
                == Err::<(), ConfigError>(e),
        },
{
    let mut config = config;
    match config.validate_on(source, destination, windows) {
        Ok(()) => Ok(config),
        Err(e) => Err(e),
    }
}

/// Whether `r` is what checking `config` gives with the folders compared as
/// paths of Windows (`windows`) or of other systems.
pub open spec fn checked_as(
    config: ConfigView,
    source: Option<Seq<char>>,
    destination: Option<Seq<char>>,
    windows: bool,
    r: Result<ConfigView, ConfigError>,
) -> bool {
    match r {
        Ok(c) => {
            &&& validation_result(config, source, destination, windows) is Ok
            &&& c == validated(config, source, destination)
        },
        Err(e) => validation_result(config, source, destination, windows) == Err::<(), ConfigError>(e),
    }
}

/// Checks the settings as `validate_config_on` does, with the folders
/// compared as paths of the platform the crate was built for.
pub fn validate_config(config: Config, source: Option<String>, destination: Option<String>) -> (r:
    Result<Config, ConfigError>)
    ensures
        checked_as(config@, opt_chars(source), opt_chars(destination), false, config_result(r))
            || checked_as(config@, opt_chars(source), opt_chars(destination), true, config_result(r)),
{
    validate_config_on(config, source, destination, crate::path::windows_paths())
}

/// A checked result as values.
pub open spec fn config_result(r: Result<Config, ConfigError>) -> Result<ConfigView, ConfigError> {
    match r {
        Ok(c) => Ok(c@),
        Err(e) => Err(e),
    }
}

/// What is to be done for a batch in the extension-list watch.
#[derive(Debug, Clone, PartialEq, Eq)]
pub enum WatchAction {
    Notify(WatchInfo),
    Backup(String),
}

/// An action as values.
pub enum WatchActionView {
    Detected(Seq<char>),
    Unspecified(Seq<char>),
    DebounceError,
    Backup(Seq<char>),
}

pub open spec fn watch_action_view(a: WatchAction) -> WatchActionView {
    match a {
        WatchAction::Notify(WatchInfo::ModificationDetected(p)) => WatchActionView::Detected(p@),
        WatchAction::Notify(WatchInfo::UnspecifiedExtension(p)) => WatchActionView::Unspecified(p@),
        WatchAction::Notify(WatchInfo::DebounceError) => WatchActionView::DebounceError,
        WatchAction::Backup(p) => WatchActionView::Backup(p@),
    }
}

pub open spec fn watch_action_views(v: Seq<WatchAction>) -> Seq<WatchActionView> {
    v.map_values(|a: WatchAction| watch_action_view(a))
}

/// The actions for one path under the extension-list rule.
pub open spec fn watch_path_actions(
    all: bool,
    exts: Set<Seq<char>>,
    windows: bool,
    p: DetectedPath,
) -> Seq<WatchActionView> {
    if all && !p.is_file {
        Seq::<WatchActionView>::empty()
    } else if !all && !has_listed_extension(exts, p.path@, windows) {
        seq![WatchActionView::Unspecified(p.path@)]
    } else {
        seq![WatchActionView::Detected(p.path@), WatchActionView::Backup(p.path@)]
    }
}

pub open spec fn watch_paths_actions(
    all: bool,
    exts: Set<Seq<char>>,
    windows: bool,
    ps: Seq<DetectedPath>,
) -> Seq<WatchActionView>
    decreases ps.len(),
{
    if ps.len() == 0 {
        Seq::<WatchActionView>::empty()
    } else {
        watch_paths_actions(all, exts, windows, ps.drop_last()) + watch_path_actions(
            all,
            exts,
            windows,
            ps.last(),
        )
    }
}

pub open spec fn watch_events_actions(
    all: bool,
    exts: Set<Seq<char>>,
    windows: bool,
    es: Seq<WatchEvent>,
) -> Seq<WatchActionView>
    decreases es.len(),
{
    if es.len() == 0 {
        Seq::<WatchActionView>::empty()
    } else {
        watch_events_actions(all, exts, windows, es.drop_last()) + if is_change(es.last().kind) {
            watch_paths_actions(all, exts, windows, es.last().paths@)
        } else {
            Seq::<WatchActionView>::empty()
        }
    }
}

/// The actions for what the debouncer reported, under the extension-list rule.
pub open spec fn watch_outcome_actions(
    all: bool,
    exts: Set<Seq<char>>,
    windows: bool,
    o: DebounceOutcome,
) -> Seq<WatchActionView> {
    match o {
        DebounceOutcome::Errors => seq![WatchActionView::DebounceError],
        DebounceOutcome::Events(es) => watch_events_actions(all, exts, windows, es@),
    }
}

fn push_watch_action(acts: &mut Vec<WatchAction>, a: WatchAction)
    ensures
        watch_action_views(final(acts)@) == watch_action_views(old(acts)@).push(
            watch_action_view(a),
        ),
{
    let ghost pre = acts@;
    acts.push(a);
    assert(watch_action_views(acts@) =~= watch_action_views(pre).push(watch_action_view(a)));
}

fn watch_paths(
    all_files_enabled: bool,
    extensions: &Extensions,
    windows: bool,
    paths: &Vec<DetectedPath>,
    acts: &mut Vec<WatchAction>,
)
    ensures
        watch_action_views(final(acts)@) == watch_action_views(old(acts)@) + watch_paths_actions(
            all_files_enabled,
            extensions@, windows,
            paths@,
        ),
{
    let ghost start = watch_action_views(acts@);
    let ghost exts = extensions@;
    let mut j: usize = 0;
    assert(paths@.take(0) =~= Seq::<DetectedPath>::empty());
    assert(start + watch_paths_actions(all_files_enabled, exts, windows, paths@.take(0)) =~= start);
    while j < paths.len()
        invariant
            j <= paths.len(),
            exts == extensions@,
            watch_action_views(acts@) == start + watch_paths_actions(
                all_files_enabled,
                exts, windows,
                paths@.take(j as int),
            ),
        decreases paths.len() - j,
    {
        let p = &paths[j];
        let ghost before = watch_action_views(acts@);
        if all_files_enabled && !p.is_file {
        } else if !all_files_enabled && !extensions.contains_on(p.path.as_str(), windows) {
            push_watch_action(acts, WatchAction::Notify(WatchInfo::UnspecifiedExtension(p.path.clone())));
        } else {
            push_watch_action(acts, WatchAction::Notify(WatchInfo::ModificationDetected(p.path.clone())));
            push_watch_action(acts, WatchAction::Backup(p.path.clone()));
        }
        assert(watch_action_views(acts@) =~= before + watch_path_actions(all_files_enabled, exts, windows, *p));
        assert(paths@.take(j + 1).drop_last() =~= paths@.take(j as int));
        assert(paths@.take(j + 1).last() == *p);
        j = j + 1;
        assert(watch_action_views(acts@) =~= start + watch_paths_actions(
            all_files_enabled,
            exts, windows,
            paths@.take(j as int),
        ));
    }
    assert(paths@.take(paths.len() as int) =~= paths@);
}

/// What the extension-list watch does with what the debouncer reported, with
/// paths read as on Windows when `windows`.
pub fn watch_callback_actions_on(
    result: &DebounceOutcome,
    all_files_enabled: bool,
    extensions: &Extensions,
    windows: bool,
) -> (acts: Vec<WatchAction>)
    ensures
        watch_action_views(acts@) == watch_outcome_actions(all_files_enabled, extensions@, windows, *result),
{
    let mut acts: Vec<WatchAction> = Vec::new();
    match result {
        DebounceOutcome::Errors => {
            push_watch_action(&mut acts, WatchAction::Notify(WatchInfo::DebounceError));
            assert(watch_action_views(acts@) =~= seq![WatchActionView::DebounceError]);
        },
        DebounceOutcome::Events(events) => {
            let mut i: usize = 0;
            assert(events@.take(0) =~= Seq::<WatchEvent>::empty());
            assert(watch_action_views(acts@) =~= watch_events_actions(
                all_files_enabled,
                extensions@, windows,
                events@.take(0),
            ));
            while i < events.len()
                invariant
                    i <= events.len(),
                    watch_action_views(acts@) == watch_events_actions(
                        all_files_enabled,
                        extensions@, windows,
                        events@.take(i as int),
                    ),
                decreases events.len() - i,
            {
                let e = &events[i];
                let ghost before = watch_action_views(acts@);
                let change = match e.kind {
                    EventKindClass::Modify => true,
                    EventKindClass::Create => true,
                    _ => false,
                };
                if change {
                    watch_paths(all_files_enabled, extensions, windows, &e.paths, &mut acts);
                } else {
                    assert(before + Seq::<WatchActionView>::empty() =~= before);
                }
                assert(events@.take(i + 1).drop_last() =~= events@.take(i as int));
                assert(events@.take(i + 1).last() == *e);
                i = i + 1;
            }
            assert(events@.take(events.len() as int) =~= events@);
        },
    }
    acts
}

/// What the extension-list watch does with what the debouncer reported, with
/// paths read as on the platform the crate was built for.
pub fn watch_callback_actions(
    result: &DebounceOutcome,
    all_files_enabled: bool,
    extensions: &Extensions,
) -> (acts: Vec<WatchAction>)
    ensures
        watch_action_views(acts@) == watch_outcome_actions(
            all_files_enabled,
            extensions@,
            false,
            *result,
        ) || watch_action_views(acts@) == watch_outcome_actions(
            all_files_enabled,
            extensions@,
            true,
            *result,
        ),
{
    watch_callback_actions_on(result, all_files_enabled, extensions, crate::path::windows_paths())
}

/// The folder that receives the copy of `path` (paths of Windows when
/// `windows`): with subfolders watched, the matching subfolder of the backup
/// folder; otherwise the backup folder.
pub fn backup_folder_for_on(
    recursive: bool,
    watch_path: &str,
    destination: &str,
    path: &str,
    windows: bool,
) -> (r: String)
    ensures
        recursive ==> r@ == destination_folder_of(watch_path@, destination@, path@, windows),
        !recursive ==> r@ == destination@,
{
    if recursive {
        destination_folder_on(watch_path, destination, path, windows)
    } else {
        crate::text::string_of(&crate::text::chars_of(destination))
    }
}

/// The folder that receives the copy of `path`, as `backup_folder_for_on`
/// gives it for paths of the platform the crate was built for.
pub fn backup_folder_for(recursive: bool, watch_path: &str, destination: &str, path: &str) -> (r:
    String)
    ensures
        recursive ==> (r@ == destination_folder_of(watch_path@, destination@, path@, false) || r@
            == destination_folder_of(watch_path@, destination@, path@, true)),
        !recursive ==> r@ == destination@,
{
    backup_folder_for_on(recursive, watch_path, destination, path, crate::path::windows_paths())
}

/// Law of the extension-list watch: a creation is handled as a change. An
/// event that creates files gives the same actions as one that modifies the
/// same paths, namely those of its paths; and a created file that the rule
/// takes (every file, or one whose extension is listed) is announced as
/// detected and then backed up.
pub proof fn lemma_watch_creations(
    all: bool,
    exts: Set<Seq<char>>,
    windows: bool,
    created: WatchEvent,
    modified: WatchEvent,
)
    requires
        created.kind == EventKindClass::Create,
        modified.kind == EventKindClass::Modify,
        created.paths@ == modified.paths@,
    ensures
        watch_events_actions(all, exts, windows, seq![created]) == watch_events_actions(
            all,
            exts,
            windows,
            seq![modified],
        ),
        watch_events_actions(all, exts, windows, seq![created]) == watch_paths_actions(
            all,
            exts,
            windows,
            created.paths@,
        ),
        created.paths@.len() == 1 && created.paths@[0].is_file && (all || has_listed_extension(
            exts,
            created.paths@[0].path@,
            windows,
        )) ==> watch_events_actions(all, exts, windows, seq![created]) == seq![
            WatchActionView::Detected(created.paths@[0].path@),
            WatchActionView::Backup(created.paths@[0].path@),
        ],
{
    assert(seq![created].drop_last() =~= Seq::<WatchEvent>::empty());
    assert(seq![modified].drop_last() =~= Seq::<WatchEvent>::empty());
    assert(seq![created].last() == created);
    assert(seq![modified].last() == modified);
    let ps = created.paths@;
    assert(watch_events_actions(all, exts, windows, seq![created]) == watch_events_actions(
        all,
        exts,
        windows,
        Seq::<WatchEvent>::empty(),
    ) + watch_paths_actions(all, exts, windows, ps));
    assert(Seq::<WatchActionView>::empty() + watch_paths_actions(all, exts, windows, ps) =~= watch_paths_actions(all, exts, windows, ps));
    if ps.len() == 1 {
        assert(ps.drop_last() =~= Seq::<DetectedPath>::empty());
        assert(ps.last() == ps[0]);
        assert(watch_paths_actions(all, exts, windows, ps) == watch_paths_actions(
            all,
            exts,
            windows,
            Seq::<DetectedPath>::empty(),
        ) + watch_path_actions(all, exts, windows, ps[0]));
        assert(Seq::<WatchActionView>::empty() + watch_path_actions(all, exts, windows, ps[0])
            =~= watch_path_actions(all, exts, windows, ps[0]));
    }
}

} // verus!
