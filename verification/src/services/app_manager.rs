//! Starting and stopping the folder watch, and what is done with each batch
//! of file-system events that the debouncer reports.

use vstd::prelude::*;
use crate::models::config::Config;
use crate::models::notify::{StartResult, StopResult, WatchInfo};
use crate::services::target_checker::{TargetChecker, TargetCheckerView, is_target_path};
use crate::services::extensions::lowered;

verus! {

//=============================================================================
// Events reported by the debouncer
//=============================================================================

/// The kind of a file-system event (the top-level kinds of the watcher's `EventKind`).
#[derive(Debug, Clone, Copy, PartialEq, Eq, Structural)]
pub enum EventKindClass {
    Any,
    Access,
    Create,
    Modify,
    Remove,
    Other,
}

/// Whether an event is a change or a creation (the ones that lead to a backup).
pub open spec fn is_change(k: EventKindClass) -> bool {
    k is Modify || k is Create
}

/// A path named by an event, with whether it names an existing file.
#[derive(Debug, Clone, PartialEq, Eq)]
pub struct DetectedPath {
    pub path: String,
    pub is_file: bool,
}

/// One event: its kind and the paths it names.
#[derive(Debug, Clone, PartialEq, Eq)]
pub struct WatchEvent {
    pub kind: EventKindClass,
    pub paths: Vec<DetectedPath>,
}

/// What the debouncer reports: a batch of events, or errors.
#[derive(Debug, Clone, PartialEq, Eq)]
pub enum DebounceOutcome {
    Events(Vec<WatchEvent>),
    Errors,
}

/// What is to be done for a batch: tell the user something, or start the
/// wait-and-backup of a file.
#[derive(Debug, Clone, PartialEq, Eq)]
pub enum HandlerAction {
    Notify(WatchInfo),
    Backup(String),
}

/// An action as values.
pub enum ActionView {
    Detected(Seq<char>),
    NotTarget(Seq<char>),
    DebounceError,
    Backup(Seq<char>),
}

pub open spec fn action_view(a: HandlerAction) -> ActionView {
    match a {
        HandlerAction::Notify(WatchInfo::Detected(p)) => ActionView::Detected(p@),
        HandlerAction::Notify(WatchInfo::NotTarget(p)) => ActionView::NotTarget(p@),
        HandlerAction::Notify(WatchInfo::DebounceError) => ActionView::DebounceError,
        HandlerAction::Backup(p) => ActionView::Backup(p@),
    }
}

pub open spec fn action_views(v: Seq<HandlerAction>) -> Seq<ActionView> {
    v.map_values(|a: HandlerAction| action_view(a))
}

/// The actions for one path: a path that is a file the rule takes is
/// announced as detected and backed up; any other is announced as skipped.
pub open spec fn path_actions(c: TargetCheckerView, p: DetectedPath) -> Seq<ActionView> {
    if p.is_file && is_target_path(c, p.path@) {
        seq![ActionView::Detected(p.path@), ActionView::Backup(p.path@)]
    } else {
        seq![ActionView::NotTarget(p.path@)]
    }
}

/// The actions for the paths of one event, in order.
pub open spec fn paths_actions(c: TargetCheckerView, ps: Seq<DetectedPath>) -> Seq<ActionView>
    decreases ps.len(),
{
    if ps.len() == 0 {
        Seq::<ActionView>::empty()
    } else {
        paths_actions(c, ps.drop_last()) + path_actions(c, ps.last())
    }
}

/// The actions for one event: none unless it is a change or a creation.
pub open spec fn event_actions(c: TargetCheckerView, e: WatchEvent) -> Seq<ActionView> {
    if is_change(e.kind) {
        paths_actions(c, e.paths@)
    } else {
        Seq::<ActionView>::empty()
    }
}

/// The actions for a list of events, in order.
pub open spec fn events_actions(c: TargetCheckerView, es: Seq<WatchEvent>) -> Seq<ActionView>
    decreases es.len(),
{
    if es.len() == 0 {
        Seq::<ActionView>::empty()
    } else {
        events_actions(c, es.drop_last()) + event_actions(c, es.last())
    }
}

/// The actions for what the debouncer reported: an error is announced; the
/// events are handled in order.
pub open spec fn outcome_actions(c: TargetCheckerView, o: DebounceOutcome) -> Seq<ActionView> {
    match o {
        DebounceOutcome::Errors => seq![ActionView::DebounceError],
        DebounceOutcome::Events(es) => events_actions(c, es@),
    }
}

/// The part of the event handler that decides: which detected paths are
/// backed up, and between which folders.
pub struct BackupEventHandler {
    pub target_checker: TargetChecker,
    pub source_path: String,
    pub destination_path: String,
}

fn copy_string(s: &String) -> (r: String)
    ensures
        r@ == s@,
{
    s.clone()
}

fn push_action(acts: &mut Vec<HandlerAction>, a: HandlerAction)
    ensures
        action_views(final(acts)@) == action_views(old(acts)@).push(action_view(a)),
{
    let ghost pre = acts@;
    acts.push(a);
    assert(action_views(acts@) =~= action_views(pre).push(action_view(a)));
}

impl BackupEventHandler {
    /// The actions for the paths of one event, appended to `acts`.
    fn handle_paths(&self, paths: &Vec<DetectedPath>, acts: &mut Vec<HandlerAction>)
        ensures
            action_views(final(acts)@) == action_views(old(acts)@) + paths_actions(
                self.target_checker@,
                paths@,
            ),
    {
        let ghost start = action_views(acts@);
        let mut j: usize = 0;
        assert(paths@.take(0) =~= Seq::<DetectedPath>::empty());
        assert(start + paths_actions(self.target_checker@, paths@.take(0)) =~= start);
        while j < paths.len()
            invariant
                j <= paths.len(),
                action_views(acts@) == start + paths_actions(self.target_checker@, paths@.take(j as int)),
            decreases paths.len() - j,
        {
            let p = &paths[j];
            let ghost before = action_views(acts@);
            if p.is_file && self.target_checker.is_target_logic(p.path.as_str()) {
                push_action(acts, HandlerAction::Notify(WatchInfo::Detected(copy_string(&p.path))));
                push_action(acts, HandlerAction::Backup(copy_string(&p.path)));
                assert(action_views(acts@) =~= before + path_actions(self.target_checker@, *p));
            } else {
                push_action(acts, HandlerAction::Notify(WatchInfo::NotTarget(copy_string(&p.path))));
                assert(action_views(acts@) =~= before + path_actions(self.target_checker@, *p));
            }
            assert(paths@.take(j + 1).drop_last() =~= paths@.take(j as int));
            assert(paths@.take(j + 1).last() == *p);
            j = j + 1;
            assert(action_views(acts@) =~= start + paths_actions(self.target_checker@, paths@.take(j as int)));
        }
        assert(paths@.take(paths.len() as int) =~= paths@);
    }

    /// What to do with what the debouncer reported: an error is announced;
    /// of the events, only changes and creations count, and each path they
    /// name is either announced and backed up (a file that the rule takes) or
    /// announced as skipped.
    pub fn process_event(&self, result: &DebounceOutcome) -> (acts: Vec<HandlerAction>)
        ensures
            action_views(acts@) == outcome_actions(self.target_checker@, *result),
    {
        let mut acts: Vec<HandlerAction> = Vec::new();
        match result {
            DebounceOutcome::Errors => {
                push_action(&mut acts, HandlerAction::Notify(WatchInfo::DebounceError));
                assert(action_views(acts@) =~= seq![ActionView::DebounceError]);
            },
            DebounceOutcome::Events(events) => {
                let mut i: usize = 0;
                assert(events@.take(0) =~= Seq::<WatchEvent>::empty());
                assert(action_views(acts@) =~= events_actions(self.target_checker@, events@.take(0)));
                while i < events.len()
                    invariant
                        i <= events.len(),
                        action_views(acts@) == events_actions(
                            self.target_checker@,
                            events@.take(i as int),
                        ),
                    decreases events.len() - i,
                {
                    let e = &events[i];
                    let ghost before = action_views(acts@);
                    let change = match e.kind {
                        EventKindClass::Modify => true,
                        EventKindClass::Create => true,
                        _ => false,
                    };
                    if change {
                        self.handle_paths(&e.paths, &mut acts);
                    } else {
                        assert(before + event_actions(self.target_checker@, *e) =~= before);
                    }
                    assert(events@.take(i + 1).drop_last() =~= events@.take(i as int));
                    assert(events@.take(i + 1).last() == *e);
                    i = i + 1;
                }
                assert(events@.take(events.len() as int) =~= events@);
            },
        }
        acts
    }
}

//=============================================================================
// Starting and stopping
//=============================================================================

/// What creating and starting the debouncer gave.
#[derive(Debug, Clone, Copy, PartialEq, Eq, Structural)]
pub enum DebouncerStart {
    /// The debouncer could not be created.
    CreateFailed,
    /// The debouncer could not start watching the folder.
    WatchFailed,
    /// The folder is being watched.
    Watching,
}

/// Whether a watch is running.
pub struct WatchSession {
    running: bool,
}

impl View for WatchSession {
    type V = bool;

    closed spec fn view(&self) -> bool {
        self.running
    }
}

impl WatchSession {
    /// No watch running.
    pub fn new() -> (s: Self)
        ensures
            !s@,
    {
        WatchSession { running: false }
    }

    pub fn is_running(&self) -> (r: bool)
        ensures
            r == self@,
    {
        self.running
    }

    /// A start request: refused with `AlreadyRunning` while a watch runs;
    /// otherwise the caller goes on to create and start a debouncer.
    pub fn request_start(&self) -> (r: Option<StartResult>)
        ensures
            self@ ==> r == Some(StartResult::AlreadyRunning),
            !self@ ==> r is None,
    {
        if self.running {
            Some(StartResult::AlreadyRunning)
        } else {
            None
        }
    }

    /// The outcome of creating and starting the debouncer: the watch runs
    /// exactly when the folder is being watched.
    pub fn on_debouncer(&mut self, outcome: DebouncerStart) -> (r: StartResult)
        requires
            !old(self)@,
        ensures
            final(self)@ == (outcome == DebouncerStart::Watching),
            r == match outcome {
                DebouncerStart::CreateFailed => StartResult::NewDebouncerFailed,
                DebouncerStart::WatchFailed => StartResult::DebounceStartFailed,
                DebouncerStart::Watching => StartResult::Success,
            },
    {
        match outcome {
            DebouncerStart::CreateFailed => StartResult::NewDebouncerFailed,
            DebouncerStart::WatchFailed => StartResult::DebounceStartFailed,
            DebouncerStart::Watching => {
                self.running = true;
                StartResult::Success
            },
        }
    }

    /// A stop request: a running watch stops (the caller then waits for the
    /// running tasks); otherwise nothing changes and `AlreadyStopped` is the answer.
    pub fn stop(&mut self) -> (r: StopResult)
        ensures
            !final(self)@,
            old(self)@ ==> r == StopResult::Success,
            !old(self)@ ==> r == StopResult::AlreadyStopped,
    {
        if self.running {
            self.running = false;
            StopResult::Success
        } else {
            StopResult::AlreadyStopped
        }
    }
}

/// Whether a start ended with the watch running (the value the start command returns).
pub fn start_succeeded(r: StartResult) -> (ok: Result<(), ()>)
    ensures
        ok is Ok <==> r == StartResult::Success,
{
    match r {
        StartResult::Success => Ok(()),
        _ => Err(()),
    }
}

/// What a start needs from the settings.
pub struct StartPlan {
    /// The unsaved-time interval in minutes, when that announcement is on.
    pub timer_minutes: Option<u64>,
    /// Whether subfolders are watched.
    pub recursive: bool,
    /// The folder to watch.
    pub watch_path: String,
    /// The deciding part of the event handler.
    pub handler: BackupEventHandler,
}

/// The start plan for settings `config`: a timer only when the unsaved-time
/// announcement is on, the watched folder and its mode, and a handler with the
/// settings' rule and folders.
pub fn plan_start(config: &Config) -> (p: StartPlan)
    ensures
        p.timer_minutes == (if config.is_notify_unsaved {
            Some(config.notify_interval as u64)
        } else {
            None::<u64>
        }),
        p.recursive == config.recursive,
        p.watch_path@ == config.source_path@,
        p.handler.source_path@ == config.source_path@,
        p.handler.destination_path@ == config.destination_path@,
        p.handler.target_checker@.all_files_enabled == config.all_files_enabled,
        p.handler.target_checker@.extensions == lowered(config@.extensions),
{
    let timer_minutes = if config.is_notify_unsaved {
        Some(config.notify_interval as u64)
    } else {
        None
    };
    let checker = TargetChecker::new(config.all_files_enabled, config.extensions.as_slice());
    StartPlan {
        timer_minutes,
        recursive: config.recursive,
        watch_path: config.source_path.clone(),
        handler: BackupEventHandler {
            target_checker: checker,
            source_path: config.source_path.clone(),
            destination_path: config.destination_path.clone(),
        },
    }
}


//=============================================================================
// Law of the event handling
//=============================================================================

/// Every backup in `acts` is of a path that the rule takes, and comes right
/// after the announcement that this path was detected.
pub open spec fn backups_announced(c: TargetCheckerView, acts: Seq<ActionView>) -> bool {
    forall|k: int|
        0 <= k < acts.len() && (#[trigger] acts[k]) is Backup ==> {
            &&& k >= 1
            &&& acts[k - 1] == ActionView::Detected(acts[k]->Backup_0)
            &&& is_target_path(c, acts[k]->Backup_0)
        }
}

proof fn lemma_announced_concat(c: TargetCheckerView, a: Seq<ActionView>, b: Seq<ActionView>)
    requires
        backups_announced(c, a),
        backups_announced(c, b),
    ensures
        backups_announced(c, a + b),
{
    assert forall|k: int| 0 <= k < (a + b).len() && (#[trigger] (a + b)[k]) is Backup implies {
        &&& k >= 1
        &&& (a + b)[k - 1] == ActionView::Detected((a + b)[k]->Backup_0)
        &&& is_target_path(c, (a + b)[k]->Backup_0)
    } by {
        if k < a.len() {
            assert((a + b)[k] == a[k]);
            assert((a + b)[k - 1] == a[k - 1]);
        } else {
            assert((a + b)[k] == b[k - a.len()]);
            assert(b[k - a.len()] is Backup);
            assert((a + b)[k - 1] == b[k - a.len() - 1]);
        }
    }
}

proof fn lemma_paths_announced(c: TargetCheckerView, ps: Seq<DetectedPath>)
    ensures
        backups_announced(c, paths_actions(c, ps)),
    decreases ps.len(),
{
    if ps.len() > 0 {
        lemma_paths_announced(c, ps.drop_last());
        let one = path_actions(c, ps.last());
        assert(backups_announced(c, one));
        lemma_announced_concat(c, paths_actions(c, ps.drop_last()), one);
    }
}

proof fn lemma_events_announced(c: TargetCheckerView, es: Seq<WatchEvent>)
    ensures
        backups_announced(c, events_actions(c, es)),
    decreases es.len(),
{
    if es.len() > 0 {
        lemma_events_announced(c, es.drop_last());
        if is_change(es.last().kind) {
            lemma_paths_announced(c, es.last().paths@);
        }
        lemma_announced_concat(c, events_actions(c, es.drop_last()), event_actions(c, es.last()));
    }
}

/// Law of the event handling: whatever the debouncer reports, a path is
/// backed up only when the rule takes it, and only right after it has been
/// announced as detected.
pub proof fn lemma_backups_are_targets(c: TargetCheckerView, o: DebounceOutcome)
    ensures
        backups_announced(c, outcome_actions(c, o)),
{
    match o {
        DebounceOutcome::Errors => {},
        DebounceOutcome::Events(es) => lemma_events_announced(c, es@),
    }
}

/// Law of the event handling: events other than changes and creations lead to
/// nothing, and an error report only to its announcement.
pub proof fn lemma_quiet_events(c: TargetCheckerView, es: Seq<WatchEvent>)
    requires
        forall|i: int| 0 <= i < es.len() ==> !is_change(#[trigger] es[i].kind),
    ensures
        events_actions(c, es).len() == 0,
        outcome_actions(c, DebounceOutcome::Errors) == seq![ActionView::DebounceError],
    decreases es.len(),
{
    if es.len() > 0 {
        assert forall|i: int| 0 <= i < es.drop_last().len() implies !is_change(
            #[trigger] es.drop_last()[i].kind,
        ) by {
            assert(es.drop_last()[i] == es[i]);
        }
        lemma_quiet_events(c, es.drop_last());
        assert(!is_change(es[es.len() - 1].kind));
    }
}

/// Law of the event handling: a creation is handled as a change. An event
/// that creates files gives the same actions as one that modifies the same
/// paths, namely those of its paths; and a created file that the rule takes is
/// announced as detected and then backed up.
pub proof fn lemma_handler_creations(c: TargetCheckerView, created: WatchEvent, modified: WatchEvent)
    requires
        created.kind == EventKindClass::Create,
        modified.kind == EventKindClass::Modify,
        created.paths@ == modified.paths@,
    ensures
        events_actions(c, seq![created]) == events_actions(c, seq![modified]),
        events_actions(c, seq![created]) == paths_actions(c, created.paths@),
        created.paths@.len() == 1 && created.paths@[0].is_file && is_target_path(
            c,
            created.paths@[0].path@,
        ) ==> events_actions(c, seq![created]) == seq![
            ActionView::Detected(created.paths@[0].path@),
            ActionView::Backup(created.paths@[0].path@),
        ],
{
    assert(seq![created].drop_last() =~= Seq::<WatchEvent>::empty());
    assert(seq![modified].drop_last() =~= Seq::<WatchEvent>::empty());
    assert(seq![created].last() == created);
    assert(seq![modified].last() == modified);
    let ps = created.paths@;
    assert(event_actions(c, created) == paths_actions(c, ps));
    assert(events_actions(c, seq![created]) == events_actions(c, Seq::<WatchEvent>::empty())
        + event_actions(c, created));
    assert(Seq::<ActionView>::empty() + paths_actions(c, ps) =~= paths_actions(c, ps));
    if ps.len() == 1 {
        assert(ps.drop_last() =~= Seq::<DetectedPath>::empty());
        assert(ps.last() == ps[0]);
        assert(paths_actions(c, ps) == paths_actions(c, Seq::<DetectedPath>::empty())
            + path_actions(c, ps[0]));
        assert(Seq::<ActionView>::empty() + path_actions(c, ps[0]) =~= path_actions(c, ps[0]));
    }
}

} // verus!
