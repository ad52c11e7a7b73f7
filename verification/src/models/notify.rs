//! What the user is told: each event becomes a payload with a level (the colour
//! in the log window), a range (where it is shown) and a title and body.

use vstd::prelude::*;
use crate::text::{chars_of, string_of, append_chars, decimal, decimal_chars};
use crate::path::{
    file_name_in, path_file_name_in, strip_prefix_in, path_strip_prefix_in, join_in, components_in,
    same_path_in, path_prefix, prefix_len, lemma_rebase_in, windows_paths,
};

verus! {

//=============================================================================
// Where and how a payload is shown
//=============================================================================

/// Where a payload is shown.
#[derive(Debug, Clone, Copy, PartialEq, Eq, Structural)]
pub enum NotifyRange {
    /// Console, log window and a modal dialog (cannot be missed).
    Dialog,
    /// Console, log window and a desktop notification (which the user may turn off).
    Desktop,
    /// Console and log window.
    Log,
    /// Console only (for development).
    Console,
    /// Nowhere (the event no longer needs telling).
    Hidden,
}

/// The colour of a payload in the log window.
#[derive(Debug, Clone, Copy, PartialEq, Eq, Structural)]
pub enum NotifyLevel {
    Error,
    Info,
    Remark,
}

/// What is sent to the user interface.
#[derive(Debug, Clone, PartialEq)]
pub struct NotifyPayload {
    pub level: NotifyLevel,
    pub range: NotifyRange,
    pub title: &'static str,
    pub body: String,
}

/// A payload as values.
pub struct PayloadView {
    pub level: NotifyLevel,
    pub range: NotifyRange,
    pub title: Seq<char>,
    pub body: Seq<char>,
}

impl View for NotifyPayload {
    type V = PayloadView;

    open spec fn view(&self) -> PayloadView {
        PayloadView { level: self.level, range: self.range, title: self.title@, body: self.body@ }
    }
}

pub open spec fn payload(
    level: NotifyLevel,
    range: NotifyRange,
    title: Seq<char>,
    body: Seq<char>,
) -> PayloadView {
    PayloadView { level, range, title, body }
}

/// Conversion of an event into the payload that the user is shown.
pub trait ToNotify {
    /// The payload of this event, as values, with paths read as on Windows
    /// (`windows`) or as on other systems.
    spec fn payload_view(&self, windows: bool) -> PayloadView;

    /// The payload, with paths read as on Windows (`windows`) or as on other
    /// systems.
    fn to_payload_on(&self, windows: bool) -> (p: NotifyPayload)
        ensures
            p@ == self.payload_view(windows),
    ;

    /// The payload, with paths read as on the platform the crate was built for.
    fn to_payload(&self) -> (p: NotifyPayload)
        ensures
            p@ == self.payload_view(false) || p@ == self.payload_view(true),
    {
        self.to_payload_on(windows_paths())
    }
}


//=============================================================================
// Delivery of a payload
//=============================================================================

/// The channels that a payload goes to.
#[derive(Debug, Clone, Copy, PartialEq, Eq, Structural)]
pub struct Delivery {
    pub console: bool,
    pub log: bool,
    pub dialog: bool,
    pub desktop: bool,
}

/// The channels of a range: every range but `Hidden` reaches the console, every
/// range from `Log` up reaches the log window, `Dialog` opens a dialog, and
/// `Desktop` sends a desktop notification when those are turned on.
pub open spec fn delivery_of(range: NotifyRange, is_desktop_notify: bool) -> Delivery {
    match range {
        NotifyRange::Dialog => Delivery { console: true, log: true, dialog: true, desktop: false },
        NotifyRange::Desktop => Delivery {
            console: true,
            log: true,
            dialog: false,
            desktop: is_desktop_notify,
        },
        NotifyRange::Log => Delivery { console: true, log: true, dialog: false, desktop: false },
        NotifyRange::Console => Delivery { console: true, log: false, dialog: false, desktop: false },
        NotifyRange::Hidden => Delivery { console: false, log: false, dialog: false, desktop: false },
    }
}

/// Where the application's notifier sends a payload of the given range.
pub fn delivery_plan(range: NotifyRange, is_desktop_notify: bool) -> (d: Delivery)
    ensures
        d == delivery_of(range, is_desktop_notify),
{
    match range {
        NotifyRange::Dialog => Delivery { console: true, log: true, dialog: true, desktop: false },
        NotifyRange::Desktop => Delivery {
            console: true,
            log: true,
            dialog: false,
            desktop: is_desktop_notify,
        },
        NotifyRange::Log => Delivery { console: true, log: true, dialog: false, desktop: false },
        NotifyRange::Console => Delivery { console: true, log: false, dialog: false, desktop: false },
        NotifyRange::Hidden => Delivery { console: false, log: false, dialog: false, desktop: false },
    }
}

/// The text of the modal dialog for a payload: the title, a colon, a line
/// break, then the body.
pub fn dialog_message(p: &NotifyPayload) -> (m: String)
    ensures
        m@ == p.title@ + seq![':', '\n'] + p.body@,
{
    let mut v = chars_of(p.title);
    v.push(':');
    v.push('\n');
    let body = chars_of(p.body.as_str());
    append_chars(&mut v, &body);
    assert(v@ =~= p.title@ + seq![':', '\n'] + p.body@);
    string_of(&v)
}

//=============================================================================
// Recording notifier
//=============================================================================

pub open spec fn payload_views(log: Seq<NotifyPayload>) -> Seq<PayloadView> {
    log.map_values(|p: NotifyPayload| p@)
}

/// A notifier that records the payloads that it is given (for tests, and
/// wherever no window is at hand).
#[derive(Debug, Clone)]
pub struct MockNotifier {
    pub log: Vec<NotifyPayload>,
}

impl MockNotifier {
    pub fn new() -> (n: Self)
        ensures
            n.log@.len() == 0,
    {
        MockNotifier { log: Vec::new() }
    }

    /// Records the payload of `event` (with paths read as on the platform the
    /// crate was built for).
    pub fn notify<E: ToNotify>(&mut self, event: &E)
        ensures
            payload_views(final(self).log@) == payload_views(old(self).log@).push(
                event.payload_view(false),
            ) || payload_views(final(self).log@) == payload_views(old(self).log@).push(
                event.payload_view(true),
            ),
    {
        let p = event.to_payload();
        let ghost pv = p@;
        self.log.push(p);
        assert(payload_views(self.log@) =~= payload_views(old(self).log@).push(pv));
    }
}

//=============================================================================
// Display helpers
//=============================================================================

/// What is shown when a path has no file name.
pub open spec fn unknown_name() -> Seq<char> {
    "ファイル名が不明"@
}

/// The file name of a path (read as on Windows when `windows`), or the text
/// for an unknown name.
pub open spec fn display_name(path: Seq<char>, windows: bool) -> Seq<char> {
    match file_name_in(path, windows) {
        Some(n) => n,
        None => unknown_name(),
    }
}

/// The extended-length prefix `\\?\` that canonicalisation puts before a
/// Windows path.
pub open spec fn verbatim_prefix() -> Seq<char> {
    seq!['\\', '\\', '?', '\\']
}

/// A folder path for display: on Windows (`windows`) without the
/// extended-length prefix, elsewhere unchanged.
pub open spec fn clean_path_of(path: Seq<char>, windows: bool) -> Seq<char> {
    if windows && path.len() >= 4 && path.take(4) == verbatim_prefix() {
        path.skip(4)
    } else {
        path
    }
}

/// A path relative to `base`, or the path itself when it does not lie under
/// `base` (read as on Windows when `windows`).
pub open spec fn relative_path_of(path: Seq<char>, base: Seq<char>, windows: bool) -> Seq<char> {
    match strip_prefix_in(path, base, windows) {
        Some(r) => r,
        None => path,
    }
}

/// The file name of `path` (read as on Windows when `windows`), for display.
pub fn get_filename_on(path: &str, windows: bool) -> (r: String)
    ensures
        r@ == display_name(path@, windows),
{
    let p = chars_of(path);
    match path_file_name_in(&p, windows) {
        Some(n) => string_of(&n),
        None => {
            let u = chars_of("ファイル名が不明");
            string_of(&u)
        },
    }
}

/// The file name of `path`, read as on the platform the crate was built for,
/// for display.
pub fn get_filename(path: &str) -> (r: String)
    ensures
        r@ == display_name(path@, false) || r@ == display_name(path@, true),
{
    get_filename_on(path, windows_paths())
}

/// A folder path for display, for paths of Windows (`windows`) or of another
/// system: the extended-length prefix goes on Windows only.
pub fn clean_path_on(path: &str, windows: bool) -> (r: String)
    ensures
        r@ == clean_path_of(path@, windows),
{
    let p = chars_of(path);
    if windows && p.len() >= 4 && p[0] == '\\' && p[1] == '\\' && p[2] == '?' && p[3] == '\\' {
        assert(p@.take(4) =~= verbatim_prefix());
        let rest = crate::path::sub_chars(&p, 4, p.len());
        assert(rest@ =~= p@.skip(4));
        string_of(&rest)
    } else {
        proof {
            if windows && p@.len() >= 4 && p@.take(4) == verbatim_prefix() {
                assert(p@[0] == p@.take(4)[0]);
                assert(p@[1] == p@.take(4)[1]);
                assert(p@[2] == p@.take(4)[2]);
                assert(p@[3] == p@.take(4)[3]);
            }
        }
        string_of(&p)
    }
}

/// A folder path for display, as paths are on the platform the crate was
/// built for: without the extended-length prefix on Windows, unchanged
/// elsewhere.
pub fn _clean_path(path: &str) -> (r: String)
    ensures
        r@ == clean_path_of(path@, false) || r@ == clean_path_of(path@, true),
{
    clean_path_on(path, windows_paths())
}

/// `path` relative to `base` (read as on Windows when `windows`), or `path`
/// itself when it does not lie under `base`.
pub fn get_relative_path_on(path: &str, base: &str, windows: bool) -> (r: String)
    ensures
        r@ == relative_path_of(path@, base@, windows),
{
    let p = chars_of(path);
    let b = chars_of(base);
    match path_strip_prefix_in(&p, &b, windows) {
        Some(rel) => string_of(&rel),
        None => string_of(&p),
    }
}

/// `path` relative to `base`, read as on the platform the crate was built
/// for, or `path` itself when it does not lie under `base`.
pub fn _get_relative_path(path: &str, base: &str) -> (r: String)
    ensures
        r@ == relative_path_of(path@, base@, false) || r@ == relative_path_of(path@, base@, true),
{
    get_relative_path_on(path, base, windows_paths())
}


//=============================================================================
// Events of the unsaved-time timer
//=============================================================================

/// Information from the timer that measures how long no file has been saved.
#[derive(Debug, Clone, PartialEq, Eq)]
pub enum TimerInfo {
    /// The given number of minutes has passed without a save.
    Elapsed { minutes: u64 },
}

impl ToNotify for TimerInfo {
    open spec fn payload_view(&self, windows: bool) -> PayloadView {
        match self {
            TimerInfo::Elapsed { minutes } => payload(
                NotifyLevel::Info,
                NotifyRange::Desktop,
                "ファイル未保存期間"@,
                decimal(*minutes as nat) + "分経過"@,
            ),
        }
    }

    fn to_payload_on(&self, windows: bool) -> (p: NotifyPayload) {
        match self {
            TimerInfo::Elapsed { minutes } => {
                let mut body = decimal_chars(*minutes);
                let unit = chars_of("分経過");
                append_chars(&mut body, &unit);
                NotifyPayload {
                    level: NotifyLevel::Info,
                    range: NotifyRange::Desktop,
                    title: "ファイル未保存期間",
                    body: string_of(&body),
                }
            },
        }
    }
}

//=============================================================================
// Result of checking the settings
//=============================================================================

/// Why the settings cannot start the watch.
#[derive(Debug, Clone, Copy, PartialEq, Eq, Structural)]
pub enum ConfigError {
    /// The folder to watch is not a folder.
    InvalidSourcePath,
    /// The backup folder is not a folder.
    InvalidDestinationPath,
    /// The watched folder and the backup folder are the same.
    PathConflict,
    /// Only listed extensions are backed up, and none is listed.
    NoExtension,
    /// The unsaved-time notification is on with an interval under one minute.
    InvalidNotifyInterval,
}

impl ToNotify for ConfigError {
    open spec fn payload_view(&self, windows: bool) -> PayloadView {
        payload(
            NotifyLevel::Error,
            NotifyRange::Dialog,
            "開始失敗"@,
            match self {
                ConfigError::InvalidSourcePath => "保存を検知するフォルダが無効です"@,
                ConfigError::InvalidDestinationPath => "バックアップ先フォルダが無効です"@,
                ConfigError::PathConflict => "保存検知フォルダとバックアップ先が同じです"@,
                ConfigError::NoExtension => "拡張子を一つ以上設定してください"@,
                ConfigError::InvalidNotifyInterval => "未保存通知は1分以上に設定してください"@,
            },
        )
    }

    fn to_payload_on(&self, windows: bool) -> (p: NotifyPayload) {
        let body: &str = match self {
            ConfigError::InvalidSourcePath => "保存を検知するフォルダが無効です",
            ConfigError::InvalidDestinationPath => "バックアップ先フォルダが無効です",
            ConfigError::PathConflict => "保存検知フォルダとバックアップ先が同じです",
            ConfigError::NoExtension => "拡張子を一つ以上設定してください",
            ConfigError::InvalidNotifyInterval => "未保存通知は1分以上に設定してください",
        };
        let chars = chars_of(body);
        NotifyPayload {
            level: NotifyLevel::Error,
            range: NotifyRange::Dialog,
            title: "開始失敗",
            body: string_of(&chars),
        }
    }
}

//=============================================================================
// Events of the folder watch
//=============================================================================

/// What happened while watching the folder.
#[derive(Debug, Clone, PartialEq, Eq)]
pub enum WatchInfo {
    /// A change of this file was detected.
    Detected(String),
    /// This path is not backed up, so it was skipped.
    NotTarget(String),
    /// The debouncer reported an error.
    DebounceError,
}

impl ToNotify for WatchInfo {
    open spec fn payload_view(&self, windows: bool) -> PayloadView {
        match self {
            WatchInfo::Detected(path) => payload(
                NotifyLevel::Remark,
                NotifyRange::Console,
                "変更を検出"@,
                display_name(path@, windows),
            ),
            WatchInfo::NotTarget(path) => payload(
                NotifyLevel::Remark,
                NotifyRange::Console,
                "対象外のためスキップ"@,
                display_name(path@, windows),
            ),
            WatchInfo::DebounceError => payload(
                NotifyLevel::Error,
                NotifyRange::Desktop,
                "フォルダ監視中のエラー"@,
                "デバウンスエラーが発生"@,
            ),
        }
    }

    fn to_payload_on(&self, windows: bool) -> (p: NotifyPayload) {
        match self {
            WatchInfo::Detected(path) => NotifyPayload {
                level: NotifyLevel::Remark,
                range: NotifyRange::Console,
                title: "変更を検出",
                body: get_filename_on(path.as_str(), windows),
            },
            WatchInfo::NotTarget(path) => NotifyPayload {
                level: NotifyLevel::Remark,
                range: NotifyRange::Console,
                title: "対象外のためスキップ",
                body: get_filename_on(path.as_str(), windows),
            },
            WatchInfo::DebounceError => {
                let body = chars_of("デバウンスエラーが発生");
                NotifyPayload {
                    level: NotifyLevel::Error,
                    range: NotifyRange::Desktop,
                    title: "フォルダ監視中のエラー",
                    body: string_of(&body),
                }
            },
        }
    }
}

/// The result of starting the folder watch.
#[derive(Debug, Clone, Copy, PartialEq, Eq, Structural)]
pub enum StartResult {
    /// The watch started.
    Success,
    /// The watch was already running.
    AlreadyRunning,
    /// The debouncer could not be created.
    NewDebouncerFailed,
    /// The debouncer could not start watching the folder.
    DebounceStartFailed,
}

impl ToNotify for StartResult {
    open spec fn payload_view(&self, windows: bool) -> PayloadView {
        match self {
            StartResult::Success => payload(
                NotifyLevel::Info,
                NotifyRange::Desktop,
                "自動バックアップを開始しました"@,
                Seq::<char>::empty(),
            ),
            StartResult::AlreadyRunning => payload(
                NotifyLevel::Info,
                NotifyRange::Desktop,
                "既に開始済みです"@,
                Seq::<char>::empty(),
            ),
            StartResult::NewDebouncerFailed => payload(
                NotifyLevel::Error,
                NotifyRange::Desktop,
                "開始失敗"@,
                "デバウンサーの生成に失敗しました"@,
            ),
            StartResult::DebounceStartFailed => payload(
                NotifyLevel::Error,
                NotifyRange::Desktop,
                "開始失敗"@,
                "デバウンサーの開始に失敗しました"@,
            ),
        }
    }

    fn to_payload_on(&self, windows: bool) -> (p: NotifyPayload) {
        match self {
            StartResult::Success => NotifyPayload {
                level: NotifyLevel::Info,
                range: NotifyRange::Desktop,
                title: "自動バックアップを開始しました",
                body: String::new(),
            },
            StartResult::AlreadyRunning => NotifyPayload {
                level: NotifyLevel::Info,
                range: NotifyRange::Desktop,
                title: "既に開始済みです",
                body: String::new(),
            },
            StartResult::NewDebouncerFailed => {
                let body = chars_of("デバウンサーの生成に失敗しました");
                NotifyPayload {
                    level: NotifyLevel::Error,
                    range: NotifyRange::Desktop,
                    title: "開始失敗",
                    body: string_of(&body),
                }
            },
            StartResult::DebounceStartFailed => {
                let body = chars_of("デバウンサーの開始に失敗しました");
                NotifyPayload {
                    level: NotifyLevel::Error,
                    range: NotifyRange::Desktop,
                    title: "開始失敗",
                    body: string_of(&body),
                }
            },
        }
    }
}

/// The result of stopping the folder watch.
#[derive(Debug, Clone, Copy, PartialEq, Eq, Structural)]
pub enum StopResult {
    /// The watch stopped.
    Success,
    /// The watch was not running.
    AlreadyStopped,
}

impl ToNotify for StopResult {
    open spec fn payload_view(&self, windows: bool) -> PayloadView {
        payload(
            NotifyLevel::Info,
            NotifyRange::Desktop,
            match self {
                StopResult::Success => "自動バックアップを停止しました"@,
                StopResult::AlreadyStopped => "既に停止済みです"@,
            },
            Seq::<char>::empty(),
        )
    }

    fn to_payload_on(&self, windows: bool) -> (p: NotifyPayload) {
        let title: &'static str = match self {
            StopResult::Success => "自動バックアップを停止しました",
            StopResult::AlreadyStopped => "既に停止済みです",
        };
        NotifyPayload {
            level: NotifyLevel::Info,
            range: NotifyRange::Desktop,
            title,
            body: String::new(),
        }
    }
}

//=============================================================================
// Result of waiting for a file to be written
//=============================================================================

/// The result of waiting until a file is no longer being written.
#[derive(Debug, Clone, PartialEq, Eq)]
pub enum WaitResult {
    /// The file is complete and can be opened for writing.
    Success,
    /// The file stayed locked.
    Locked(String),
    /// The file stayed missing or unreadable.
    Missing(String),
}

impl ToNotify for WaitResult {
    open spec fn payload_view(&self, windows: bool) -> PayloadView {
        match self {
            WaitResult::Success => payload(
                NotifyLevel::Remark,
                NotifyRange::Hidden,
                "ファイルの書込み終了を検知"@,
                Seq::<char>::empty(),
            ),
            WaitResult::Locked(path) => payload(
                NotifyLevel::Error,
                NotifyRange::Desktop,
                "ファイルがロック中"@,
                display_name(path@, windows),
            ),
            WaitResult::Missing(path) => payload(
                NotifyLevel::Error,
                NotifyRange::Desktop,
                "ファイル消失または読取権限なし"@,
                display_name(path@, windows),
            ),
        }
    }

    fn to_payload_on(&self, windows: bool) -> (p: NotifyPayload) {
        match self {
            WaitResult::Success => NotifyPayload {
                level: NotifyLevel::Remark,
                range: NotifyRange::Hidden,
                title: "ファイルの書込み終了を検知",
                body: String::new(),
            },
            WaitResult::Locked(path) => NotifyPayload {
                level: NotifyLevel::Error,
                range: NotifyRange::Desktop,
                title: "ファイルがロック中",
                body: get_filename_on(path.as_str(), windows),
            },
            WaitResult::Missing(path) => NotifyPayload {
                level: NotifyLevel::Error,
                range: NotifyRange::Desktop,
                title: "ファイル消失または読取権限なし",
                body: get_filename_on(path.as_str(), windows),
            },
        }
    }
}

//=============================================================================
// Result of a backup
//=============================================================================

/// The result of backing up one file; each variant carries the path concerned.
#[derive(Debug, Clone, PartialEq, Eq)]
pub enum BackupResult {
    /// The file was copied to this path.
    Copied(String),
    /// A copy already exists at this path.
    AlreadyExists(String),
    /// This file has no file name.
    InvalidFileName(String),
    /// The metadata of this file could not be read.
    MetadataFailed(String),
    /// The modification time of this file could not be read.
    ModifiedFailed(String),
    /// The copy to this path failed.
    CopyFailed(String),
}

impl ToNotify for BackupResult {
    open spec fn payload_view(&self, windows: bool) -> PayloadView {
        match self {
            BackupResult::Copied(path) => payload(
                NotifyLevel::Info,
                NotifyRange::Desktop,
                "バックアップ"@,
                display_name(path@, windows),
            ),
            BackupResult::AlreadyExists(path) => payload(
                NotifyLevel::Remark,
                NotifyRange::Log,
                "既にバックアップ済み"@,
                display_name(path@, windows),
            ),
            BackupResult::InvalidFileName(path) => payload(
                NotifyLevel::Error,
                NotifyRange::Desktop,
                "ファイル名の取得に失敗"@,
                display_name(path@, windows),
            ),
            BackupResult::MetadataFailed(path) => payload(
                NotifyLevel::Error,
                NotifyRange::Desktop,
                "ファイル情報の取得に失敗"@,
                display_name(path@, windows),
            ),
            BackupResult::ModifiedFailed(path) => payload(
                NotifyLevel::Error,
                NotifyRange::Desktop,
                "最終更新時の取得に失敗"@,
                display_name(path@, windows),
            ),
            BackupResult::CopyFailed(path) => payload(
                NotifyLevel::Error,
                NotifyRange::Desktop,
                "コピー失敗"@,
                display_name(path@, windows),
            ),
        }
    }

    fn to_payload_on(&self, windows: bool) -> (p: NotifyPayload) {
        match self {
            BackupResult::Copied(path) => NotifyPayload {
                level: NotifyLevel::Info,
                range: NotifyRange::Desktop,
                title: "バックアップ",
                body: get_filename_on(path.as_str(), windows),
            },
            BackupResult::AlreadyExists(path) => NotifyPayload {
                level: NotifyLevel::Remark,
                range: NotifyRange::Log,
                title: "既にバックアップ済み",
                body: get_filename_on(path.as_str(), windows),
            },
            BackupResult::InvalidFileName(path) => NotifyPayload {
                level: NotifyLevel::Error,
                range: NotifyRange::Desktop,
                title: "ファイル名の取得に失敗",
                body: get_filename_on(path.as_str(), windows),
            },
            BackupResult::MetadataFailed(path) => NotifyPayload {
                level: NotifyLevel::Error,
                range: NotifyRange::Desktop,
                title: "ファイル情報の取得に失敗",
                body: get_filename_on(path.as_str(), windows),
            },
            BackupResult::ModifiedFailed(path) => NotifyPayload {
                level: NotifyLevel::Error,
                range: NotifyRange::Desktop,
                title: "最終更新時の取得に失敗",
                body: get_filename_on(path.as_str(), windows),
            },
            BackupResult::CopyFailed(path) => NotifyPayload {
                level: NotifyLevel::Error,
                range: NotifyRange::Desktop,
                title: "コピー失敗",
                body: get_filename_on(path.as_str(), windows),
            },
        }
    }
}


/// Law of delivery: desktop notifications go out only from the `Desktop` range
/// and only when they are turned on; every range but `Hidden` reaches the
/// console; what reaches the log window also reaches the console.
pub proof fn lemma_delivery(range: NotifyRange, is_desktop_notify: bool)
    ensures
        delivery_of(range, is_desktop_notify).desktop <==> (range == NotifyRange::Desktop
            && is_desktop_notify),
        delivery_of(range, is_desktop_notify).console <==> range != NotifyRange::Hidden,
        delivery_of(range, is_desktop_notify).log ==> delivery_of(range, is_desktop_notify).console,
        delivery_of(range, is_desktop_notify).dialog <==> range == NotifyRange::Dialog,
{
}


/// Law of the relative path: joined back to a (non-empty) base that it lies
/// under, a path's relative form gives the same path again. It needs a
/// relative form that does not start like a drive prefix or with `?`, and a
/// base that is not a bare verbatim disk `\\?\C:`.
pub proof fn lemma_relative_round_trip(path: Seq<char>, base: Seq<char>, windows: bool)
    requires
        components_in(base, windows).len() > 0,
        strip_prefix_in(path, base, windows) matches Some(rel) && prefix_len(rel, windows) == 0 && (
        rel.len() > 0 ==> rel[0] != '?'),
        !(prefix_len(base, windows) == 6 && base.len() == 6),
    ensures
        same_path_in(join_in(base, relative_path_of(path, base, windows), windows), path, windows),
{
    lemma_rebase_in(path, base, base, windows);
    let cs = components_in(path, windows);
    let n = components_in(base, windows).len() as int;
    assert(cs.take(n) == components_in(base, windows));
    assert(components_in(base, windows) + cs.skip(n) =~= cs);
}

} // verus!
