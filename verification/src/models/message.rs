//! Level-only user messages: a level, a title and a body, with the level
//! alone deciding where a message is shown.

use vstd::prelude::*;
use crate::text::{chars_of, string_of};
use crate::models::notify::{display_name, clean_path_of, clean_path_on, relative_path_of};
use crate::path::windows_paths;

verus! {

/// Where a message is shown.
#[derive(Debug, Clone, Copy, PartialEq, Eq, Structural)]
pub enum NotifyLevel {
    /// Window and desktop notification, in red.
    Error,
    /// Window and desktop notification, in green.
    Info,
    /// Window only, in grey.
    Silent,
    /// Console only.
    Debug,
}

/// A message for the window or the log.
#[derive(Debug, Clone, PartialEq)]
pub struct NotifyDTO {
    pub level: NotifyLevel,
    pub title: &'static str,
    pub body: String,
}

/// A message as values.
pub struct DtoView {
    pub level: NotifyLevel,
    pub title: Seq<char>,
    pub body: Seq<char>,
}

impl View for NotifyDTO {
    type V = DtoView;

    open spec fn view(&self) -> DtoView {
        DtoView { level: self.level, title: self.title@, body: self.body@ }
    }
}

pub open spec fn dto(level: NotifyLevel, title: Seq<char>, body: Seq<char>) -> DtoView {
    DtoView { level, title, body }
}

/// Conversion of a result into the message that the user is shown.
pub trait Notify {
    /// The message of this result, as values, with paths shown as on Windows
    /// (`windows`) or as on other systems.
    spec fn dto_view(&self, windows: bool) -> DtoView;

    /// The message, with paths shown as on Windows (`windows`) or as on other
    /// systems.
    fn get_dto_on(&self, windows: bool) -> (d: NotifyDTO)
        ensures
            d@ == self.dto_view(windows),
    ;

    /// The message, with paths shown as on the platform the crate was built for.
    fn get_dto(&self) -> (d: NotifyDTO)
        ensures
            d@ == self.dto_view(false) || d@ == self.dto_view(true),
    {
        self.get_dto_on(windows_paths())
    }
}

fn text(s: &str) -> (r: String)
    ensures
        r@ == s@,
{
    string_of(&chars_of(s))
}

/// What happened while watching the folder.
#[derive(Debug, Clone, PartialEq, Eq)]
pub enum WatchInfo {
    /// A change of this file was detected.
    ModificationDetected(String),
    /// This file's extension is not listed, so it was skipped.
    UnspecifiedExtension(String),
    /// The debouncer reported an error.
    DebounceError,
}

impl Notify for WatchInfo {
    open spec fn dto_view(&self, windows: bool) -> DtoView {
        match self {
            WatchInfo::ModificationDetected(p) => dto(
                NotifyLevel::Debug,
                "変更を検出"@,
                display_name(p@, windows),
            ),
            WatchInfo::UnspecifiedExtension(p) => dto(
                NotifyLevel::Debug,
                "指定外の拡張子をスキップ"@,
                display_name(p@, windows),
            ),
            WatchInfo::DebounceError => dto(
                NotifyLevel::Error,
                "フォルダ監視中のエラー"@,
                "デバウンスエラーが発生"@,
            ),
        }
    }

    fn get_dto_on(&self, windows: bool) -> (d: NotifyDTO) {
        match self {
            WatchInfo::ModificationDetected(p) => NotifyDTO {
                level: NotifyLevel::Debug,
                title: "変更を検出",
                body: crate::models::notify::get_filename_on(p.as_str(), windows),
            },
            WatchInfo::UnspecifiedExtension(p) => NotifyDTO {
                level: NotifyLevel::Debug,
                title: "指定外の拡張子をスキップ",
                body: crate::models::notify::get_filename_on(p.as_str(), windows),
            },
            WatchInfo::DebounceError => NotifyDTO {
                level: NotifyLevel::Error,
                title: "フォルダ監視中のエラー",
                body: text("デバウンスエラーが発生"),
            },
        }
    }
}

/// The result of starting the folder watch.
#[derive(Debug, Clone, PartialEq, Eq)]
pub enum StartResult {
    Success,
    /// The folder to watch is not valid.
    InvalidSourcePath(String),
    /// The backup folder is not valid.
    InvalidDestinationPath(String),
    AlreadyRunning,
    NewDebouncerFailed,
    /// The debouncer could not start watching this folder.
    DebounceStartFailed(String),
}

impl Notify for StartResult {
    open spec fn dto_view(&self, windows: bool) -> DtoView {
        match self {
            StartResult::Success => dto(
                NotifyLevel::Info,
                "バックアップを開始しました"@,
                Seq::<char>::empty(),
            ),
            StartResult::InvalidSourcePath(p) => dto(
                NotifyLevel::Error,
                "バックアップ元フォルダが無効"@,
                clean_path_of(p@, windows),
            ),
            StartResult::InvalidDestinationPath(p) => dto(
                NotifyLevel::Error,
                "バックアップ先フォルダが無効"@,
                clean_path_of(p@, windows),
            ),
            StartResult::AlreadyRunning => dto(
                NotifyLevel::Silent,
                "既にフォルダ監視中"@,
                Seq::<char>::empty(),
            ),
            StartResult::NewDebouncerFailed => dto(
                NotifyLevel::Error,
                "フォルダの監視開始に失敗"@,
                "デバウンサーの生成に失敗"@,
            ),
            StartResult::DebounceStartFailed(p) => dto(
                NotifyLevel::Error,
                "フォルダの監視開始に失敗"@,
                clean_path_of(p@, windows),
            ),
        }
    }

    fn get_dto_on(&self, windows: bool) -> (d: NotifyDTO) {
        match self {
            StartResult::Success => NotifyDTO {
                level: NotifyLevel::Info,
                title: "バックアップを開始しました",
                body: String::new(),
            },
            StartResult::InvalidSourcePath(p) => NotifyDTO {
                level: NotifyLevel::Error,
                title: "バックアップ元フォルダが無効",
                body: clean_path_on(p.as_str(), windows),
            },
            StartResult::InvalidDestinationPath(p) => NotifyDTO {
                level: NotifyLevel::Error,
                title: "バックアップ先フォルダが無効",
                body: clean_path_on(p.as_str(), windows),
            },
            StartResult::AlreadyRunning => NotifyDTO {
                level: NotifyLevel::Silent,
                title: "既にフォルダ監視中",
                body: String::new(),
            },
            StartResult::NewDebouncerFailed => NotifyDTO {
                level: NotifyLevel::Error,
                title: "フォルダの監視開始に失敗",
                body: text("デバウンサーの生成に失敗"),
            },
            StartResult::DebounceStartFailed(p) => NotifyDTO {
                level: NotifyLevel::Error,
                title: "フォルダの監視開始に失敗",
                body: clean_path_on(p.as_str(), windows),
            },
        }
    }
}

/// The result of stopping the folder watch.
#[derive(Debug, Clone, Copy, PartialEq, Eq, Structural)]
pub enum StopResult {
    Success,
    AlreadyStopped,
}

impl Notify for StopResult {
    open spec fn dto_view(&self, windows: bool) -> DtoView {
        match self {
            StopResult::Success => dto(
                NotifyLevel::Info,
                "バックアップを停止しました"@,
                Seq::<char>::empty(),
            ),
            StopResult::AlreadyStopped => dto(
                NotifyLevel::Silent,
                "既に停止済み"@,
                Seq::<char>::empty(),
            ),
        }
    }

    fn get_dto_on(&self, windows: bool) -> (d: NotifyDTO) {
        match self {
            StopResult::Success => NotifyDTO {
                level: NotifyLevel::Info,
                title: "バックアップを停止しました",
                body: String::new(),
            },
            StopResult::AlreadyStopped => NotifyDTO {
                level: NotifyLevel::Silent,
                title: "既に停止済み",
                body: String::new(),
            },
        }
    }
}

/// The result of waiting until a file is written.
#[derive(Debug, Clone, PartialEq, Eq)]
pub enum WaitResult {
    Success,
    Locked(String),
    Missing(String),
}

impl Notify for WaitResult {
    open spec fn dto_view(&self, windows: bool) -> DtoView {
        match self {
            WaitResult::Success => dto(
                NotifyLevel::Debug,
                "ファイルの書込み終了を検知"@,
                Seq::<char>::empty(),
            ),
            WaitResult::Locked(p) => dto(NotifyLevel::Error, "ファイルがロック中"@, display_name(p@, windows)),
            WaitResult::Missing(p) => dto(
                NotifyLevel::Error,
                "ファイル消失または読取権限なし"@,
                display_name(p@, windows),
            ),
        }
    }

    fn get_dto_on(&self, windows: bool) -> (d: NotifyDTO) {
        match self {
            WaitResult::Success => NotifyDTO {
                level: NotifyLevel::Debug,
                title: "ファイルの書込み終了を検知",
                body: String::new(),
            },
            WaitResult::Locked(p) => NotifyDTO {
                level: NotifyLevel::Error,
                title: "ファイルがロック中",
                body: crate::models::notify::get_filename_on(p.as_str(), windows),
            },
            WaitResult::Missing(p) => NotifyDTO {
                level: NotifyLevel::Error,
                title: "ファイル消失または読取権限なし",
                body: crate::models::notify::get_filename_on(p.as_str(), windows),
            },
        }
    }
}

/// The result of backing up one file.
#[derive(Debug, Clone, PartialEq, Eq)]
pub enum BackupResult {
    Copied(String),
    AlreadyExists(String),
    InvalidFileName(String),
    MetadataFailed(String),
    ModifiedFailed(String),
    CopyFailed(String),
}

impl Notify for BackupResult {
    open spec fn dto_view(&self, windows: bool) -> DtoView {
        match self {
            BackupResult::Copied(p) => dto(NotifyLevel::Info, "バックアップ"@, display_name(p@, windows)),
            BackupResult::AlreadyExists(p) => dto(
                NotifyLevel::Silent,
                "既にバックアップ済み"@,
                display_name(p@, windows),
            ),
            BackupResult::InvalidFileName(p) => dto(
                NotifyLevel::Error,
                "ファイル名の取得に失敗"@,
                display_name(p@, windows),
            ),
            BackupResult::MetadataFailed(p) => dto(
                NotifyLevel::Error,
                "ファイル情報の取得に失敗"@,
                display_name(p@, windows),
            ),
            BackupResult::ModifiedFailed(p) => dto(
                NotifyLevel::Error,
                "最終更新時の取得に失敗"@,
                display_name(p@, windows),
            ),
            BackupResult::CopyFailed(p) => dto(NotifyLevel::Error, "コピーに失敗"@, display_name(p@, windows)),
        }
    }

    fn get_dto_on(&self, windows: bool) -> (d: NotifyDTO) {
        match self {
            BackupResult::Copied(p) => NotifyDTO {
                level: NotifyLevel::Info,
                title: "バックアップ",
                body: crate::models::notify::get_filename_on(p.as_str(), windows),
            },
            BackupResult::AlreadyExists(p) => NotifyDTO {
                level: NotifyLevel::Silent,
                title: "既にバックアップ済み",
                body: crate::models::notify::get_filename_on(p.as_str(), windows),
            },
            BackupResult::InvalidFileName(p) => NotifyDTO {
                level: NotifyLevel::Error,
                title: "ファイル名の取得に失敗",
                body: crate::models::notify::get_filename_on(p.as_str(), windows),
            },
            BackupResult::MetadataFailed(p) => NotifyDTO {
                level: NotifyLevel::Error,
                title: "ファイル情報の取得に失敗",
                body: crate::models::notify::get_filename_on(p.as_str(), windows),
            },
            BackupResult::ModifiedFailed(p) => NotifyDTO {
                level: NotifyLevel::Error,
                title: "最終更新時の取得に失敗",
                body: crate::models::notify::get_filename_on(p.as_str(), windows),
            },
            BackupResult::CopyFailed(p) => NotifyDTO {
                level: NotifyLevel::Error,
                title: "コピーに失敗",
                body: crate::models::notify::get_filename_on(p.as_str(), windows),
            },
        }
    }
}

/// A folder path for display, as paths are on the platform the crate was
/// built for: without the extended-length prefix on Windows, unchanged
/// elsewhere.
pub fn clean_path(path: &str) -> (r: String)
    ensures
        r@ == clean_path_of(path@, false) || r@ == clean_path_of(path@, true),
{
    crate::models::notify::_clean_path(path)
}

/// The file name of `path`, read as on the platform the crate was built for,
/// for display.
pub fn get_filename(path: &str) -> (r: String)
    ensures
        r@ == display_name(path@, false) || r@ == display_name(path@, true),
{
    crate::models::notify::get_filename(path)
}

/// `path` relative to `base`, read as on the platform the crate was built
/// for, or `path` itself when it does not lie under `base`.
pub fn get_relative_path(path: &str, base: &str) -> (r: String)
    ensures
        r@ == relative_path_of(path@, base@, false) || r@ == relative_path_of(path@, base@, true),
{
    crate::models::notify::_get_relative_path(path, base)
}

} // verus!
