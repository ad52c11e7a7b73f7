//! Backing up one file: the copy goes to the matching subfolder of the backup
//! folder and is named after the file, with the file's modification
//! time, as `[YYYYMMDD_HHMMSS]`, between the stem and the extension.
//!
//! The file system work (reading metadata, creating the folder, checking for
//! an existing copy, copying) is done by the caller between the steps below.

use vstd::prelude::*;
use chrono::{Datelike, Timelike};
use crate::text::{chars_of, string_of, append_chars, decimal, decimal_chars, zero_pad, zero_pad_exec};
use crate::path::{
    file_name_in, file_stem_in, extension_in, name_stem, name_extension, parent_in,
    strip_prefix_in, join_in, components_in, path_prefix, prefix_len, is_sep, cur_dir, parent_dir,
    no_slash, plain_name, joinable_name, path_file_name_in, last_dot, name_stem_exec,
    name_extension_exec, path_parent_in, path_strip_prefix_in, path_join_in,
    lemma_file_name_in_plain, lemma_join_file_name_in, lemma_rebase_in, windows_paths,
};
use crate::models::notify::BackupResult;
use crate::services::wait::FileTime;

verus! {

//=============================================================================
// Time stamp
//=============================================================================

/// A local date and time, as chrono's `Datelike` and `Timelike` give them.
#[derive(Debug, Clone, Copy, PartialEq, Eq, Structural)]
pub struct LocalDateTime {
    pub year: i32,
    pub month: u32,
    pub day: u32,
    pub hour: u32,
    pub minute: u32,
    pub second: u32,
    /// Nanoseconds; from one billion on they mark a leap second.
    pub nanosecond: u32,
}

/// The ranges of the fields of a local date and time in chrono.
pub open spec fn local_ok(t: LocalDateTime) -> bool {
    &&& -262144 <= t.year <= 262143
    &&& 1 <= t.month <= 12
    &&& 1 <= t.day <= 31
    &&& t.hour < 24
    &&& t.minute < 60
    &&& t.second < 60
    &&& t.nanosecond < 2_000_000_000
}

/// A number as two digits.
pub open spec fn two_digits(n: nat) -> Seq<char> {
    zero_pad(decimal(n), 2)
}

/// chrono's `%Y`: four digits, zero-padded, for the years 0 to 9999; a sign
/// before four or more digits for the others.
pub open spec fn year_text(y: int) -> Seq<char> {
    if 0 <= y <= 9999 {
        zero_pad(decimal(y as nat), 4)
    } else if y < 0 {
        seq!['-'] + zero_pad(decimal((-y) as nat), 4)
    } else {
        seq!['+'] + zero_pad(decimal(y as nat), 4)
    }
}

/// chrono's `[%Y%m%d_%H%M%S]` (a leap second shows as second 60).
pub open spec fn time_stamp_text(t: LocalDateTime) -> Seq<char> {
    seq!['['] + year_text(t.year as int) + two_digits(t.month as nat) + two_digits(t.day as nat)
        + seq!['_'] + two_digits(t.hour as nat) + two_digits(t.minute as nat) + two_digits(
        (t.second + t.nanosecond / 1_000_000_000) as nat,
    ) + seq![']']
}

fn two_digits_exec(n: u32) -> (r: Vec<char>)
    ensures
        r@ == two_digits(n as nat),
{
    let d = decimal_chars(n as u64);
    zero_pad_exec(&d, 2)
}

fn year_text_exec(y: i32) -> (r: Vec<char>)
    requires
        -262144 <= y <= 262143,
    ensures
        r@ == year_text(y as int),
{
    if 0 <= y && y <= 9999 {
        let d = decimal_chars(y as u64);
        zero_pad_exec(&d, 4)
    } else if y < 0 {
        let magnitude: u64 = (0 - (y as i64)) as u64;
        let d = decimal_chars(magnitude);
        let digits = zero_pad_exec(&d, 4);
        let mut r: Vec<char> = Vec::new();
        r.push('-');
        append_chars(&mut r, &digits);
        assert(r@ =~= seq!['-'] + digits@);
        r
    } else {
        let d = decimal_chars(y as u64);
        let digits = zero_pad_exec(&d, 4);
        let mut r: Vec<char> = Vec::new();
        r.push('+');
        append_chars(&mut r, &digits);
        assert(r@ =~= seq!['+'] + digits@);
        r
    }
}

/// The time stamp put into the name of a copy.
pub fn time_stamp(t: &LocalDateTime) -> (s: String)
    requires
        local_ok(*t),
    ensures
        s@ == time_stamp_text(*t),
{
    let mut v: Vec<char> = Vec::new();
    v.push('[');
    append_chars(&mut v, &year_text_exec(t.year));
    append_chars(&mut v, &two_digits_exec(t.month));
    append_chars(&mut v, &two_digits_exec(t.day));
    v.push('_');
    append_chars(&mut v, &two_digits_exec(t.hour));
    append_chars(&mut v, &two_digits_exec(t.minute));
    append_chars(&mut v, &two_digits_exec(t.second + t.nanosecond / 1_000_000_000));
    v.push(']');
    string_of(&v)
}

/// The seconds and nanoseconds from the epoch that chrono reads from a
/// `SystemTime`: a time before the epoch counts back from it; a second count
/// too large for `i64` gives none.
pub open spec fn epoch_seconds(t: FileTime) -> Option<(int, int)> {
    if t.secs > 9223372036854775807 {
        None
    } else if !t.before_epoch {
        Some((t.secs as int, t.nanos as int))
    } else if t.nanos == 0 {
        Some((-(t.secs as int), 0))
    } else {
        Some((-(t.secs as int) - 1, 1_000_000_000 - t.nanos))
    }
}

/// The seconds and nanoseconds from the epoch of a modification time.
pub fn epoch_offset(t: FileTime) -> (r: Option<(i64, u32)>)
    requires
        t.nanos < 1_000_000_000,
    ensures
        match r {
            Some((s, n)) => epoch_seconds(t) == Some((s as int, n as int)),
            None => epoch_seconds(t) is None,
        },
{
    if t.secs > 9223372036854775807u64 {
        return None;
    }
    let secs: i64 = t.secs as i64;
    if !t.before_epoch {
        Some((secs, t.nanos))
    } else if t.nanos == 0 {
        Some((0 - secs, 0))
    } else {
        Some((0 - secs - 1, 1_000_000_000 - t.nanos))
    }
}

/// Whether chrono's `DateTime::from_timestamp` gives a time for these seconds
/// and nanoseconds from the epoch: the day must lie between January 1 of the
/// year -262143 and December 31 of 262142 (chrono's dates), and the
/// nanoseconds must be under one billion, or under two billion on the last
/// second of a minute (a leap second).
pub open spec fn in_chrono_range(secs: int, nanos: int) -> bool {
    &&& -8_334_601_228_800 <= secs <= 8_210_266_876_799
    &&& 0 <= nanos < 2_000_000_000
    &&& (nanos < 1_000_000_000 || (secs % 86_400) % 60 == 59)
}

/// The days from 1970-01-01 to a date of the proleptic Gregorian calendar.
pub open spec fn days_from_civil(year: int, month: int, day: int) -> int {
    let y = if month <= 2 {
        year - 1
    } else {
        year
    };
    let era = y / 400;
    let year_of_era = y - era * 400;
    let shifted_month = if month > 2 {
        month - 3
    } else {
        month + 9
    };
    let day_of_year = (153 * shifted_month + 2) / 5 + day - 1;
    let day_of_era = year_of_era * 365 + year_of_era / 4 - year_of_era / 100 + day_of_year;
    era * 146_097 + day_of_era - 719_468
}

/// The whole seconds from 1970-01-01 00:00:00 to a date and time read on the
/// same clock (for a local time: the epoch as that clock shows it).
pub open spec fn civil_seconds(t: LocalDateTime) -> int {
    days_from_civil(t.year as int, t.month as int, t.day as int) * 86_400 + t.hour * 3_600
        + t.minute * 60 + t.second
}

/// Whether a year of the proleptic Gregorian calendar has a February 29.
pub open spec fn is_leap_year(year: int) -> bool {
    year % 4 == 0 && (year % 100 != 0 || year % 400 == 0)
}

/// The number of days of a month.
pub open spec fn days_in_month(year: int, month: int) -> int {
    if month == 2 {
        if is_leap_year(year) {
            29
        } else {
            28
        }
    } else if month == 4 || month == 6 || month == 9 || month == 11 {
        30
    } else {
        31
    }
}

/// Whether the date of `t` is a day of the calendar.
pub open spec fn valid_date(t: LocalDateTime) -> bool {
    1 <= t.month <= 12 && 1 <= t.day <= days_in_month(t.year as int, t.month as int)
}

/// Whether `t` is the time `secs`, `nanos` from the epoch as some time zone
/// shows it: a day of the calendar within chrono's ranges, the same
/// nanoseconds, and a clock that differs from UTC by less than a day
/// (chrono's bound on a zone's offset).
pub open spec fn local_reading(t: LocalDateTime, secs: int, nanos: int) -> bool {
    &&& local_ok(t)
    &&& valid_date(t)
    &&& t.nanosecond == nanos
    &&& -86_400 < civil_seconds(t) - secs < 86_400
}

/// chrono's `DateTime::from_timestamp(secs, nanos)` followed by
/// `with_timezone(&Local)`, read back through `Datelike` and `Timelike`.
/// chrono gives a time exactly when `in_chrono_range` holds. The local time
/// is the UTC time moved by the machine's offset, which chrono keeps under a
/// day and which is not stated otherwise: the contract claims that the
/// result is a reading of the arguments in some time zone, not which zone.
#[verifier::external_body]
fn local_date_time(secs: i64, nanos: u32) -> (r: Option<LocalDateTime>)
    ensures
        r is Some <==> in_chrono_range(secs as int, nanos as int),
        r matches Some(t) ==> local_reading(t, secs as int, nanos as int),
{
    match chrono::DateTime::from_timestamp(secs, nanos) {
        Some(utc) => {
            let t = utc.with_timezone(&chrono::Local);
            Some(LocalDateTime { year: t.year(), month: t.month(), day: t.day(), hour: t.hour(),
                minute: t.minute(), second: t.second(), nanosecond: t.nanosecond() })
        },
        None => None,
    }
}

/// Whether chrono can place the modification time `t`.
pub open spec fn placeable(t: FileTime) -> bool {
    match epoch_seconds(t) {
        Some((s, n)) => in_chrono_range(s, n),
        None => false,
    }
}

/// Whether `stamp` is the time stamp of the modification time `t` on a clock
/// `offset` seconds ahead of UTC.
pub open spec fn stamp_at_offset(stamp: Seq<char>, t: FileTime, offset: int) -> bool {
    match epoch_seconds(t) {
        Some((s, n)) => exists|l: LocalDateTime|
            #[trigger] local_reading(l, s, n) && civil_seconds(l) == s + offset && stamp
                == time_stamp_text(l),
        None => false,
    }
}

/// Whether `stamp` is the time stamp of the modification time `t` as some
/// time zone shows it.
pub open spec fn local_stamp_of(stamp: Seq<char>, t: FileTime) -> bool {
    exists|offset: int| #[trigger] stamp_at_offset(stamp, t, offset)
}

//=============================================================================
// Where the copy goes
//=============================================================================

/// The subfolder of the backup folder that matches the folder of `target`
/// under the watched folder `source` (paths of Windows when `windows`): none
/// when `target` has no parent or its parent does not lie under the watched
/// folder.
pub open spec fn subfolder_of(
    source: Seq<char>,
    destination: Seq<char>,
    target: Seq<char>,
    windows: bool,
) -> Option<Seq<char>> {
    match parent_in(target, windows) {
        None => None,
        Some(p) => match strip_prefix_in(p, source, windows) {
            None => None,
            Some(rel) => Some(join_in(destination, rel, windows)),
        },
    }
}

/// The folder for the copy of `target`: the matching subfolder of the backup
/// folder, or the backup folder itself when there is none.
pub open spec fn destination_folder_of(
    source: Seq<char>,
    destination: Seq<char>,
    target: Seq<char>,
    windows: bool,
) -> Seq<char> {
    match subfolder_of(source, destination, target, windows) {
        Some(f) => f,
        None => destination,
    }
}

/// The subfolder of the backup folder for the copy of `target` (paths of
/// Windows when `windows`), when there is one (the caller creates it).
pub fn subfolder_on(source: &str, destination: &str, target: &str, windows: bool) -> (r: Option<
    String,
>)
    ensures
        match r {
            Some(f) => subfolder_of(source@, destination@, target@, windows) == Some(f@),
            None => subfolder_of(source@, destination@, target@, windows) is None,
        },
{
    let s = chars_of(source);
    let d = chars_of(destination);
    let t = chars_of(target);
    match path_parent_in(&t, windows) {
        None => None,
        Some(p) => match path_strip_prefix_in(&p, &s, windows) {
            None => None,
            Some(rel) => {
                let joined = path_join_in(&d, &rel, windows);
                Some(string_of(&joined))
            },
        },
    }
}

/// The subfolder of `subfolder_on` for paths of the platform the crate was
/// built for.
pub fn subfolder(source: &str, destination: &str, target: &str) -> (r: Option<String>)
    ensures
        subfolder_matches(source@, destination@, target@, false, r) || subfolder_matches(
            source@,
            destination@,
            target@,
            true,
            r,
        ),
{
    subfolder_on(source, destination, target, windows_paths())
}

/// Whether `r` is the subfolder of `subfolder_of` on a platform.
pub open spec fn subfolder_matches(
    source: Seq<char>,
    destination: Seq<char>,
    target: Seq<char>,
    windows: bool,
    r: Option<String>,
) -> bool {
    match r {
        Some(f) => subfolder_of(source, destination, target, windows) == Some(f@),
        None => subfolder_of(source, destination, target, windows) is None,
    }
}

/// The folder for the copy of `target` (paths of Windows when `windows`).
pub fn destination_folder_on(source: &str, destination: &str, target: &str, windows: bool) -> (r:
    String)
    ensures
        r@ == destination_folder_of(source@, destination@, target@, windows),
{
    match subfolder_on(source, destination, target, windows) {
        Some(f) => f,
        None => string_of(&chars_of(destination)),
    }
}

/// The folder for the copy of `target`, for paths of the platform the crate
/// was built for.
pub fn destination_folder(source: &str, destination: &str, target: &str) -> (r: String)
    ensures
        r@ == destination_folder_of(source@, destination@, target@, false) || r@
            == destination_folder_of(source@, destination@, target@, true),
{
    destination_folder_on(source, destination, target, windows_paths())
}

/// The name of the copy of a file named `name`: its stem, the time stamp,
/// then a dot and its extension when it has one.
pub open spec fn backup_name(name: Seq<char>, stamp: Seq<char>) -> Seq<char> {
    match name_extension(name) {
        Some(e) => name_stem(name) + stamp + seq!['.'] + e,
        None => name_stem(name) + stamp,
    }
}

/// The path of the copy of `target` in `folder` (paths of Windows when
/// `windows`); none when `target` has no file name.
pub open spec fn backup_path_of(
    folder: Seq<char>,
    target: Seq<char>,
    stamp: Seq<char>,
    windows: bool,
) -> Option<Seq<char>> {
    match file_name_in(target, windows) {
        None => None,
        Some(n) => Some(join_in(folder, backup_name(n, stamp), windows)),
    }
}

//=============================================================================
// The steps of a backup
//=============================================================================

/// What reading the metadata of the file to back up gave.
#[derive(Debug, Clone, Copy, PartialEq, Eq, Structural)]
pub enum FileProbe {
    /// The metadata could not be read.
    MetadataFailed,
    /// The modification time could not be read.
    ModifiedFailed,
    /// The modification time.
    Modified(FileTime),
}

/// The first step's outcome.
#[derive(Debug, Clone, PartialEq, Eq)]
pub enum BackupStart {
    /// The backup is over with this result.
    Done(BackupResult),
    /// Create `folder` (with its parents) when there is one, then take the
    /// next step.
    Prepare { folder: Option<String>, time_stamp: String },
}

/// The first step of a backup of `target` from the watched folder `source` to
/// the backup folder `destination`: a metadata failure ends it; otherwise the
/// modification time, read in the local time zone, becomes the time stamp,
/// and the subfolder for the copy is chosen (paths of Windows when `windows`). A modification time that chrono
/// cannot place ends it as `ModifiedFailed`.
pub fn begin_backup_on(
    source: &str,
    destination: &str,
    target: &str,
    probe: FileProbe,
    windows: bool,
) -> (r: BackupStart)
    requires
        probe matches FileProbe::Modified(t) ==> t.nanos < 1_000_000_000,
    ensures
        probe is MetadataFailed ==> (r matches BackupStart::Done(BackupResult::MetadataFailed(p))
            && p@ == target@),
        probe is ModifiedFailed ==> (r matches BackupStart::Done(BackupResult::ModifiedFailed(p))
            && p@ == target@),
        probe matches FileProbe::Modified(ft) ==> if placeable(ft) {
            &&& r matches BackupStart::Prepare { folder, time_stamp }
            &&& match folder {
                Some(f) => subfolder_of(source@, destination@, target@, windows) == Some(f@),
                None => subfolder_of(source@, destination@, target@, windows) is None,
            }
            &&& local_stamp_of(time_stamp@, ft)
        } else {
            r matches BackupStart::Done(BackupResult::ModifiedFailed(p)) && p@ == target@
        },
{
    match probe {
        FileProbe::MetadataFailed => {
            let p = string_of(&chars_of(target));
            BackupStart::Done(BackupResult::MetadataFailed(p))
        },
        FileProbe::ModifiedFailed => {
            let p = string_of(&chars_of(target));
            BackupStart::Done(BackupResult::ModifiedFailed(p))
        },
        FileProbe::Modified(ft) => {
            let local = match epoch_offset(ft) {
                Some((secs, nanos)) => local_date_time(secs, nanos),
                None => None,
            };
            match local {
                None => {
                    let p = string_of(&chars_of(target));
                    BackupStart::Done(BackupResult::ModifiedFailed(p))
                },
                Some(t) => {
                    let stamp = time_stamp(&t);
                    proof {
                        let (s, n) = epoch_seconds(ft)->0;
                        assert(stamp_at_offset(stamp@, ft, civil_seconds(t) - s));
                    }
                    let folder = subfolder_on(source, destination, target, windows);
                    BackupStart::Prepare { folder, time_stamp: stamp }
                },
            }
        },
    }
}

/// Whether `r` is what the first step gives on a platform (see
/// `begin_backup_on`).
pub open spec fn begins_as(
    source: Seq<char>,
    destination: Seq<char>,
    target: Seq<char>,
    probe: FileProbe,
    windows: bool,
    r: BackupStart,
) -> bool {
    &&& probe is MetadataFailed ==> (r matches BackupStart::Done(BackupResult::MetadataFailed(p))
        && p@ == target)
    &&& probe is ModifiedFailed ==> (r matches BackupStart::Done(BackupResult::ModifiedFailed(p))
        && p@ == target)
    &&& probe matches FileProbe::Modified(ft) ==> if placeable(ft) {
        &&& r matches BackupStart::Prepare { folder, time_stamp }
        &&& match folder {
            Some(f) => subfolder_of(source, destination, target, windows) == Some(f@),
            None => subfolder_of(source, destination, target, windows) is None,
        }
        &&& local_stamp_of(time_stamp@, ft)
    } else {
        r matches BackupStart::Done(BackupResult::ModifiedFailed(p)) && p@ == target
    }
}

/// The first step of `begin_backup_on`, for paths of the platform the crate
/// was built for.
pub fn begin_backup(source: &str, destination: &str, target: &str, probe: FileProbe) -> (r:
    BackupStart)
    requires
        probe matches FileProbe::Modified(t) ==> t.nanos < 1_000_000_000,
    ensures
        begins_as(source@, destination@, target@, probe, false, r) || begins_as(
            source@,
            destination@,
            target@,
            probe,
            true,
            r,
        ),
{
    begin_backup_on(source, destination, target, probe, windows_paths())
}

/// The second step: the path of the copy (paths of Windows when `windows`),
/// in `planned` when the caller could create it and in `destination`
/// otherwise. A target without a file name ends the backup as
/// `InvalidFileName`.
pub fn backup_path_on(
    destination: &str,
    planned: &str,
    created: bool,
    target: &str,
    time_stamp: &str,
    windows: bool,
) -> (r: Result<String, BackupResult>)
    ensures
        path_result_as(destination@, planned@, created, target@, time_stamp@, windows, r),
{
    let folder = if created {
        chars_of(planned)
    } else {
        chars_of(destination)
    };
    let t = chars_of(target);
    match path_file_name_in(&t, windows) {
        None => Err(BackupResult::InvalidFileName(string_of(&t))),
        Some(n) => {
            let mut name = name_stem_exec(&n);
            let stamp = chars_of(time_stamp);
            append_chars(&mut name, &stamp);
            match name_extension_exec(&n) {
                Some(e) => {
                    name.push('.');
                    append_chars(&mut name, &e);
                },
                None => {},
            }
            assert(name@ =~= backup_name(n@, time_stamp@));
            let full = path_join_in(&folder, &name, windows);
            Ok(string_of(&full))
        },
    }
}

/// Whether `r` is the path of the copy on a platform (see `backup_path_on`).
pub open spec fn path_result_as(
    destination: Seq<char>,
    planned: Seq<char>,
    created: bool,
    target: Seq<char>,
    time_stamp: Seq<char>,
    windows: bool,
    r: Result<String, BackupResult>,
) -> bool {
    let folder = if created {
        planned
    } else {
        destination
    };
    match backup_path_of(folder, target, time_stamp, windows) {
        Some(p) => r matches Ok(q) && q@ == p,
        None => r matches Err(BackupResult::InvalidFileName(q)) && q@ == target,
    }
}

/// The second step of `backup_path_on`, for paths of the platform the crate
/// was built for.
pub fn backup_path(
    destination: &str,
    planned: &str,
    created: bool,
    target: &str,
    time_stamp: &str,
) -> (r: Result<String, BackupResult>)
    ensures
        path_result_as(destination@, planned@, created, target@, time_stamp@, false, r)
            || path_result_as(destination@, planned@, created, target@, time_stamp@, true, r),
{
    backup_path_on(destination, planned, created, target, time_stamp, windows_paths())
}

/// The third step: a copy already at `new_path` ends the backup as
/// `AlreadyExists`; otherwise the caller copies the file to `new_path`.
pub fn existing_copy(new_path: String, exists: bool) -> (r: Result<String, BackupResult>)
    ensures
        exists ==> (r matches Err(BackupResult::AlreadyExists(p)) && p@ == new_path@),
        !exists ==> (r matches Ok(p) && p@ == new_path@),
{
    if exists {
        Err(BackupResult::AlreadyExists(new_path))
    } else {
        Ok(new_path)
    }
}

/// The last step: the result of the copy to `new_path`.
pub fn copy_result(new_path: String, copied: bool) -> (r: BackupResult)
    ensures
        copied ==> (r matches BackupResult::Copied(p) && p@ == new_path@),
        !copied ==> (r matches BackupResult::CopyFailed(p) && p@ == new_path@),
{
    if copied {
        BackupResult::Copied(new_path)
    } else {
        BackupResult::CopyFailed(new_path)
    }
}


//=============================================================================
// Laws of the naming
//=============================================================================

/// Whether `x` may stand between a stem and an extension without changing
/// either: it is not empty and holds no dot and no separator.
pub open spec fn stamp_safe(x: Seq<char>) -> bool {
    x.len() > 0 && forall|i: int| 0 <= i < x.len() ==> stamp_char_ok(#[trigger] x[i])
}

/// A character that may stand in a time stamp: no dot, no separator of any
/// platform, no drive colon.
pub open spec fn stamp_char_ok(c: char) -> bool {
    c != '.' && c != '/' && c != '\\' && c != ':'
}

proof fn lemma_last_dot_bounds(n: Seq<char>)
    ensures
        -1 <= last_dot(n) < n.len(),
        last_dot(n) >= 0 ==> n[last_dot(n)] == '.',
        forall|j: int| last_dot(n) < j < n.len() ==> n[j] != '.',
    decreases n.len(),
{
    if n.len() > 0 {
        lemma_last_dot_bounds(n.drop_last());
        if n.last() != '.' {
            assert forall|j: int| last_dot(n) < j < n.len() implies n[j] != '.' by {
                if j < n.len() - 1 {
                    assert(n.drop_last()[j] == n[j]);
                }
            }
        }
    }
}

proof fn lemma_last_dot_append(a: Seq<char>, b: Seq<char>)
    requires
        forall|i: int| 0 <= i < b.len() ==> b[i] != '.',
    ensures
        last_dot(a + b) == last_dot(a),
    decreases b.len(),
{
    if b.len() == 0 {
        assert(a + b =~= a);
    } else {
        lemma_last_dot_append(a, b.drop_last());
        assert((a + b).drop_last() =~= a + b.drop_last());
        assert((a + b).last() == b.last());
    }
}

/// The stem of a copy's name is the file's stem followed by the stamp, and
/// its extension is the file's extension.
pub proof fn lemma_backup_name_parts(n: Seq<char>, stamp: Seq<char>)
    requires
        n.len() > 0,
        stamp_safe(stamp),
    ensures
        name_stem(backup_name(n, stamp)) == name_stem(n) + stamp,
        name_extension(backup_name(n, stamp)) == name_extension(n),
        backup_name(n, stamp).len() > 0,
{
    lemma_last_dot_bounds(n);
    let k = last_dot(n);
    if k <= 0 {
        lemma_last_dot_append(n, stamp);
        assert(backup_name(n, stamp) == n + stamp);
    } else {
        let stem = n.take(k);
        let e = n.skip(k + 1);
        assert forall|i: int| 0 <= i < e.len() implies e[i] != '.' by {
            assert(e[i] == n[k + 1 + i]);
        }
        let name = stem + stamp + seq!['.'] + e;
        lemma_last_dot_append(stem + stamp + seq!['.'], e);
        assert((stem + stamp + seq!['.']).drop_last() =~= stem + stamp);
        assert(last_dot(stem + stamp + seq!['.']) == stem.len() + stamp.len());
        assert(name.take((stem.len() + stamp.len()) as int) =~= stem + stamp);
        assert(name.skip((stem.len() + stamp.len() + 1) as int) =~= e);
    }
}

/// A copy's name keeps its meaning when joined, as the file's name does.
proof fn lemma_backup_name_plain(n: Seq<char>, stamp: Seq<char>, w: bool)
    requires
        joinable_name(n, w),
        stamp_safe(stamp),
    ensures
        joinable_name(backup_name(n, stamp), w),
{
    lemma_last_dot_bounds(n);
    let name = backup_name(n, stamp);
    let k = last_dot(n);
    let stem = name_stem(n);
    assert(stem.len() > 0);
    assert forall|i: int| 0 <= i < stem.len() implies stem[i] == n[i] by {}
    assert(name.len() >= 2);
    assert(name[stem.len() as int] == stamp[0]);
    assert(stamp_char_ok(stamp[0]));
    assert forall|i: int| 0 <= i < name.len() implies name[i] != '/' && !is_sep(#[trigger] name[i], w) by {
        if i < stem.len() {
            assert(name[i] == stem[i]);
            assert(n[i] != '/');
            assert(!is_sep(n[i], w));
        } else if i < stem.len() + stamp.len() {
            assert(name[i] == stamp[i - stem.len()]);
            assert(stamp_char_ok(stamp[i - stem.len()]));
        } else if i > stem.len() + stamp.len() {
            let m = k + 1 + (i - stem.len() - stamp.len() - 1);
            assert(name[i] == n[m]);
            assert(n[m] != '/');
            assert(!is_sep(n[m], w));
        }
    }
    assert(no_slash(name));
    if name == cur_dir() {
        assert(name.len() == 1);
    }
    if name == parent_dir() {
        assert(name[stem.len() as int] == '.');
    }
    assert(name[0] == n[0]);
    if stem.len() >= 2 {
        assert(name[1] == n[1]);
    } else {
        assert(name[1] == stamp[0]);
    }
}

/// Law of the backup naming: the copy of a file with a name lies directly in
/// the chosen folder (with the folder's drive prefix), its stem is the file's
/// stem followed by the time stamp, and its extension is the file's. It needs
/// a file name that does not start like a drive prefix or with `?` (names
/// that Windows does not allow).
pub proof fn lemma_backup_path(folder: Seq<char>, target: Seq<char>, stamp: Seq<char>, w: bool)
    requires
        file_name_in(target, w) matches Some(n) && prefix_len(n, w) == 0 && n[0] != '?',
        stamp_safe(stamp),
    ensures
        backup_path_of(folder, target, stamp, w) matches Some(p) && {
            &&& file_name_in(p, w) == Some(backup_name(file_name_in(target, w)->0, stamp))
            &&& parent_in(p, w) is Some
            &&& path_prefix(p, w) == path_prefix(folder, w)
            &&& file_stem_in(p, w) == Some(file_stem_in(target, w)->0 + stamp)
            &&& extension_in(p, w) == extension_in(target, w)
        },
{
    let n = file_name_in(target, w)->0;
    lemma_file_name_in_plain(target, w);
    assert(n.len() > 0);
    assert(joinable_name(n, w));
    lemma_backup_name_plain(n, stamp, w);
    lemma_backup_name_parts(n, stamp);
    let name = backup_name(n, stamp);
    lemma_join_file_name_in(folder, name, w);
}

proof fn lemma_decimal_digits(n: nat)
    ensures
        decimal(n).len() > 0,
        forall|i: int| 0 <= i < decimal(n).len() ==> 48 <= (#[trigger] decimal(n)[i] as u32) <= 57,
    decreases n,
{
    if n >= 10 {
        lemma_decimal_digits(n / 10);
        assert forall|i: int| 0 <= i < decimal(n).len() implies 48 <= (#[trigger] decimal(n)[i] as u32) <= 57 by {
            if i < decimal(n / 10).len() {
                assert(decimal(n)[i] == decimal(n / 10)[i]);
            }
        }
    }
}

proof fn lemma_padded_digits(n: nat, w: nat)
    ensures
        forall|i: int|
            0 <= i < zero_pad(decimal(n), w).len() ==> 48 <= (#[trigger] zero_pad(decimal(n), w)[i] as u32)
                <= 57,
{
    lemma_decimal_digits(n);
    let d = decimal(n);
    if d.len() < w {
        let fill = Seq::new((w - d.len()) as nat, |i: int| '0');
        assert forall|i: int| 0 <= i < zero_pad(d, w).len() implies 48 <= (#[trigger] zero_pad(d, w)[i] as u32) <= 57 by {
            if i < fill.len() {
                assert(zero_pad(d, w)[i] == '0');
            } else {
                assert(zero_pad(d, w)[i] == d[i - fill.len()]);
            }
        }
    }
}

/// Law of the time stamp: it holds only brackets, digits, a sign and an
/// underscore, so it can stand between a stem and an extension.
pub proof fn lemma_time_stamp_safe(t: LocalDateTime)
    requires
        local_ok(t),
    ensures
        stamp_safe(time_stamp_text(t)),
{
    let y = year_text(t.year as int);
    let a = two_digits(t.month as nat);
    let b = two_digits(t.day as nat);
    let c = two_digits(t.hour as nat);
    let d = two_digits(t.minute as nat);
    let e = two_digits((t.second + t.nanosecond / 1_000_000_000) as nat);
    lemma_padded_digits(t.month as nat, 2);
    lemma_padded_digits(t.day as nat, 2);
    lemma_padded_digits(t.hour as nat, 2);
    lemma_padded_digits(t.minute as nat, 2);
    lemma_padded_digits((t.second + t.nanosecond / 1_000_000_000) as nat, 2);
    let ya = if t.year < 0 { (-t.year) as nat } else { t.year as nat };
    lemma_padded_digits(ya, 4);
    assert forall|i: int| 0 <= i < y.len() implies stamp_char_ok(y[i]) by {
        if 0 <= t.year <= 9999 {
            assert(48 <= (y[i] as u32) <= 57);
        } else if i > 0 {
            assert(y[i] == zero_pad(decimal(ya), 4)[i - 1]);
            assert(48 <= (y[i] as u32) <= 57);
        }
    }
    let s = time_stamp_text(t);
    assert forall|i: int| 0 <= i < s.len() implies stamp_char_ok(s[i]) by {
        let l1 = 1 + y.len();
        let l2 = l1 + a.len();
        let l3 = l2 + b.len();
        let l4 = l3 + 1;
        let l5 = l4 + c.len();
        let l6 = l5 + d.len();
        let l7 = l6 + e.len();
        if i == 0 {
        } else if i < l1 {
            assert(s[i] == y[i - 1]);
        } else if i < l2 {
            assert(s[i] == a[i - l1]);
            assert(48 <= (a[i - l1] as u32) <= 57);
        } else if i < l3 {
            assert(s[i] == b[i - l2]);
            assert(48 <= (b[i - l2] as u32) <= 57);
        } else if i < l4 {
        } else if i < l5 {
            assert(s[i] == c[i - l4]);
            assert(48 <= (c[i - l4] as u32) <= 57);
        } else if i < l6 {
            assert(s[i] == d[i - l5]);
            assert(48 <= (d[i - l5] as u32) <= 57);
        } else if i < l7 {
            assert(s[i] == e[i - l6]);
            assert(48 <= (e[i - l6] as u32) <= 57);
        }
    }
}


proof fn lemma_decimal_short(n: nat)
    ensures
        n < 10 ==> decimal(n).len() == 1,
        n < 100 ==> decimal(n).len() <= 2,
        n < 1000 ==> decimal(n).len() <= 3,
        n < 10000 ==> decimal(n).len() <= 4,
    decreases n,
{
    if n >= 10 {
        lemma_decimal_short(n / 10);
    }
}

/// Law of the time stamp: for the years 0 to 9999 it has the form
/// `[YYYYMMDD_HHMMSS]`: seventeen characters, a bracket at each end, an
/// underscore after the eight digits of the date.
pub proof fn lemma_time_stamp_shape(t: LocalDateTime)
    requires
        local_ok(t),
        0 <= t.year <= 9999,
    ensures
        time_stamp_text(t).len() == 17,
        time_stamp_text(t)[0] == '[',
        time_stamp_text(t)[9] == '_',
        time_stamp_text(t)[16] == ']',
{
    lemma_decimal_short(t.year as nat);
    lemma_decimal_short(t.month as nat);
    lemma_decimal_short(t.day as nat);
    lemma_decimal_short(t.hour as nat);
    lemma_decimal_short(t.minute as nat);
    let sec = (t.second + t.nanosecond / 1_000_000_000) as nat;
    assert(sec < 100);
    lemma_decimal_short(sec);
    assert(year_text(t.year as int).len() == 4);
    assert(two_digits(t.month as nat).len() == 2);
    assert(two_digits(t.day as nat).len() == 2);
    assert(two_digits(t.hour as nat).len() == 2);
    assert(two_digits(t.minute as nat).len() == 2);
    assert(two_digits(sec).len() == 2);
}


/// Law of the backup folder (subfolders included): for a file whose folder
/// lies under the watched folder, the copy's folder has the backup folder's
/// drive prefix and is the backup folder followed by the same subfolders. It
/// needs a backup folder that is not a bare verbatim disk `\\?\C:`, and
/// subfolders that do not start like a drive prefix or with `?`.
pub proof fn lemma_mirrored_folder(
    source: Seq<char>,
    destination: Seq<char>,
    target: Seq<char>,
    w: bool,
)
    requires
        components_in(source, w).len() > 0,
        parent_in(target, w) matches Some(p) && strip_prefix_in(p, source, w) matches Some(rel)
            && prefix_len(rel, w) == 0 && (rel.len() > 0 ==> rel[0] != '?'),
        !(prefix_len(destination, w) == 6 && destination.len() == 6),
    ensures
        path_prefix(destination_folder_of(source, destination, target, w), w) == path_prefix(
            destination,
            w,
        ),
        components_in(destination_folder_of(source, destination, target, w), w) == components_in(
            destination,
            w,
        ) + components_in(parent_in(target, w)->0, w).skip(components_in(source, w).len() as int),
{
    lemma_rebase_in(parent_in(target, w)->0, source, destination, w);
}

//=============================================================================
// Laws of the calendar
//=============================================================================

/// The days from March 1 to the first day of a month, months counted from
/// March as 0.
spec fn month_start(shifted_month: int) -> int {
    (153 * shifted_month + 2) / 5
}

/// The days from the start of an era of 400 years (starting on March 1) to
/// the start of its year `year_of_era`.
spec fn era_year_start(year_of_era: int) -> int {
    year_of_era * 365 + year_of_era / 4 - year_of_era / 100
}

proof fn lemma_month_start_step(mp: int)
    requires
        0 <= mp <= 10,
    ensures
        month_start(mp + 1) == month_start(mp) + days_in_month(
            0,
            if mp <= 9 {
                mp + 3
            } else {
                mp - 9
            },
        ),
{
    if mp == 0 {
    } else if mp == 1 {
    } else if mp == 2 {
    } else if mp == 3 {
    } else if mp == 4 {
    } else if mp == 5 {
    } else if mp == 6 {
    } else if mp == 7 {
    } else if mp == 8 {
    } else if mp == 9 {
    } else {
    }
}

proof fn lemma_month_start_ordered(a: int, b: int)
    requires
        a <= b,
    ensures
        month_start(a) <= month_start(b),
{
}

proof fn lemma_era_year_step(y: int)
    requires
        0 <= y <= 398,
    ensures
        era_year_start(y + 1) == era_year_start(y) + 365 + (if (y + 1) % 4 == 0 {
            1int
        } else {
            0int
        }) - (if (y + 1) % 100 == 0 {
            1int
        } else {
            0int
        }),
{
}

proof fn lemma_era_year_ordered(a: int, b: int)
    requires
        0 <= a < b,
    ensures
        era_year_start(a + 1) <= era_year_start(b),
{
}

/// Whether the year `year_of_era + 1` of an era has a February 29.
spec fn era_leap(year_of_era: int) -> int {
    if (year_of_era + 1) % 4 == 0 && ((year_of_era + 1) % 100 != 0 || (year_of_era + 1) % 400 == 0) {
        1
    } else {
        0
    }
}

proof fn lemma_leap_in_era(era: int, yoe: int)
    requires
        0 <= yoe <= 399,
    ensures
        is_leap_year(era * 400 + yoe + 1) <==> era_leap(yoe) == 1,
{
    let y = era * 400 + yoe + 1;
    vstd::arithmetic::div_mod::lemma_mod_multiples_vanish(era * 100, yoe + 1, 4);
    vstd::arithmetic::div_mod::lemma_mod_multiples_vanish(era * 4, yoe + 1, 100);
    vstd::arithmetic::div_mod::lemma_mod_multiples_vanish(era, yoe + 1, 400);
    assert(y == 4 * (era * 100) + (yoe + 1));
    assert(y == 100 * (era * 4) + (yoe + 1));
    assert(y == 400 * era + (yoe + 1));
}

/// The day of the year (counted from March 1) of day `d` of the month counted
/// `mp` from March, and its bound.
proof fn lemma_day_of_year(mp: int, d: int, leap: int)
    requires
        0 <= mp <= 11,
        0 <= leap <= 1,
        1 <= d,
        mp <= 10 ==> d <= days_in_month(0, if mp <= 9 { mp + 3 } else { mp - 9 }),
        mp == 11 ==> d <= 28 + leap,
    ensures
        0 <= month_start(mp) + d - 1 <= 364 + leap,
{
    if mp <= 9 {
        assert(month_start(mp) + days_in_month(0, mp + 3) <= 337) by {
            if mp == 0 {
            } else if mp == 1 {
            } else if mp == 2 {
            } else if mp == 3 {
            } else if mp == 4 {
            } else if mp == 5 {
            } else if mp == 6 {
            } else if mp == 7 {
            } else if mp == 8 {
            } else {
            }
        }
    } else if mp == 10 {
        assert(month_start(10) == 306);
    } else {
        assert(month_start(11) == 337);
    }
}

/// The pieces of `days_from_civil`: the era, the year of the era, the month
/// counted from March, and the day of that year (counted from March 1).
proof fn lemma_date_pieces(y: int, m: int, d: int) -> (r: (int, int, int, int))
    requires
        1 <= m <= 12,
        1 <= d <= days_in_month(y, m),
    ensures
        0 <= r.1 <= 399,
        0 <= r.2 <= 11,
        r.3 == month_start(r.2) + d - 1,
        0 <= r.3 <= 364 + era_leap(r.1),
        r.2 <= 10 ==> d <= days_in_month(0, if r.2 <= 9 { r.2 + 3 } else { r.2 - 9 }),
        m == (if r.2 <= 9 { r.2 + 3 } else { r.2 - 9 }),
        y == r.0 * 400 + r.1 + (if m <= 2 { 1int } else { 0int }),
        days_from_civil(y, m, d) == r.0 * 146_097 + era_year_start(r.1) + r.3 - 719_468,
{
    let ys = if m <= 2 {
        y - 1
    } else {
        y
    };
    let era = ys / 400;
    let yoe = ys - era * 400;
    let mp = if m > 2 {
        m - 3
    } else {
        m + 9
    };
    let doy = month_start(mp) + d - 1;
    assert(0 <= yoe <= 399);
    if m == 2 {
        lemma_leap_in_era(era, yoe);
    }
    assert(mp <= 10 ==> days_in_month(y, m) == days_in_month(0, m));
    lemma_day_of_year(mp, d, era_leap(yoe));
    (era, yoe, mp, doy)
}

/// A day of the era (counted from March 1 of its first year) lies within the era.
proof fn lemma_day_of_era_bounds(yoe: int, doy: int)
    requires
        0 <= yoe <= 399,
        0 <= doy <= 364 + era_leap(yoe),
    ensures
        0 <= era_year_start(yoe) + doy < 146_097,
{
    if yoe < 399 {
        lemma_era_year_step(yoe);
        if yoe + 1 < 399 {
            lemma_era_year_ordered(yoe + 1, 399);
            lemma_era_year_step(yoe + 1);
        }
    }
}

/// Two days of an era with the same count from the era's start are the same
/// day of the same year.
proof fn lemma_day_of_era_injective(o1: int, q1: int, o2: int, q2: int)
    requires
        0 <= o1 <= 399,
        0 <= o2 <= 399,
        0 <= q1 <= 364 + era_leap(o1),
        0 <= q2 <= 364 + era_leap(o2),
        era_year_start(o1) + q1 == era_year_start(o2) + q2,
    ensures
        o1 == o2,
        q1 == q2,
{
    if o1 < o2 {
        lemma_era_year_step(o1);
        lemma_era_year_ordered(o1, o2);
    } else if o2 < o1 {
        lemma_era_year_step(o2);
        lemma_era_year_ordered(o2, o1);
    }
}

/// Two days of one year with the same count from March 1 are the same day of
/// the same month.
proof fn lemma_day_of_year_injective(p1: int, d1: int, p2: int, d2: int)
    requires
        0 <= p1 <= 11,
        0 <= p2 <= 11,
        1 <= d1,
        1 <= d2,
        p1 <= 10 ==> d1 <= days_in_month(0, if p1 <= 9 { p1 + 3 } else { p1 - 9 }),
        p2 <= 10 ==> d2 <= days_in_month(0, if p2 <= 9 { p2 + 3 } else { p2 - 9 }),
        month_start(p1) + d1 == month_start(p2) + d2,
    ensures
        p1 == p2,
        d1 == d2,
{
    if p1 < p2 {
        lemma_month_start_step(p1);
        lemma_month_start_ordered(p1 + 1, p2);
    } else if p2 < p1 {
        lemma_month_start_step(p2);
        lemma_month_start_ordered(p2 + 1, p1);
    }
}

/// Distinct days of the calendar have distinct day numbers.
proof fn lemma_days_from_civil_injective(y1: int, m1: int, d1: int, y2: int, m2: int, d2: int)
    requires
        1 <= m1 <= 12,
        1 <= d1 <= days_in_month(y1, m1),
        1 <= m2 <= 12,
        1 <= d2 <= days_in_month(y2, m2),
        days_from_civil(y1, m1, d1) == days_from_civil(y2, m2, d2),
    ensures
        y1 == y2,
        m1 == m2,
        d1 == d2,
{
    let a = lemma_date_pieces(y1, m1, d1);
    let b = lemma_date_pieces(y2, m2, d2);
    lemma_day_of_era_bounds(a.1, a.3);
    lemma_day_of_era_bounds(b.1, b.3);
    lemma_quotient_unique(146_097, a.0, era_year_start(a.1) + a.3, b.0, era_year_start(b.1) + b.3);
    lemma_day_of_era_injective(a.1, a.3, b.1, b.3);
    lemma_day_of_year_injective(a.2, d1, b.2, d2);
}

/// A whole multiple of `unit` plus a remainder below `unit` fixes both.
proof fn lemma_quotient_unique(unit: int, e1: int, x1: int, e2: int, x2: int)
    requires
        0 < unit,
        0 <= x1 < unit,
        0 <= x2 < unit,
        e1 * unit + x1 == e2 * unit + x2,
    ensures
        e1 == e2,
        x1 == x2,
{
    if e1 < e2 {
        assert(e1 * unit + unit <= e2 * unit) by (nonlinear_arith)
            requires
                e1 < e2,
                0 < unit,
        ;
    } else if e2 < e1 {
        assert(e2 * unit + unit <= e1 * unit) by (nonlinear_arith)
            requires
                e2 < e1,
                0 < unit,
        ;
    }
}

/// Two readings of one moment on clocks with the same offset from UTC (the
/// same civil seconds) are the same local time.
proof fn lemma_same_clock_same_stamp(
    a: LocalDateTime,
    b: LocalDateTime,
    secs: int,
    nanos: int,
)
    requires
        local_reading(a, secs, nanos),
        local_reading(b, secs, nanos),
        civil_seconds(a) == civil_seconds(b),
    ensures
        a == b,
        time_stamp_text(a) == time_stamp_text(b),
{
    let da = days_from_civil(a.year as int, a.month as int, a.day as int);
    let db = days_from_civil(b.year as int, b.month as int, b.day as int);
    let ra = a.hour * 3_600 + a.minute * 60 + a.second;
    let rb = b.hour * 3_600 + b.minute * 60 + b.second;
    lemma_quotient_unique(86_400, da, ra, db, rb);
    lemma_quotient_unique(3_600, a.hour as int, a.minute * 60 + a.second, b.hour as int, b.minute * 60 + b.second);
    lemma_quotient_unique(60, a.minute as int, a.second as int, b.minute as int, b.second as int);
    lemma_days_from_civil_injective(
        a.year as int,
        a.month as int,
        a.day as int,
        b.year as int,
        b.month as int,
        b.day as int,
    );
}

/// Law of the time stamp: on clocks with the same offset from UTC, a
/// modification time has one time stamp, so a backup of an unchanged file
/// repeated in the same time zone names its copy as before.
pub proof fn lemma_one_stamp_per_offset(t: FileTime, offset: int, a: Seq<char>, b: Seq<char>)
    requires
        stamp_at_offset(a, t, offset),
        stamp_at_offset(b, t, offset),
    ensures
        a == b,
{
    let (s, n) = epoch_seconds(t)->0;
    let la = choose|l: LocalDateTime|
        #[trigger] local_reading(l, s, n) && civil_seconds(l) == s + offset && a == time_stamp_text(l);
    let lb = choose|l: LocalDateTime|
        #[trigger] local_reading(l, s, n) && civil_seconds(l) == s + offset && b == time_stamp_text(l);
    lemma_same_clock_same_stamp(la, lb, s, n);
}

/// Law of a repeated backup: a second backup of an unchanged file (the same
/// modification time), read on a clock with the same offset from UTC and
/// placed in the same folder, computes the same copy path as the first, so a
/// copy that the first made is found there (and `existing_copy` ends the
/// second as `AlreadyExists` of that path).
pub proof fn lemma_repeated_backup(
    folder: Seq<char>,
    target: Seq<char>,
    t: FileTime,
    offset: int,
    first: Seq<char>,
    second: Seq<char>,
    w: bool,
)
    requires
        stamp_at_offset(first, t, offset),
        stamp_at_offset(second, t, offset),
    ensures
        backup_path_of(folder, target, first, w) == backup_path_of(folder, target, second, w),
{
    lemma_one_stamp_per_offset(t, offset, first, second);
}

} // verus!
