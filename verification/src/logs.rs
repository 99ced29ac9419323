//! Capsule logs: daily files, their names, and which of them are old.

use vstd::prelude::*;
use vstd::string::*;

use crate::calendar::{dates_are_written_in_full, is_date_text_of, today_date_string};
use crate::paths::{join, join_paths};
use crate::text::{chars_of, is_digit, texts};

verus! {

/// How many days rotated logs are kept.
pub const LOG_RETENTION_DAYS: u64 = 7;

/// A rotated log's name: `YYYY-MM-DD.log`.
pub open spec fn is_log_name(name: Seq<char>) -> bool {
    &&& name.len() == 14
    &&& forall|i: int|
        0 <= i < 10 && i != 4 && i != 7 ==> is_digit(#[trigger] name[i])
    &&& name[4] == '-'
    &&& name[7] == '-'
    &&& name.skip(10) == ".log"@
}

fn looks_like_log(name: &str) -> (r: bool)
    ensures
        r == is_log_name(name@),
{
    let chars = chars_of(name);
    if chars.len() != 14 {
        return false;
    }
    for i in 0..10
        invariant
            chars@ == name@,
            name@.len() == 14,
            forall|j: int| 0 <= j < i && j != 4 && j != 7 ==> is_digit(#[trigger] name@[j]),
            i > 4 ==> name@[4] == '-',
            i > 7 ==> name@[7] == '-',
    {
        let c = chars[i];
        if i == 4 || i == 7 {
            if c != '-' {
                return false;
            }
        } else if !('0' <= c && c <= '9') {
            assert(!is_digit(name@[i as int]));
            return false;
        }
    }
    crate::text::same(name.substring_char(10, 14), ".log")
}

/// A file of a log directory. Times are nanoseconds since 1970-01-01; the time
/// is absent where it could not be read.
#[derive(Debug)]
pub struct LogFile {
    pub name: String,
    pub modified: Option<i128>,
}

/// Nanoseconds in a second.
pub const NANOS_PER_SEC: i128 = 1_000_000_000;

/// The earliest time that the clock can represent, in nanoseconds since
/// 1970-01-01: its seconds are a signed number of 64 bits.
pub const EARLIEST_TIME: i128 = -9_223_372_036_854_775_808_000_000_000;

/// The first time that the clock can no longer represent.
pub const TIME_LIMIT: i128 = 9_223_372_036_854_775_808_000_000_000;

/// The time before which logs are pruned: `max_days` before `now`, or
/// 1970-01-01 where the clock cannot represent that.
pub open spec fn cutoff_of(now: int, max_days: int) -> int {
    let t = now - max_days * 86400 * NANOS_PER_SEC;
    if t >= EARLIEST_TIME {
        t
    } else {
        0
    }
}

/// The time before which logs are pruned.
pub fn log_cutoff(now: i128, max_days: u64) -> (r: i128)
    requires
        EARLIEST_TIME <= now < TIME_LIMIT,
        max_days * 86400 <= u64::MAX,
    ensures
        r == cutoff_of(now as int, max_days as int),
{
    let age: u64 = max_days * 86400;
    let t: i128 = now - (age as i128) * NANOS_PER_SEC;
    if t >= EARLIEST_TIME {
        t
    } else {
        0
    }
}

/// Whether a file is pruned: it is named like a rotated log and was modified
/// before the cutoff.
pub open spec fn is_pruned(file: LogFile, cutoff: int) -> bool {
    &&& is_log_name(file.name@)
    &&& file.modified is Some
    &&& file.modified->0 < cutoff
}

/// The names of the pruned files among a list, in order.
pub open spec fn pruned_names(files: Seq<LogFile>, cutoff: int) -> Seq<Seq<char>>
    decreases files.len(),
{
    if files.len() == 0 {
        Seq::empty()
    } else {
        let rest = pruned_names(files.drop_last(), cutoff);
        if is_pruned(files.last(), cutoff) {
            rest.push(files.last().name@)
        } else {
            rest
        }
    }
}

/// The files of a log directory to delete: the rotated logs that are older than
/// `max_days`.
pub fn prune_old_logs(files: &Vec<LogFile>, now: i128, max_days: u64) -> (r: Vec<String>)
    requires
        EARLIEST_TIME <= now < TIME_LIMIT,
        max_days * 86400 <= u64::MAX,
    ensures
        texts(r@) == pruned_names(files@, cutoff_of(now as int, max_days as int)),
{
    let limit: i128 = log_cutoff(now, max_days);
    let mut names: Vec<String> = Vec::new();
    assert(texts(names@) =~= pruned_names(files@.take(0), limit as int));
    for i in 0..files.len()
        invariant
            texts(names@) == pruned_names(files@.take(i as int), limit as int),
    {
        let file = &files[i];
        let ghost before = names@;
        proof {
            assert(files@.take(i + 1).drop_last() =~= files@.take(i as int));
            assert(files@.take(i + 1).last() == files@[i as int]);
        }
        let old = match file.modified {
            Some(t) => t < limit,
            None => false,
        };
        if old && looks_like_log(file.name.as_str()) {
            let name = file.name.clone();
            names.push(name);
            assert(texts(names@) =~= texts(before).push(name@));
        }
    }
    assert(files@.take(files@.len() as int) =~= files@);
    names
}

/// Every pruned file is named like a rotated log: nothing else in the
/// directory is ever deleted.
pub proof fn only_rotated_logs_are_pruned(files: Seq<LogFile>, cutoff: int, name: Seq<char>)
    requires
        pruned_names(files, cutoff).contains(name),
    ensures
        is_log_name(name),
    decreases files.len(),
{
    if files.len() > 0 {
        let rest = pruned_names(files.drop_last(), cutoff);
        let all = pruned_names(files, cutoff);
        let k = choose|k: int| 0 <= k < all.len() && all[k] == name;
        if k < rest.len() {
            assert(rest[k] == name);
            only_rotated_logs_are_pruned(files.drop_last(), cutoff, name);
        }
    }
}

/// How a capsule's log is opened.
#[derive(Debug)]
pub struct LogPlan {
    /// The directory to create.
    pub dir: String,
    /// Whether old logs in it are pruned first.
    pub prune: bool,
    /// The file to append to.
    pub file: String,
}

/// Plans the log of a capsule under a principal's home. A principal whose home
/// does not exist gets none.
pub fn open_capsule_log_at(
    home_exists: bool,
    log_dir: &str,
    capsule_name: &str,
    prune: bool,
    now_secs: u64,
) -> (r: Option<LogPlan>)
    ensures
        r is Some == home_exists,
        r matches Some(plan) ==> {
            &&& plan.dir@ == join(log_dir@, capsule_name@)
            &&& plan.prune == prune
            &&& exists|day: Seq<char>|
                is_date_text_of(day, now_secs) && plan.file@ == join(
                    plan.dir@,
                    #[trigger] (day + ".log"@),
                )
        },
{
    if !home_exists {
        return None;
    }
    let dir = join_paths(log_dir, capsule_name);
    let today = today_date_string(now_secs);
    let mut name = today.clone();
    name.append(".log");
    assert(is_date_text_of(today@, now_secs));
    assert(name@ == today@ + ".log"@);
    let file = join_paths(dir.as_str(), name.as_str());
    Some(LogPlan { dir, prune, file })
}

/// A rotated log that was modified more than `max_days` ago is pruned, and one
/// that was modified since is kept, wherever the clock can represent that time.
pub proof fn old_logs_are_pruned_and_others_kept(
    files: Seq<LogFile>,
    now: int,
    max_days: int,
    i: int,
)
    requires
        0 <= i < files.len(),
        files[i].modified is Some,
        now - max_days * 86_400_000_000_000 >= -9_223_372_036_854_775_808_000_000_000,
    ensures
        is_log_name(files[i].name@) && now - files[i].modified->0 > max_days * 86_400_000_000_000
            ==> pruned_names(files, cutoff_of(now, max_days)).contains(files[i].name@),
        now - files[i].modified->0 <= max_days * 86_400_000_000_000 ==> !is_pruned(
            files[i],
            cutoff_of(now, max_days),
        ),
    decreases files.len(),
{
    let cutoff = cutoff_of(now, max_days);
    if is_log_name(files[i].name@) && now - files[i].modified->0 > max_days * 86_400_000_000_000 {
        let front = files.drop_last();
        let rest = pruned_names(front, cutoff);
        let all = pruned_names(files, cutoff);
        if i < front.len() {
            old_logs_are_pruned_and_others_kept(front, now, max_days, i);
            let k = choose|k: int| 0 <= k < rest.len() && rest[k] == files[i].name@;
            assert(all[k] == files[i].name@);
        } else {
            assert(is_pruned(files.last(), cutoff));
            assert(all[all.len() - 1] == files[i].name@);
        }
    }
}

/// Every pruned name is that of a file which was modified before the cutoff.
pub proof fn only_old_logs_are_pruned(files: Seq<LogFile>, cutoff: int, name: Seq<char>)
    requires
        pruned_names(files, cutoff).contains(name),
    ensures
        exists|i: int|
            0 <= i < files.len() && (#[trigger] files[i]).name@ == name && files[i].modified is Some
                && files[i].modified->0 < cutoff,
    decreases files.len(),
{
    if files.len() > 0 {
        let front = files.drop_last();
        let rest = pruned_names(front, cutoff);
        let all = pruned_names(files, cutoff);
        let k = choose|k: int| 0 <= k < all.len() && all[k] == name;
        if k < rest.len() {
            assert(rest[k] == name);
            only_old_logs_are_pruned(front, cutoff, name);
            let i = choose|i: int|
                0 <= i < front.len() && (#[trigger] front[i]).name@ == name && front[i].modified
                    is Some && front[i].modified->0 < cutoff;
            assert(files[i].name@ == name);
        } else {
            assert(files[files.len() - 1].name@ == name);
        }
    }
}

/// A name is that of a rotated log exactly where it is four digits, two digits
/// and two digits with hyphens between them, and `.log`.
pub proof fn log_names_are_dates(
    year: Seq<char>,
    month: Seq<char>,
    day: Seq<char>,
)
    requires
        year.len() == 4 && month.len() == 2 && day.len() == 2,
    ensures
        is_log_name(year + "-"@ + month + "-"@ + day + ".log"@) <==> (forall|i: int|
            0 <= i < 4 ==> '0' <= #[trigger] year[i] <= '9') && (forall|i: int|
            0 <= i < 2 ==> '0' <= #[trigger] month[i] <= '9') && (forall|i: int|
            0 <= i < 2 ==> '0' <= #[trigger] day[i] <= '9'),
{
    reveal_strlit("-");
    reveal_strlit(".log");
    let name = year + "-"@ + month + "-"@ + day + ".log"@;
    assert(name.skip(10) =~= ".log"@);
    assert(name.len() == 14);
    assert(name[4] == '-' && name[7] == '-');
    assert forall|i: int| 0 <= i < 4 implies name[i] == year[i] by {}
    assert(name[5] == month[0] && name[6] == month[1]);
    assert(name[8] == day[0] && name[9] == day[1]);
    if is_log_name(name) {
        assert(is_digit(name[0]) && is_digit(name[1]) && is_digit(name[2]) && is_digit(name[3]));
        assert(is_digit(name[5]) && is_digit(name[6]) && is_digit(name[8]) && is_digit(name[9]));
    } else if (forall|i: int| 0 <= i < 4 ==> '0' <= #[trigger] year[i] <= '9') && (forall|i: int|
        0 <= i < 2 ==> '0' <= #[trigger] month[i] <= '9') && (forall|i: int|
        0 <= i < 2 ==> '0' <= #[trigger] day[i] <= '9') {
        assert forall|i: int| 0 <= i < 10 && i != 4 && i != 7 implies is_digit(
            #[trigger] name[i],
        ) by {
            if i < 4 {
                assert(name[i] == year[i]);
            } else if i < 7 {
                assert(name[i] == month[i - 5]);
            } else {
                assert(name[i] == day[i - 8]);
            }
        }
    }
}

/// Nothing but a date with a four-digit year, and `.log`, names a rotated log.
pub proof fn only_dates_name_logs(name: Seq<char>)
    requires
        is_log_name(name),
    ensures
        name == name.subrange(0, 4) + "-"@ + name.subrange(5, 7) + "-"@ + name.subrange(8, 10)
            + ".log"@,
        forall|i: int|
            0 <= i < 10 && i != 4 && i != 7 ==> '0' <= #[trigger] name[i] <= '9',
{
    reveal_strlit("-");
    reveal_strlit(".log");
    assert forall|i: int| 0 <= i < 10 && i != 4 && i != 7 implies '0' <= #[trigger] name[i]
        <= '9' by {
        assert(is_digit(name[i]));
    }
    assert forall|i: int| 10 <= i < 14 implies #[trigger] name[i] == ".log"@[i - 10] by {
        assert(name.skip(10)[i - 10] == name[i]);
    }
    assert(name =~= name.subrange(0, 4) + "-"@ + name.subrange(5, 7) + "-"@ + name.subrange(8, 10)
        + ".log"@);
}

/// The log that is written on a day of a four-digit year is named like a rotated
/// one, so it is pruned when it is old.
pub proof fn written_logs_are_rotated(day: Seq<char>, secs: u64)
    requires
        is_date_text_of(day, secs),
        day.len() == 10,
    ensures
        is_log_name(day + ".log"@),
{
    dates_are_written_in_full(day, secs);
    let (y, m, d) = choose|y: Seq<char>, m: Seq<char>, d: Seq<char>|
        {
            &&& day == #[trigger] (y + seq!['-'] + m + seq!['-'] + d)
            &&& y.len() >= 4 && m.len() == 2 && d.len() == 2
            &&& forall|i: int| 0 <= i < y.len() ==> is_digit(#[trigger] y[i])
            &&& forall|i: int| 0 <= i < 2 ==> is_digit(#[trigger] m[i])
            &&& forall|i: int| 0 <= i < 2 ==> is_digit(#[trigger] d[i])
        };
    reveal_strlit("-");
    assert("-"@ =~= seq!['-']);
    assert forall|i: int| 0 <= i < 4 implies '0' <= #[trigger] y[i] <= '9' by {
        assert(is_digit(y[i]));
    }
    assert forall|i: int| 0 <= i < 2 implies '0' <= #[trigger] m[i] <= '9' by {
        assert(is_digit(m[i]));
    }
    assert forall|i: int| 0 <= i < 2 implies '0' <= #[trigger] d[i] <= '9' by {
        assert(is_digit(d[i]));
    }
    log_names_are_dates(y, m, d);
}

/// Where the clock cannot represent the time that the logs would have to be older
/// than, the logs from before 1970 are pruned and no others.
pub proof fn unreachable_cutoffs_fall_back(file: LogFile, now: int, max_days: int)
    requires
        now - max_days * 86_400_000_000_000 < -9_223_372_036_854_775_808_000_000_000,
        is_log_name(file.name@),
    ensures
        is_pruned(file, cutoff_of(now, max_days)) <==> file.modified is Some && file.modified->0
            < 0,
{
}

}
