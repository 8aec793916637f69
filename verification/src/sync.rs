//! The decisions of the local sync endpoint: the defaults a pushed echo takes, which pushed
//! substats are recorded, and how a pushed status merges with the stored one.
use vstd::prelude::*;
use crate::gameday::{compute_game_day, day_after_shift, rfc3339_reading, spec_first_naive, EventTime};
use crate::rules::{ensure_status, spec_valid_status};
use crate::text::same_text;
use vstd::string::*;

verus! {

/// The echo fields of a pushed payload, with their defaults applied.
#[derive(Clone, Debug, PartialEq, Eq)]
pub struct SyncEchoFields {
    pub nickname: Option<String>,
    pub main_stat_key: String,
    pub cost_class: i64,
    pub opened_slots_count: i64,
    pub status: String,
}

/// The status a push asks for: the pushed one when it is a valid status, else `tracking`.
pub open spec fn spec_sync_status(raw: Option<Seq<char>>) -> Seq<char> {
    match raw {
        Some(s) => if spec_valid_status(s) { s } else { "tracking"@ },
        None => "tracking"@,
    }
}

/// The view of an optional text slice.
pub open spec fn spec_opt_str(o: Option<&str>) -> Option<Seq<char>> {
    match o {
        Some(s) => Some(s@),
        None => None,
    }
}

/// Applies the defaults of a pushed echo: main stat `crit_rate`, cost class 4, no opened
/// slots, and a status that is valid (`tracking` otherwise).
pub fn sync_echo_fields(
    nickname: Option<&str>,
    main_stat_key: Option<&str>,
    cost_class: Option<i64>,
    opened_slots_count: Option<i64>,
    status: Option<&str>,
) -> (r: SyncEchoFields)
    ensures
        crate::rules::spec_opt_text(r.nickname) == spec_opt_str(nickname),
        r.main_stat_key@ == (match main_stat_key {
            Some(k) => k@,
            None => "crit_rate"@,
        }),
        r.cost_class == (match cost_class {
            Some(c) => c,
            None => 4,
        }),
        r.opened_slots_count == (match opened_slots_count {
            Some(c) => c,
            None => 0,
        }),
        r.status@ == spec_sync_status(spec_opt_str(status)),
{
    let nick: Option<String> = match nickname {
        Some(n) => Some(n.to_owned()),
        None => None,
    };
    let key: String = match main_stat_key {
        Some(k) => k.to_owned(),
        None => "crit_rate".to_owned(),
    };
    let raw: &str = match status {
        Some(s) => s,
        None => "tracking",
    };
    let st: String = match ensure_status(raw) {
        Ok(()) => raw.to_owned(),
        Err(_) => "tracking".to_owned(),
    };
    SyncEchoFields {
        nickname: nick,
        main_stat_key: key,
        cost_class: match cost_class {
            Some(c) => c,
            None => 4,
        },
        opened_slots_count: match opened_slots_count {
            Some(c) => c,
            None => 0,
        },
        status: st,
    }
}

/// A pushed substat with its defaults applied.
#[derive(Clone, Debug, PartialEq, Eq)]
pub struct SyncSubstat {
    pub stat_key: String,
    pub value_scaled: i64,
    pub slot_no: i64,
}

/// A pushed substat: none when it names no stat; otherwise value 0 and slot 1 by default.
pub fn sync_substat(stat_key: Option<&str>, value_scaled: Option<i64>, slot_no: Option<i64>) -> (r: Option<SyncSubstat>)
    ensures
        match stat_key {
            Some(k) => if k@.len() == 0 {
                r.is_none()
            } else {
                r.is_some() && r->Some_0.stat_key@ == k@ && r->Some_0.value_scaled == (match value_scaled {
                    Some(v) => v,
                    None => 0,
                }) && r->Some_0.slot_no == (match slot_no {
                    Some(v) => v,
                    None => 1,
                })
            },
            None => r.is_none(),
        },
{
    match stat_key {
        Some(k) => {
            if k.unicode_len() == 0 {
                return None;
            }
            Some(SyncSubstat {
                stat_key: k.to_owned(),
                value_scaled: match value_scaled {
                    Some(v) => v,
                    None => 0,
                },
                slot_no: match slot_no {
                    Some(v) => v,
                    None => 1,
                },
            })
        },
        None => None,
    }
}

/// A pushed substat is recorded only into a free slot and only when the echo does not
/// hold its stat yet.
pub fn sync_should_record(rows_in_slot: i64, rows_with_stat: i64) -> (r: bool)
    ensures
        r == (rows_in_slot == 0 && rows_with_stat == 0),
{
    rows_in_slot == 0 && rows_with_stat == 0
}

/// The stored status after a push: a push of `tracking` leaves a completed or abandoned
/// echo as it was; any other push sets the pushed status.
pub open spec fn spec_status_after_push(stored: Seq<char>, pushed: Seq<char>) -> Seq<char> {
    if pushed == "tracking"@ && (stored == "completed"@ || stored == "abandoned"@) {
        stored
    } else {
        pushed
    }
}

/// The stored status after a push.
pub fn status_after_push(stored: &str, pushed: &str) -> (r: String)
    ensures
        r@ == spec_status_after_push(stored@, pushed@),
{
    if same_text(pushed, "tracking") && (same_text(stored, "completed") || same_text(stored, "abandoned")) {
        stored.to_owned()
    } else {
        pushed.to_owned()
    }
}

/// A push never reopens a finished echo: pushing `tracking` onto a completed or abandoned
/// echo keeps its status, and pushing the stored status again changes nothing.
pub proof fn law_push_keeps_finished(stored: Seq<char>, pushed: Seq<char>)
    ensures
        (stored == "completed"@ || stored == "abandoned"@) && pushed == "tracking"@ ==> spec_status_after_push(
            stored,
            pushed,
        ) == stored,
        spec_status_after_push(stored, stored) == stored,
        spec_status_after_push(spec_status_after_push(stored, pushed), pushed) == spec_status_after_push(stored, pushed),
{
}

/// The game day of a pushed event stamped now: its game day, or `1970-01-01` where the
/// time cannot be used.
pub fn sync_game_day(now: &str, boundary_hour: i64) -> (r: String)
    ensures
        match rfc3339_reading(now@) {
            Some(t) => r@ == (match day_after_shift(t, boundary_hour as int) {
                Some(d) => d,
                None => "1970-01-01"@,
            }),
            None => match spec_first_naive(now@, 0) {
                Some(n) => r@ == "1970-01-01"@ || exists|t: EventTime| t.local == n && day_after_shift(
                    t,
                    boundary_hour as int,
                ) == Some(r@),
                None => r@ == "1970-01-01"@,
            },
        },
{
    match compute_game_day(now, boundary_hour) {
        Ok(d) => d,
        Err(_) => "1970-01-01".to_owned(),
    }
}

/// What a push stores as status is always one that the echo rules accept.
pub proof fn law_sync_status_valid(raw: Option<Seq<char>>)
    ensures
        spec_valid_status(spec_sync_status(raw)),
{
}

} // verus!
