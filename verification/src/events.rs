//! The decisions around appending and editing an ordered event: which inputs are refused
//! and with what message, how an edit is merged with the stored event, and how events are
//! renumbered.
use vstd::prelude::*;
use vstd::string::*;
use crate::domain::{AppendOrderedEventInput, EditOrderedEventInput};
use crate::gameday::{parse_event_time, rfc3339_reading, spec_first_naive};
use crate::numtext::{decimal_string, spec_decimal};
use crate::text::same_text;

verus! {

/// The message for a slot number outside 1..=5.
pub open spec fn spec_slot_range_error(slot_no: i64) -> Seq<char> {
    "slot_no out of range: "@ + spec_decimal(slot_no as int)
}

/// Accepts slot numbers 1 to 5.
pub fn check_slot_no(slot_no: i64) -> (r: Result<(), String>)
    ensures
        r.is_ok() <==> 1 <= slot_no <= 5,
        r.is_err() ==> r->Err_0@ == spec_slot_range_error(slot_no),
{
    if 1 <= slot_no && slot_no <= 5 {
        Ok(())
    } else {
        let mut m = "slot_no out of range: ".to_owned();
        let d = decimal_string(slot_no);
        m.append(d.as_str());
        Err(m)
    }
}

/// Whether a text is an event time that can be read at all.
pub open spec fn spec_time_readable(s: Seq<char>) -> bool {
    rfc3339_reading(s).is_some() || spec_first_naive(s, 0).is_some()
}

/// Checks an event before it is appended: the slot number first, then the event time.
pub fn check_append_input(input: &AppendOrderedEventInput) -> (r: Result<(), String>)
    ensures
        !(1 <= input.slot_no <= 5) ==> r.is_err() && r->Err_0@ == spec_slot_range_error(input.slot_no),
        1 <= input.slot_no <= 5 && rfc3339_reading(input.event_time@).is_some() ==> r.is_ok(),
        1 <= input.slot_no <= 5 && !spec_time_readable(input.event_time@) ==> r.is_err() && r->Err_0@
            == "unsupported event_time format: "@ + input.event_time@,
        r.is_ok() ==> 1 <= input.slot_no <= 5 && spec_time_readable(input.event_time@),
        1 <= input.slot_no <= 5 && spec_time_readable(input.event_time@) && r.is_err() ==> r->Err_0@
            == "failed to resolve local datetime"@,
{
    match check_slot_no(input.slot_no) {
        Err(e) => {
            return Err(e);
        },
        Ok(()) => {},
    }
    match parse_event_time(input.event_time.as_str()) {
        Ok(_) => Ok(()),
        Err(e) => Err(e),
    }
}

/// The fields of a stored event that an edit may change.
#[derive(Clone, Debug, PartialEq, Eq)]
pub struct StoredEventFields {
    pub slot_no: i64,
    pub stat_key: String,
    pub tier_index: i64,
    pub event_time: String,
}

/// An edit merged with the stored event, ready to be written.
#[derive(Clone, Debug, PartialEq, Eq)]
pub struct EventEdit {
    pub slot_no: i64,
    pub stat_key: String,
    pub tier_index: i64,
    pub event_time: String,
    pub reorder_mode: String,
}

/// The reorder modes an edit may ask for.
pub open spec fn spec_valid_reorder_mode(m: Seq<char>) -> bool {
    m == "none"@ || m == "time_assist"@
}

/// Merges an edit with the stored event (given fields win; the reorder mode is `none` when
/// not given), then checks the slot number, the reorder mode and the event time, in that
/// order.
pub fn plan_event_edit(input: &EditOrderedEventInput, stored: &StoredEventFields) -> (r: Result<EventEdit, String>)
    ensures
        ({
            let slot_no = match input.slot_no {
                Some(v) => v,
                None => stored.slot_no,
            };
            let event_time = match input.event_time {
                Some(v) => v@,
                None => stored.event_time@,
            };
            let mode = match input.reorder_mode {
                Some(v) => v@,
                None => "none"@,
            };
            if !(1 <= slot_no <= 5) {
                r.is_err() && r->Err_0@ == spec_slot_range_error(slot_no)
            } else if !spec_valid_reorder_mode(mode) {
                r.is_err() && r->Err_0@ == "invalid reorder_mode: "@ + mode
            } else if !spec_time_readable(event_time) {
                r.is_err() && r->Err_0@ == "unsupported event_time format: "@ + event_time
            } else {
                &&& rfc3339_reading(event_time).is_some() ==> r.is_ok()
                &&& r.is_err() ==> r->Err_0@ == "failed to resolve local datetime"@
                &&& r.is_ok() ==> {
                    &&& r->Ok_0.slot_no == slot_no
                    &&& r->Ok_0.event_time@ == event_time
                    &&& r->Ok_0.reorder_mode@ == mode
                    &&& r->Ok_0.stat_key@ == match input.stat_key {
                        Some(v) => v@,
                        None => stored.stat_key@,
                    }
                    &&& r->Ok_0.tier_index == match input.tier_index {
                        Some(v) => v,
                        None => stored.tier_index,
                    }
                }
            }
        }),
{
    let slot_no: i64 = match input.slot_no {
        Some(v) => v,
        None => stored.slot_no,
    };
    let stat_key: String = match &input.stat_key {
        Some(v) => v.clone(),
        None => stored.stat_key.clone(),
    };
    let tier_index: i64 = match input.tier_index {
        Some(v) => v,
        None => stored.tier_index,
    };
    let event_time: String = match &input.event_time {
        Some(v) => v.clone(),
        None => stored.event_time.clone(),
    };
    let reorder_mode: String = match &input.reorder_mode {
        Some(v) => v.clone(),
        None => "none".to_owned(),
    };
    match check_slot_no(slot_no) {
        Err(e) => {
            return Err(e);
        },
        Ok(()) => {},
    }
    if !same_text(reorder_mode.as_str(), "none") && !same_text(reorder_mode.as_str(), "time_assist") {
        let mut m = "invalid reorder_mode: ".to_owned();
        m.append(reorder_mode.as_str());
        return Err(m);
    }
    match parse_event_time(event_time.as_str()) {
        Err(e) => {
            return Err(e);
        },
        Ok(_) => {},
    }
    Ok(EventEdit { slot_no, stat_key, tier_index, event_time, reorder_mode })
}

/// The new analysis order of events already sorted by time: each event id with its
/// position counted from 1.
pub fn analysis_seq_assignments(event_ids: &Vec<String>) -> (r: Vec<(String, i64)>)
    requires
        event_ids.len() < i64::MAX,
    ensures
        r.len() == event_ids.len(),
        forall|i: int| 0 <= i < r.len() ==> #[trigger] r@[i].0@ == event_ids@[i]@ && r@[i].1 == i + 1,
{
    let mut out: Vec<(String, i64)> = Vec::new();
    let mut i: usize = 0;
    while i < event_ids.len()
        invariant
            i <= event_ids.len() < i64::MAX,
            out.len() == i,
            forall|j: int| 0 <= j < i ==> #[trigger] out@[j].0@ == event_ids@[j]@ && out@[j].1 == j + 1,
        decreases event_ids.len() - i,
    {
        out.push((event_ids[i].clone(), (i + 1) as i64));
        i = i + 1;
    }
    out
}

/// What an edit reports as affected: `all:<n>` when all `n` events were renumbered, else
/// `event:<id>`.
pub fn affected_range(reorder_mode: &str, renumbered: usize, event_id: &str) -> (r: String)
    requires
        renumbered <= i64::MAX,
    ensures
        r@ == (if reorder_mode@ == "time_assist"@ {
            "all:"@ + spec_decimal(renumbered as int)
        } else {
            "event:"@ + event_id@
        }),
{
    if same_text(reorder_mode, "time_assist") {
        let mut m = "all:".to_owned();
        let d = decimal_string(renumbered as i64);
        m.append(d.as_str());
        m
    } else {
        let mut m = "event:".to_owned();
        m.append(event_id);
        m
    }
}

/// The conflicts an appended event can meet, checked in order: the slot already holds an
/// ordered event, or the stat already stands on the echo.
pub fn append_conflict(slot_no: i64, stat_key: &str, slot_taken: bool, stat_taken: bool) -> (r: Result<(), String>)
    ensures
        slot_taken ==> r.is_err() && r->Err_0@ == "slot "@ + spec_decimal(slot_no as int) + " already has an ordered event"@,
        !slot_taken && stat_taken ==> r.is_err() && r->Err_0@ == "stat "@ + stat_key@
            + " already exists on this echo, duplicate substat is not allowed"@,
        !slot_taken && !stat_taken ==> r.is_ok(),
{
    if slot_taken {
        let mut m = "slot ".to_owned();
        let d = decimal_string(slot_no);
        m.append(d.as_str());
        m.append(" already has an ordered event");
        Err(m)
    } else if stat_taken {
        let mut m = "stat ".to_owned();
        m.append(stat_key);
        m.append(" already exists on this echo, duplicate substat is not allowed");
        Err(m)
    } else {
        Ok(())
    }
}

/// The conflicts an edited event can meet, checked in order: another event holds the slot,
/// or the stat stands in another slot.
pub fn edit_conflict(slot_no: i64, stat_key: &str, slot_taken: bool, stat_taken: bool) -> (r: Result<(), String>)
    ensures
        slot_taken ==> r.is_err() && r->Err_0@ == "slot "@ + spec_decimal(slot_no as int) + " already used by another event"@,
        !slot_taken && stat_taken ==> r.is_err() && r->Err_0@ == "stat "@ + stat_key@ + " already exists in another slot"@,
        !slot_taken && !stat_taken ==> r.is_ok(),
{
    if slot_taken {
        let mut m = "slot ".to_owned();
        let d = decimal_string(slot_no);
        m.append(d.as_str());
        m.append(" already used by another event");
        Err(m)
    } else if stat_taken {
        let mut m = "stat ".to_owned();
        m.append(stat_key);
        m.append(" already exists in another slot");
        Err(m)
    } else {
        Ok(())
    }
}

/// The message when a stat has no value at a tier.
pub fn tier_value_error(stat_key: &str, tier_index: i64) -> (r: String)
    ensures
        r@ == "invalid tier for stat_key="@ + stat_key@ + " tier_index="@ + spec_decimal(tier_index as int),
{
    let mut m = "invalid tier for stat_key=".to_owned();
    m.append(stat_key);
    m.append(" tier_index=");
    let d = decimal_string(tier_index);
    m.append(d.as_str());
    m
}

} // verus!
