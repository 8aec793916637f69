//! The rules that echo, expectation and backfill inputs must meet before they are stored,
//! and how the fields of an update are merged with what is stored.
use vstd::prelude::*;
use vstd::string::*;
use crate::domain::{BackfillSlotInput, CreateEchoInput, ExpectationItem, SaveExpectationPresetInput, UpdateEchoInput};
use crate::numtext::{decimal_string, spec_decimal};
use crate::text::{same_text, spec_trim, trim_text};

verus! {

/// The statuses an echo can have.
pub open spec fn spec_valid_status(s: Seq<char>) -> bool {
    s == "tracking"@ || s == "paused"@ || s == "abandoned"@ || s == "completed"@
}

/// Accepts the four echo statuses; anything else is `invalid status: <status>`.
pub fn ensure_status(status: &str) -> (r: Result<(), String>)
    ensures
        r.is_ok() <==> spec_valid_status(status@),
        r.is_err() ==> r->Err_0@ == "invalid status: "@ + status@,
{
    if same_text(status, "tracking") || same_text(status, "paused") || same_text(status, "abandoned")
        || same_text(status, "completed") {
        Ok(())
    } else {
        let mut m = "invalid status: ".to_owned();
        m.append(status);
        Err(m)
    }
}

/// Accepts the cost classes 1, 3 and 4; anything else is `invalid cost_class: <n>`.
pub fn ensure_cost_class(cost_class: i64) -> (r: Result<(), String>)
    ensures
        r.is_ok() <==> (cost_class == 1 || cost_class == 3 || cost_class == 4),
        r.is_err() ==> r->Err_0@ == "invalid cost_class: "@ + spec_decimal(cost_class as int),
{
    if cost_class == 1 || cost_class == 3 || cost_class == 4 {
        Ok(())
    } else {
        let mut m = "invalid cost_class: ".to_owned();
        let d = decimal_string(cost_class);
        m.append(d.as_str());
        Err(m)
    }
}

/// Whether key `k` occurs among the first `n` stat keys.
pub open spec fn spec_key_before(keys: Seq<Seq<char>>, k: Seq<char>, n: int) -> bool {
    exists|j: int| 0 <= j < n && keys[j] == k
}

/// The stat keys of expectation items.
pub open spec fn spec_item_keys(items: Seq<ExpectationItem>) -> Seq<Seq<char>> {
    items.map_values(|it: ExpectationItem| it.stat_key@)
}

/// What is wrong with the item at position `i`, given that those before it are fine.
pub open spec fn spec_item_error(items: Seq<ExpectationItem>, i: int) -> Option<Seq<char>> {
    if items[i].rank < 1 {
        Some("rank must be >= 1, got "@ + spec_decimal(items[i].rank as int))
    } else if spec_key_before(spec_item_keys(items), items[i].stat_key@, i) {
        Some("duplicate stat_key in expectation items: "@ + items[i].stat_key@)
    } else {
        None
    }
}

/// The first error among the items from position `i` on.
pub open spec fn spec_items_error_from(items: Seq<ExpectationItem>, i: int) -> Option<Seq<char>>
    decreases items.len() - i,
{
    if i >= items.len() || i < 0 {
        None
    } else {
        match spec_item_error(items, i) {
            Some(e) => Some(e),
            None => spec_items_error_from(items, i + 1),
        }
    }
}

fn key_before(keys: &Vec<String>, k: &String, n: usize) -> (r: bool)
    requires
        n <= keys.len(),
    ensures
        r == spec_key_before(keys.deep_view(), k@, n as int),
{
    let mut j: usize = 0;
    while j < n
        invariant
            j <= n <= keys.len(),
            forall|x: int| 0 <= x < j ==> keys.deep_view()[x] != k@,
        decreases n - j,
    {
        if keys[j] == *k {
            assert(keys.deep_view()[j as int] == k@);
            return true;
        }
        j = j + 1;
    }
    false
}

/// Checks expectation items in order: each rank must be at least 1 and no stat key may
/// repeat; the first offending item gives the error.
pub fn ensure_expectation_items(items: &[ExpectationItem]) -> (r: Result<(), String>)
    ensures
        match spec_items_error_from(items@, 0) {
            Some(e) => r.is_err() && r->Err_0@ == e,
            None => r.is_ok(),
        },
{
    let mut keys: Vec<String> = Vec::new();
    let mut i: usize = 0;
    while i < items.len()
        invariant
            i <= items.len(),
            keys.len() == i,
            keys.deep_view() == spec_item_keys(items@).take(i as int),
            spec_items_error_from(items@, 0) == spec_items_error_from(items@, i as int),
        decreases items.len() - i,
    {
        let ghost ks = spec_item_keys(items@);
        if items[i].rank < 1 {
            let mut m = "rank must be >= 1, got ".to_owned();
            let d = decimal_string(items[i].rank);
            m.append(d.as_str());
            return Err(m);
        }
        let dup = key_before(&keys, &items[i].stat_key, i);
        assert(spec_key_before(keys.deep_view(), items@[i as int].stat_key@, i as int) == spec_key_before(
            ks,
            items@[i as int].stat_key@,
            i as int,
        )) by {
            if spec_key_before(ks, items@[i as int].stat_key@, i as int) {
                let j = choose|j: int| 0 <= j < i && ks[j] == items@[i as int].stat_key@;
                assert(keys.deep_view()[j] == ks[j]);
            }
        }
        if dup {
            let mut m = "duplicate stat_key in expectation items: ".to_owned();
            m.append(items[i].stat_key.as_str());
            return Err(m);
        }
        keys.push(items[i].stat_key.clone());
        assert(keys.deep_view() =~= ks.take(i as int + 1));
        i = i + 1;
    }
    Ok(())
}

/// What is wrong with the backfill slot at position `i`, given that those before it are
/// fine: a slot outside 1..=5, a slot already given, or a stat already given.
pub open spec fn spec_slot_error(slots: Seq<BackfillSlotInput>, i: int) -> Option<Seq<char>> {
    if !(1 <= slots[i].slot_no <= 5) {
        Some("slot_no out of range: "@ + spec_decimal(slots[i].slot_no as int))
    } else if exists|j: int| 0 <= j < i && slots[j].slot_no == slots[i].slot_no {
        Some("duplicate slot_no in backfill: "@ + spec_decimal(slots[i].slot_no as int))
    } else if exists|j: int| 0 <= j < i && slots[j].stat_key@ == slots[i].stat_key@ {
        Some("duplicate stat_key in backfill: "@ + slots[i].stat_key@)
    } else {
        None
    }
}

/// The first error among the backfill slots from position `i` on.
pub open spec fn spec_slots_error_from(slots: Seq<BackfillSlotInput>, i: int) -> Option<Seq<char>>
    decreases slots.len() - i,
{
    if i >= slots.len() || i < 0 {
        None
    } else {
        match spec_slot_error(slots, i) {
            Some(e) => Some(e),
            None => spec_slots_error_from(slots, i + 1),
        }
    }
}

/// Checks backfill slots in order: each slot number must lie in 1..=5, and neither slot
/// numbers nor stat keys may repeat; the first offending slot gives the error.
pub fn ensure_backfill_slots(slots: &[BackfillSlotInput]) -> (r: Result<(), String>)
    ensures
        match spec_slots_error_from(slots@, 0) {
            Some(e) => r.is_err() && r->Err_0@ == e,
            None => r.is_ok(),
        },
{
    let mut i: usize = 0;
    while i < slots.len()
        invariant
            i <= slots.len(),
            spec_slots_error_from(slots@, 0) == spec_slots_error_from(slots@, i as int),
        decreases slots.len() - i,
    {
        let no = slots[i].slot_no;
        if !(1 <= no && no <= 5) {
            let mut m = "slot_no out of range: ".to_owned();
            let d = decimal_string(no);
            m.append(d.as_str());
            return Err(m);
        }
        let mut j: usize = 0;
        while j < i
            invariant
                j <= i < slots.len(),
                no == slots@[i as int].slot_no,
                1 <= no <= 5,
                spec_slots_error_from(slots@, 0) == spec_slots_error_from(slots@, i as int),
                forall|x: int| 0 <= x < j ==> slots@[x].slot_no != no,
            decreases i - j,
        {
            if slots[j].slot_no == no {
                let mut m = "duplicate slot_no in backfill: ".to_owned();
                let d = decimal_string(no);
                m.append(d.as_str());
                assert(spec_slot_error(slots@, i as int) == Some("duplicate slot_no in backfill: "@ + spec_decimal(
                    no as int,
                ))) by {
                    assert(slots@[j as int].slot_no == slots@[i as int].slot_no);
                }
                return Err(m);
            }
            j = j + 1;
        }
        let mut j: usize = 0;
        while j < i
            invariant
                j <= i < slots.len(),
                1 <= slots@[i as int].slot_no <= 5,
                spec_slots_error_from(slots@, 0) == spec_slots_error_from(slots@, i as int),
                forall|x: int| 0 <= x < i ==> slots@[x].slot_no != slots@[i as int].slot_no,
                forall|x: int| 0 <= x < j ==> slots@[x].stat_key@ != slots@[i as int].stat_key@,
            decreases i - j,
        {
            if slots[j].stat_key == slots[i].stat_key {
                let mut m = "duplicate stat_key in backfill: ".to_owned();
                m.append(slots[i].stat_key.as_str());
                assert(slots@[j as int].stat_key@ == slots@[i as int].stat_key@);
                return Err(m);
            }
            j = j + 1;
        }
        i = i + 1;
    }
    Ok(())
}

/// A nickname as stored: trimmed, and none when nothing is left.
pub open spec fn spec_nickname(n: Seq<char>) -> Option<Seq<char>> {
    if spec_trim(n).len() == 0 {
        None
    } else {
        Some(spec_trim(n))
    }
}

/// The view of an optional text.
pub open spec fn spec_opt_text(o: Option<String>) -> Option<Seq<char>> {
    match o {
        Some(s) => Some(s@),
        None => None,
    }
}

/// Trims a nickname; one that is only white space becomes none.
pub fn normalize_nickname(n: &str) -> (r: Option<String>)
    ensures
        spec_opt_text(r) == spec_nickname(n@),
{
    let t = trim_text(n);
    if t.unicode_len() == 0 {
        None
    } else {
        Some(t)
    }
}

/// The fields a new echo is stored with.
#[derive(Clone, Debug, PartialEq, Eq)]
pub struct NewEchoFields {
    pub nickname: Option<String>,
    pub status: String,
}

/// Checks a new echo (cost class first, then the status, `tracking` when not given) and
/// normalizes its nickname.
pub fn plan_create_echo(input: &CreateEchoInput) -> (r: Result<NewEchoFields, String>)
    ensures
        ({
            let status = match input.status {
                Some(s) => s@,
                None => "tracking"@,
            };
            if !(input.cost_class == 1 || input.cost_class == 3 || input.cost_class == 4) {
                r.is_err() && r->Err_0@ == "invalid cost_class: "@ + spec_decimal(input.cost_class as int)
            } else if !spec_valid_status(status) {
                r.is_err() && r->Err_0@ == "invalid status: "@ + status
            } else {
                r.is_ok() && r->Ok_0.status@ == status && spec_opt_text(r->Ok_0.nickname) == match input.nickname {
                    Some(n) => spec_nickname(n@),
                    None => None,
                }
            }
        }),
{
    match ensure_cost_class(input.cost_class) {
        Err(e) => {
            return Err(e);
        },
        Ok(()) => {},
    }
    let status: String = match &input.status {
        Some(s) => s.clone(),
        None => "tracking".to_owned(),
    };
    match ensure_status(status.as_str()) {
        Err(e) => {
            return Err(e);
        },
        Ok(()) => {},
    }
    let nickname = match &input.nickname {
        Some(n) => normalize_nickname(n.as_str()),
        None => None,
    };
    Ok(NewEchoFields { nickname, status })
}

/// The stored fields of an echo that an update may change.
#[derive(Clone, Debug, PartialEq, Eq)]
pub struct EchoFields {
    pub nickname: Option<String>,
    pub main_stat_key: String,
    pub cost_class: i64,
    pub status: String,
}

/// Merges an update into the stored fields: given fields replace stored ones (a given
/// nickname that trims to nothing clears it); then the cost class and status are checked.
pub fn plan_update_echo(input: &UpdateEchoInput, existing: &EchoFields) -> (r: Result<EchoFields, String>)
    ensures
        ({
            let cost_class = match input.cost_class {
                Some(c) => c,
                None => existing.cost_class,
            };
            let status = match input.status {
                Some(s) => s@,
                None => existing.status@,
            };
            if !(cost_class == 1 || cost_class == 3 || cost_class == 4) {
                r.is_err() && r->Err_0@ == "invalid cost_class: "@ + spec_decimal(cost_class as int)
            } else if !spec_valid_status(status) {
                r.is_err() && r->Err_0@ == "invalid status: "@ + status
            } else {
                &&& r.is_ok()
                &&& r->Ok_0.cost_class == cost_class
                &&& r->Ok_0.status@ == status
                &&& r->Ok_0.main_stat_key@ == match input.main_stat_key {
                    Some(k) => k@,
                    None => existing.main_stat_key@,
                }
                &&& spec_opt_text(r->Ok_0.nickname) == match input.nickname {
                    Some(n) => spec_nickname(n@),
                    None => spec_opt_text(existing.nickname),
                }
            }
        }),
{
    let main_stat_key: String = match &input.main_stat_key {
        Some(k) => k.clone(),
        None => existing.main_stat_key.clone(),
    };
    let cost_class: i64 = match input.cost_class {
        Some(c) => c,
        None => existing.cost_class,
    };
    let status: String = match &input.status {
        Some(s) => s.clone(),
        None => existing.status.clone(),
    };
    match ensure_cost_class(cost_class) {
        Err(e) => {
            return Err(e);
        },
        Ok(()) => {},
    }
    match ensure_status(status.as_str()) {
        Err(e) => {
            return Err(e);
        },
        Ok(()) => {},
    }
    let nickname: Option<String> = match &input.nickname {
        Some(n) => normalize_nickname(n.as_str()),
        None => match &existing.nickname {
            Some(n) => Some(n.clone()),
            None => None,
        },
    };
    Ok(EchoFields { nickname, main_stat_key, cost_class, status })
}

/// Checks a preset before it is saved: its items first, then its trimmed name, which must
/// not be empty; gives the trimmed name.
pub fn plan_save_preset(input: &SaveExpectationPresetInput) -> (r: Result<String, String>)
    ensures
        match spec_items_error_from(input.items@, 0) {
            Some(e) => r.is_err() && r->Err_0@ == e,
            None => if spec_trim(input.name@).len() == 0 {
                r.is_err() && r->Err_0@ == "preset name cannot be empty"@
            } else {
                r.is_ok() && r->Ok_0@ == spec_trim(input.name@)
            },
        },
{
    match ensure_expectation_items(input.items.as_slice()) {
        Err(e) => {
            return Err(e);
        },
        Ok(()) => {},
    }
    let name = trim_text(input.name.as_str());
    if name.unicode_len() == 0 {
        return Err("preset name cannot be empty".to_owned());
    }
    Ok(name)
}

/// A stored nickname is kept as it is when it is given again.
pub proof fn law_nickname_stable(n: Seq<char>)
    ensures
        spec_nickname(n) matches Some(m) ==> spec_nickname(m) == Some(m),
{
    crate::text::law_trim_idempotent(n);
}

} // verus!
