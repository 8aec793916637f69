//! The `WHERE` clauses and bound values that the query filters turn into.
use vstd::prelude::*;
use vstd::string::*;
use crate::domain::{DistributionFilter, EchoFilter, HypothesisFilter};
use crate::shape::spec_join;

verus! {

/// A value bound to a `?` placeholder.
#[derive(Clone, Debug, PartialEq, Eq)]
pub enum SqlParam {
    Null,
    Text(String),
    Integer(i64),
}

/// A bound value as plain values: `(0, "", 0)` for null, `(1, text, 0)` for a text and
/// `(2, "", n)` for an integer.
pub open spec fn spec_param_view(p: SqlParam) -> (int, Seq<char>, int) {
    match p {
        SqlParam::Null => (0, Seq::empty(), 0),
        SqlParam::Text(s) => (1, s@, 0),
        SqlParam::Integer(v) => (2, Seq::empty(), v as int),
    }
}

/// `WHERE c1 AND c2 ...`, or nothing when there is no condition.
pub open spec fn spec_where(conds: Seq<Seq<char>>) -> Seq<char> {
    if conds.len() == 0 {
        Seq::empty()
    } else {
        "WHERE "@ + spec_join(conds, " AND "@)
    }
}

/// Joins the conditions into a `WHERE` clause.
pub fn where_clause(conds: &Vec<&'static str>) -> (r: String)
    ensures
        r@ == spec_where(conds@.map_values(|c: &'static str| c@)),
{
    let ghost parts = conds@.map_values(|c: &'static str| c@);
    if conds.len() == 0 {
        return String::new();
    }
    let mut out: String = conds[0].to_owned();
    let mut i: usize = 1;
    assert(parts.take(1).drop_last() =~= Seq::<Seq<char>>::empty());
    assert(parts.take(1) =~= seq![parts[0]]);
    while i < conds.len()
        invariant
            1 <= i <= conds.len(),
            parts == conds@.map_values(|c: &'static str| c@),
            out@ == spec_join(parts.take(i as int), " AND "@),
        decreases conds.len() - i,
    {
        assert(parts.take(i as int + 1).drop_last() =~= parts.take(i as int));
        out.append(" AND ");
        out.append(conds[i]);
        i = i + 1;
    }
    assert(parts.take(conds.len() as int) =~= parts);
    let mut w = "WHERE ".to_owned();
    w.append(out.as_str());
    w
}

/// A condition and its value, when the filter field is set.
pub open spec fn spec_opt_cond<T>(field: Option<T>, cond: Seq<char>) -> Seq<Seq<char>> {
    match field {
        Some(_) => seq![cond],
        None => Seq::empty(),
    }
}

/// The bound text value of a set field.
pub open spec fn spec_text_param(field: Option<String>) -> Seq<SqlParam> {
    match field {
        Some(v) => seq![SqlParam::Text(v)],
        None => Seq::empty(),
    }
}

/// The bound integer value of a set field.
pub open spec fn spec_int_param(field: Option<i64>) -> Seq<SqlParam> {
    match field {
        Some(v) => seq![SqlParam::Integer(v)],
        None => Seq::empty(),
    }
}

/// The conditions of a distribution filter, in the order they are written.
pub open spec fn spec_distribution_conds(f: DistributionFilter) -> Seq<Seq<char>> {
    spec_opt_cond(f.start_time, "oe.event_time >= ?"@) + spec_opt_cond(f.end_time, "oe.event_time <= ?"@)
        + spec_opt_cond(f.main_stat_key, "e.main_stat_key = ?"@) + spec_opt_cond(f.cost_class, "e.cost_class = ?"@)
        + spec_opt_cond(f.status, "e.status = ?"@)
}

/// The values bound by a distribution filter, in the order of its conditions.
pub open spec fn spec_distribution_params(f: DistributionFilter) -> Seq<SqlParam> {
    spec_text_param(f.start_time) + spec_text_param(f.end_time) + spec_text_param(f.main_stat_key)
        + spec_int_param(f.cost_class) + spec_text_param(f.status)
}

fn push_text(conds: &mut Vec<&'static str>, params: &mut Vec<SqlParam>, field: &Option<String>, cond: &'static str)
    ensures
        final(conds)@.map_values(|c: &'static str| c@) == old(conds)@.map_values(|c: &'static str| c@)
            + spec_opt_cond(*field, cond@),
        final(params)@ == old(params)@ + spec_text_param(*field),
{
    match field {
        Some(v) => {
            conds.push(cond);
            params.push(SqlParam::Text(v.clone()));
        },
        None => {},
    }
    assert(conds@.map_values(|c: &'static str| c@) =~= old(conds)@.map_values(|c: &'static str| c@)
        + spec_opt_cond(*field, cond@));
    assert(params@ =~= old(params)@ + spec_text_param(*field));
}

fn push_int(conds: &mut Vec<&'static str>, params: &mut Vec<SqlParam>, field: Option<i64>, cond: &'static str)
    ensures
        final(conds)@.map_values(|c: &'static str| c@) == old(conds)@.map_values(|c: &'static str| c@)
            + spec_opt_cond(field, cond@),
        final(params)@ == old(params)@ + spec_int_param(field),
{
    match field {
        Some(v) => {
            conds.push(cond);
            params.push(SqlParam::Integer(v));
        },
        None => {},
    }
    assert(conds@.map_values(|c: &'static str| c@) =~= old(conds)@.map_values(|c: &'static str| c@)
        + spec_opt_cond(field, cond@));
    assert(params@ =~= old(params)@ + spec_int_param(field));
}

/// The `WHERE` clause and bound values of a distribution filter (time range, main stat,
/// cost class, status).
pub fn build_distribution_where(filter: &DistributionFilter) -> (r: (String, Vec<SqlParam>))
    ensures
        r.0@ == spec_where(spec_distribution_conds(*filter)),
        r.1@ == spec_distribution_params(*filter),
{
    let mut conds: Vec<&'static str> = Vec::new();
    let mut params: Vec<SqlParam> = Vec::new();
    push_text(&mut conds, &mut params, &filter.start_time, "oe.event_time >= ?");
    push_text(&mut conds, &mut params, &filter.end_time, "oe.event_time <= ?");
    push_text(&mut conds, &mut params, &filter.main_stat_key, "e.main_stat_key = ?");
    push_int(&mut conds, &mut params, filter.cost_class, "e.cost_class = ?");
    push_text(&mut conds, &mut params, &filter.status, "e.status = ?");
    assert(conds@.map_values(|c: &'static str| c@) =~= spec_distribution_conds(*filter));
    assert(params@ =~= spec_distribution_params(*filter));
    (where_clause(&conds), params)
}

/// The conditions of an echo list filter, in the order they are written.
pub open spec fn spec_echo_conds(f: EchoFilter) -> Seq<Seq<char>> {
    spec_opt_cond(f.status, "e.status = ?"@) + spec_opt_cond(f.main_stat_key, "e.main_stat_key = ?"@)
        + spec_opt_cond(f.cost_class, "e.cost_class = ?"@)
}

/// The values bound by an echo list filter.
pub open spec fn spec_echo_params(f: EchoFilter) -> Seq<SqlParam> {
    spec_text_param(f.status) + spec_text_param(f.main_stat_key) + spec_int_param(f.cost_class)
}

/// The `WHERE` clause and bound values of an echo list filter (status, main stat, cost class).
pub fn echo_filter_where(filter: &EchoFilter) -> (r: (String, Vec<SqlParam>))
    ensures
        r.0@ == spec_where(spec_echo_conds(*filter)),
        r.1@ == spec_echo_params(*filter),
{
    let mut conds: Vec<&'static str> = Vec::new();
    let mut params: Vec<SqlParam> = Vec::new();
    push_text(&mut conds, &mut params, &filter.status, "e.status = ?");
    push_text(&mut conds, &mut params, &filter.main_stat_key, "e.main_stat_key = ?");
    push_int(&mut conds, &mut params, filter.cost_class, "e.cost_class = ?");
    assert(conds@.map_values(|c: &'static str| c@) =~= spec_echo_conds(*filter));
    assert(params@ =~= spec_echo_params(*filter));
    (where_clause(&conds), params)
}

/// The conditions of an analysis filter, in the order they are written.
pub open spec fn spec_hypothesis_conds(f: HypothesisFilter) -> Seq<Seq<char>> {
    spec_opt_cond(f.cost_class, "e.cost_class = ?"@) + spec_opt_cond(f.main_stat_key, "e.main_stat_key = ?"@)
        + spec_opt_cond(f.status, "e.status = ?"@)
}

/// The values bound by an analysis filter.
pub open spec fn spec_hypothesis_params(f: HypothesisFilter) -> Seq<SqlParam> {
    spec_int_param(f.cost_class) + spec_text_param(f.main_stat_key) + spec_text_param(f.status)
}

/// The `WHERE` clause and bound values of an analysis filter (cost class, main stat, status).
pub fn hypothesis_filter_where(filter: &HypothesisFilter) -> (r: (String, Vec<SqlParam>))
    ensures
        r.0@ == spec_where(spec_hypothesis_conds(*filter)),
        r.1@ == spec_hypothesis_params(*filter),
{
    let mut conds: Vec<&'static str> = Vec::new();
    let mut params: Vec<SqlParam> = Vec::new();
    push_int(&mut conds, &mut params, filter.cost_class, "e.cost_class = ?");
    push_text(&mut conds, &mut params, &filter.main_stat_key, "e.main_stat_key = ?");
    push_text(&mut conds, &mut params, &filter.status, "e.status = ?");
    assert(conds@.map_values(|c: &'static str| c@) =~= spec_hypothesis_conds(*filter));
    assert(params@ =~= spec_hypothesis_params(*filter));
    (where_clause(&conds), params)
}

/// The number of event rows a history query returns at most: 200 by default, kept within
/// 1..=5000.
pub fn history_limit(limit: Option<i64>) -> (r: i64)
    ensures
        r == (match limit {
            Some(v) => if v < 1 { 1 } else if v > 5000 { 5000 } else { v },
            None => 200,
        }),
{
    match limit {
        Some(v) => if v < 1 {
            1
        } else if v > 5000 {
            5000
        } else {
            v
        },
        None => 200,
    }
}

} // verus!
