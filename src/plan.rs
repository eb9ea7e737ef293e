//! Planning of page requests: which slices of the upstream result set to ask for.
use vstd::prelude::*;
use crate::config::{Condition, Configuration};

verus! {

/// The most items the upstream service returns for one request.
pub const MAX_RESULT: u32 = 50;

/// One page request: a slice of the result set, by offset and size.
#[derive(Clone, Copy, Debug, PartialEq, Eq, Structural)]
pub struct CallDefinition {
    pub condition: Condition,
    pub start_index: u32,
    pub max_result: u32,
}

/// How many items a search fetches: the probed total, lowered to the
/// limit when there is one.
pub open spec fn max_to_fetch(limit: Option<u32>, total_count: u32) -> u32 {
    match limit {
        Some(l) => if total_count > l { l } else { total_count },
        None => total_count,
    }
}

/// The size of every planned page for `max` items.
pub open spec fn page_step(max: u32) -> u32 {
    if max > MAX_RESULT { MAX_RESULT } else { max }
}

/// How many pages of `page_step(max)` items cover `max` items.
pub open spec fn page_count(max: u32) -> nat {
    if max == 0 {
        0
    } else {
        ((max + page_step(max) - 1) / page_step(max as u32) as int) as nat
    }
}

/// The pages planned for a search: page `i` starts at `i * step`, and every
/// page asks for `step` items.
pub open spec fn planned_calls(condition: Condition, limit: Option<u32>, total_count: u32) -> Seq<CallDefinition> {
    let max = max_to_fetch(limit, total_count);
    let step = page_step(max);
    Seq::new(
        page_count(max),
        |i: int| CallDefinition { condition, start_index: (i * step) as u32, max_result: step },
    )
}

/// Plans the page requests that fetch `min(total_count, limit)` items.
pub fn determine_calls_needed(configuration: &Configuration, total_count: u32) -> (calls: Vec<
    CallDefinition,
>)
    ensures
        calls@ == planned_calls(configuration.condition, configuration.limit, total_count),
{
    let max: u32 = match configuration.limit {
        Some(l) => if total_count > l { l } else { total_count },
        None => total_count,
    };
    let mut calls: Vec<CallDefinition> = Vec::new();
    if max < 1 {
        proof {
            assert(calls@ =~= planned_calls(configuration.condition, configuration.limit, total_count));
        }
        return calls;
    }
    let step: u32 = if max > MAX_RESULT { MAX_RESULT } else { max };
    let ghost count = page_count(max);
    let mut start: u64 = 0;
    proof {
        vstd::arithmetic::mul::lemma_mul_basics(step as int);
    }
    while start < max as u64
        invariant
            1 <= step <= MAX_RESULT,
            step == page_step(max),
            max == max_to_fetch(configuration.limit, total_count),
            count == page_count(max),
            start == calls@.len() * step,
            start < max + step,
            calls@.len() <= count,
            forall|i: int|
                0 <= i < calls@.len() ==> #[trigger] calls@[i] == (CallDefinition {
                    condition: configuration.condition,
                    start_index: (i * step) as u32,
                    max_result: step,
                }),
        decreases max + step - start,
    {
        proof {
            lemma_index_below_count(max, calls@.len() as int);
        }
        calls.push(CallDefinition { condition: configuration.condition, start_index: start as u32, max_result: step });
        start = start + step as u64;
        proof {
            vstd::arithmetic::mul::lemma_mul_is_distributive_add_other_way(
                step as int,
                calls@.len() - 1,
                1,
            );
        }
    }
    proof {
        lemma_count_reached(max, calls@.len() as int);
        assert(calls@ =~= planned_calls(configuration.condition, configuration.limit, total_count));
    }
    calls
}

proof fn lemma_index_below_count(max: u32, i: int)
    requires
        max >= 1,
        0 <= i,
        i * page_step(max) < max,
    ensures
        i < page_count(max),
{
    let s = page_step(max) as int;
    assert(0 < s);
    vstd::arithmetic::div_mod::lemma_fundamental_div_mod(max + s - 1, s);
    let q = (max + s - 1) / s;
    let r = (max + s - 1) % s;
    assert(0 <= r < s) by {
        vstd::arithmetic::div_mod::lemma_mod_bound(max + s - 1, s);
    }
    if i >= q {
        vstd::arithmetic::mul::lemma_mul_inequality(q, i, s);
        assert(q * s == s * q) by {
            vstd::arithmetic::mul::lemma_mul_is_commutative(q, s);
        }
        assert(i * s == s * i) by {
            vstd::arithmetic::mul::lemma_mul_is_commutative(i, s);
        }
    }
}

proof fn lemma_count_reached(max: u32, i: int)
    requires
        max >= 1,
        0 <= i <= page_count(max),
        i * page_step(max) >= max,
    ensures
        i == page_count(max),
{
    let s = page_step(max) as int;
    vstd::arithmetic::div_mod::lemma_fundamental_div_mod(max + s - 1, s);
    let q = (max + s - 1) / s;
    vstd::arithmetic::div_mod::lemma_mod_bound(max + s - 1, s);
    if i < q {
        // (i + 1) * s <= q * s <= max + s - 1, so i * s <= max - 1.
        vstd::arithmetic::mul::lemma_mul_inequality(i + 1, q, s);
        vstd::arithmetic::mul::lemma_mul_is_distributive_add_other_way(s, i, 1);
        assert(q * s == s * q) by {
            vstd::arithmetic::mul::lemma_mul_is_commutative(q, s);
        }
    }
}

/// Index `x` of the result set lies in one of the pages `calls`.
pub open spec fn in_some_page(calls: Seq<CallDefinition>, x: int) -> bool {
    exists|i: int|
        0 <= i < calls.len() && #[trigger] calls[i].start_index <= x < calls[i].start_index
            + calls[i].max_result
}

/// The number of items fetched is the limit when the limit is below the
/// probed total, and the probed total otherwise (also when there is no limit).
pub proof fn lemma_max_to_fetch(limit: Option<u32>, total_count: u32)
    ensures
        limit.is_some() && limit->Some_0 < total_count ==> max_to_fetch(limit, total_count)
            == limit->Some_0,
        limit.is_some() && limit->Some_0 >= total_count ==> max_to_fetch(limit, total_count)
            == total_count,
        limit.is_none() ==> max_to_fetch(limit, total_count) == total_count,
{
}

/// When nothing is to be fetched, no page is planned.
pub proof fn lemma_nothing_to_fetch(condition: Condition, limit: Option<u32>, total_count: u32)
    requires
        max_to_fetch(limit, total_count) == 0,
    ensures
        planned_calls(condition, limit, total_count).len() == 0,
{
}

/// The planned pages tile `[0, max_to_fetch)`: every page asks for at most
/// `MAX_RESULT` items and starts inside the range, no two pages overlap,
/// and every index of the range lies in some page. Without a limit the
/// range is `[0, total_count)`.
pub proof fn lemma_plan_covers(condition: Condition, limit: Option<u32>, total_count: u32)
    ensures
        ({
            let calls = planned_calls(condition, limit, total_count);
            let max = max_to_fetch(limit, total_count);
            &&& limit.is_none() ==> max == total_count
            &&& forall|i: int|
                0 <= i < calls.len() ==> #[trigger] calls[i].max_result <= MAX_RESULT
                    && calls[i].start_index < max
            &&& forall|i: int, j: int|
                0 <= i < j < calls.len() ==> #[trigger] calls[i].start_index + calls[i].max_result
                    <= #[trigger] calls[j].start_index
            &&& forall|x: int| 0 <= x < max ==> #[trigger] in_some_page(calls, x)
        }),
{
    let calls = planned_calls(condition, limit, total_count);
    let max = max_to_fetch(limit, total_count);
    let s = page_step(max) as int;
    if max >= 1 {
        assert forall|i: int| 0 <= i < calls.len() implies #[trigger] calls[i].max_result
            <= MAX_RESULT && calls[i].start_index < max by {
            lemma_start_below_max(max, i);
        }
        assert forall|i: int, j: int|
            0 <= i < j < calls.len() implies #[trigger] calls[i].start_index
            + calls[i].max_result <= #[trigger] calls[j].start_index by {
            lemma_start_below_max(max, i);
            lemma_start_below_max(max, j);
            vstd::arithmetic::mul::lemma_mul_inequality(i + 1, j, s);
            vstd::arithmetic::mul::lemma_mul_is_distributive_add_other_way(s, i, 1);
        }
        assert forall|x: int| 0 <= x < max implies #[trigger] in_some_page(calls, x) by {
            let i = x / s;
            vstd::arithmetic::div_mod::lemma_fundamental_div_mod(x, s);
            vstd::arithmetic::div_mod::lemma_mod_bound(x, s);
            vstd::arithmetic::div_mod::lemma_div_pos_is_pos(x, s);
            assert(i * s == s * i) by {
                vstd::arithmetic::mul::lemma_mul_is_commutative(i, s);
            }
            lemma_index_below_count(max, i);
            lemma_start_below_max(max, i);
            assert(calls[i].start_index <= x < calls[i].start_index + calls[i].max_result);
        }
    }
}

proof fn lemma_start_below_max(max: u32, i: int)
    requires
        max >= 1,
        0 <= i < page_count(max),
    ensures
        0 <= i * page_step(max) < max,
{
    let s = page_step(max) as int;
    vstd::arithmetic::div_mod::lemma_fundamental_div_mod(max + s - 1, s);
    vstd::arithmetic::div_mod::lemma_mod_bound(max + s - 1, s);
    let q = (max + s - 1) / s;
    vstd::arithmetic::mul::lemma_mul_inequality(i + 1, q, s);
    vstd::arithmetic::mul::lemma_mul_is_distributive_add_other_way(s, i, 1);
    vstd::arithmetic::mul::lemma_mul_nonnegative(i, s);
    assert(q * s == s * q) by {
        vstd::arithmetic::mul::lemma_mul_is_commutative(q, s);
    }
}

} // verus!
