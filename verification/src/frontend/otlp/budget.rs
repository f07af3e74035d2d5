//! How many flows of each rule one request may carry.
//!
//! A request holds no more data points than a limit allows. The points of the rules themselves
//! come first; what is left is shared among the rules in proportion to their flows.

use vstd::prelude::*;

use crate::ipc::types::FlowRuleStats;

verus! {

/// Data points per flow: packets, bytes, last seen.
pub const POINTS_PER_FLOW: u64 = 3;

/// Data points per flow rule: flows, evictions, drops, packets, bytes.
pub const POINTS_PER_FLOW_RULE: u64 = 5;

/// How many flows the first `n` rules hold.
pub open spec fn flows_in(rules: Seq<FlowRuleStats>, n: nat) -> nat
    decreases n,
{
    if n == 0 {
        0
    } else {
        flows_in(rules, (n - 1) as nat) + rules[n - 1].flows@.len()
    }
}

/// Data points that the exporter adds about itself.
pub const SELF_POINTS: usize = 10;

/// Every data point of the rules, and those that the exporter adds about itself, can be counted
/// by the machine.
pub open spec fn countable(rules: Seq<FlowRuleStats>) -> bool {
    3 * flows_in(rules, rules.len()) + 5 * rules.len() + SELF_POINTS <= usize::MAX
}

/// Whether every data point of the rules can be counted by the machine.
pub fn is_countable(rules: &Vec<FlowRuleStats>) -> (r: bool)
    ensures
        r == countable(rules@),
{
    let limit: u128 = usize::MAX as u128;
    let mut total: u128 = 5 * rules.len() as u128 + SELF_POINTS as u128;
    let mut i: usize = 0;
    while i < rules.len()
        invariant
            i <= rules.len(),
            limit == usize::MAX,
            total == 3 * flows_in(rules@, i as nat) + 5 * rules@.len() + SELF_POINTS,
            total <= 10 * 0x1_0000_0000_0000_0000,
        decreases rules.len() - i,
    {
        total = total + 3 * rules[i].flows.len() as u128;
        i = i + 1;
        if total > limit {
            proof {
                flows_in_monotone(rules@, i as nat, rules@.len());
            }
            return false;
        }
    }
    total <= limit
}

/// How many flows a request may carry: what the limit leaves once the points of the rules are
/// taken off.
pub open spec fn flow_cap(limit: u64, rules: nat) -> nat {
    if 5 * rules >= limit {
        0
    } else {
        ((limit - 5 * rules) / 3) as nat
    }
}

/// Whether there are more flows than a request may carry.
pub open spec fn over_cap(rules: Seq<FlowRuleStats>, limit: u64) -> bool {
    flows_in(rules, rules.len()) > flow_cap(limit, rules.len())
}

/// The part of `cap` that falls to `len` flows out of `total`, rounded down.
pub open spec fn share(cap: nat, len: nat, total: nat) -> nat {
    (cap * len / total) as nat
}

/// The shares of the first `n` rules together.
pub open spec fn shares(rules: Seq<FlowRuleStats>, cap: nat, total: nat, n: nat) -> nat
    decreases n,
{
    if n == 0 {
        0
    } else {
        shares(rules, cap, total, (n - 1) as nat) + share(cap, rules[n - 1].flows@.len(), total)
    }
}

/// How many flows rule `i` may send: all of them where there is room for all rules; otherwise its
/// share, and one of those that rounding left over, which go to the first rules.
pub open spec fn budget(rules: Seq<FlowRuleStats>, limit: u64, i: int) -> nat {
    let total = flows_in(rules, rules.len());
    let cap = flow_cap(limit, rules.len());
    if over_cap(rules, limit) {
        let left = cap - shares(rules, cap, total, rules.len());
        share(cap, rules[i].flows@.len(), total) + if i < left {
            1nat
        } else {
            0nat
        }
    } else {
        rules[i].flows@.len()
    }
}

/// How many flows rule `i` sends.
pub open spec fn emitted(rules: Seq<FlowRuleStats>, limit: u64, i: int) -> nat {
    if budget(rules, limit, i) <= rules[i].flows@.len() {
        budget(rules, limit, i)
    } else {
        rules[i].flows@.len()
    }
}

/// How many flows the first `n` rules send.
pub open spec fn emitted_in(rules: Seq<FlowRuleStats>, limit: u64, n: nat) -> nat
    decreases n,
{
    if n == 0 {
        0
    } else {
        emitted_in(rules, limit, (n - 1) as nat) + emitted(rules, limit, n - 1)
    }
}

proof fn share_bounds(cap: nat, len: nat, total: nat)
    requires
        total > 0,
    ensures
        share(cap, len, total) * total <= cap * len,
        cap <= total ==> share(cap, len, total) <= len,
        len <= total ==> share(cap, len, total) <= cap,
{
    let p = (cap * len) as int;
    assert(p >= 0) by (nonlinear_arith)
        requires
            p == cap * len,
    ;
    assert(p / (total as int) * (total as int) <= p) by (nonlinear_arith)
        requires
            total > 0,
            p >= 0,
    ;
    assert(p / (total as int) >= 0) by (nonlinear_arith)
        requires
            total > 0,
            p >= 0,
    ;
    if cap <= total {
        assert(p / (total as int) <= len) by (nonlinear_arith)
            requires
                total > 0,
                p == cap * len,
                cap <= total,
        ;
    }
    if len <= total {
        assert(p / (total as int) <= cap) by (nonlinear_arith)
            requires
                total > 0,
                p == cap * len,
                len <= total,
        ;
    }
}

proof fn flows_in_monotone(rules: Seq<FlowRuleStats>, n: nat, m: nat)
    requires
        n <= m <= rules.len(),
    ensures
        flows_in(rules, n) <= flows_in(rules, m),
    decreases m,
{
    if n < m {
        flows_in_monotone(rules, n, (m - 1) as nat);
    }
}

proof fn shares_within(rules: Seq<FlowRuleStats>, cap: nat, total: nat, n: nat)
    requires
        n <= rules.len(),
        total > 0,
    ensures
        shares(rules, cap, total, n) * total <= cap * flows_in(rules, n),
    decreases n,
{
    if n > 0 {
        shares_within(rules, cap, total, (n - 1) as nat);
        let before = shares(rules, cap, total, (n - 1) as nat) as int;
        let flows = flows_in(rules, (n - 1) as nat) as int;
        let len = rules[n - 1].flows@.len();
        let own = share(cap, len, total) as int;
        share_bounds(cap, len, total);
        assert((before + own) * total <= cap * (flows + len)) by (nonlinear_arith)
            requires
                before * total <= cap * flows,
                own * total <= cap * len,
        ;
    } else {
        assert(0 * total == 0 && cap * 0 == 0) by (nonlinear_arith);
    }
}

/// The shares of the rules together are no more than what they share.
pub proof fn shares_fit(rules: Seq<FlowRuleStats>, cap: nat, n: nat)
    requires
        n <= rules.len(),
        flows_in(rules, rules.len()) > 0,
    ensures
        shares(rules, cap, flows_in(rules, rules.len()), n) <= cap,
{
    let total = flows_in(rules, rules.len());
    shares_within(rules, cap, total, n);
    flows_in_monotone(rules, n, rules.len());
    let s = shares(rules, cap, total, n) as int;
    let f = flows_in(rules, n) as int;
    assert(s <= cap) by (nonlinear_arith)
        requires
            s * total <= cap * f,
            f <= total,
            total > 0,
            s >= 0,
            cap >= 0,
    ;
}

proof fn emitted_upto(rules: Seq<FlowRuleStats>, limit: u64, n: nat)
    requires
        n <= rules.len(),
        over_cap(rules, limit),
    ensures
        ({
            let cap = flow_cap(limit, rules.len());
            let total = flows_in(rules, rules.len());
            let left = cap - shares(rules, cap, total, rules.len());
            emitted_in(rules, limit, n) <= shares(rules, cap, total, n) + (if n <= left {
                n as int
            } else {
                left
            })
        }),
    decreases n,
{
    let cap = flow_cap(limit, rules.len());
    shares_fit(rules, cap, rules.len());
    if n > 0 {
        emitted_upto(rules, limit, (n - 1) as nat);
    }
}

/// No request carries more flows than the cap, nor more than there are.
pub proof fn emitted_within_cap(rules: Seq<FlowRuleStats>, limit: u64)
    ensures
        emitted_in(rules, limit, rules.len()) <= flow_cap(limit, rules.len()),
        emitted_in(rules, limit, rules.len()) <= flows_in(rules, rules.len()),
{
    emitted_within_flows(rules, limit, rules.len());
    if over_cap(rules, limit) {
        emitted_upto(rules, limit, rules.len());
    }
}

/// The data points of flows and rules stay within the limit, as long as the points of the rules
/// alone do.
pub proof fn points_within_limit(rules: Seq<FlowRuleStats>, limit: u64)
    requires
        5 * rules.len() <= limit,
    ensures
        3 * emitted_in(rules, limit, rules.len()) + 5 * rules.len() <= limit,
{
    emitted_within_cap(rules, limit);
}

/// Where there is room for all flows, all flows are sent.
pub proof fn nothing_dropped_under_cap(rules: Seq<FlowRuleStats>, limit: u64, n: nat)
    requires
        n <= rules.len(),
        !over_cap(rules, limit),
    ensures
        emitted_in(rules, limit, n) == flows_in(rules, n),
    decreases n,
{
    if n > 0 {
        nothing_dropped_under_cap(rules, limit, (n - 1) as nat);
    }
}

/// No rule sends more flows than it has.
pub proof fn emitted_within_flows(rules: Seq<FlowRuleStats>, limit: u64, n: nat)
    requires
        n <= rules.len(),
    ensures
        emitted_in(rules, limit, n) <= flows_in(rules, n),
    decreases n,
{
    if n > 0 {
        emitted_within_flows(rules, limit, (n - 1) as nat);
    }
}

fn count_flows(rules: &Vec<FlowRuleStats>) -> (r: u64)
    requires
        countable(rules@),
    ensures
        r == flows_in(rules@, rules@.len()),
{
    let mut total: u64 = 0;
    let mut i: usize = 0;
    while i < rules.len()
        invariant
            i <= rules.len(),
            countable(rules@),
            total == flows_in(rules@, i as nat),
        decreases rules.len() - i,
    {
        proof {
            flows_in_monotone(rules@, i as nat + 1, rules@.len());
        }
        total = total + rules[i].flows.len() as u64;
        i = i + 1;
    }
    total
}

fn exec_share(cap: u64, len: u64, total: u64) -> (r: u64)
    requires
        total > 0,
        len <= total,
    ensures
        r == share(cap as nat, len as nat, total as nat),
        r <= cap,
{
    proof {
        share_bounds(cap as nat, len as nat, total as nat);
    }
    assert(cap as u128 * len as u128 <= 0xffff_ffff_ffff_ffff * 0xffff_ffff_ffff_ffff)
        by (nonlinear_arith)
        requires
            cap <= 0xffff_ffff_ffff_ffff,
            len <= 0xffff_ffff_ffff_ffff,
    ;
    let q: u128 = cap as u128 * len as u128 / total as u128;
    q as u64
}

/// How many flows each rule may send.
pub fn flow_budgets(rules: &Vec<FlowRuleStats>, limit: u64) -> (r: Vec<u64>)
    requires
        countable(rules@),
    ensures
        r.len() == rules.len(),
        forall|i: int| 0 <= i < r.len() ==> #[trigger] r@[i] == budget(rules@, limit, i),
{
    let total: u64 = count_flows(rules);
    let reserved: u64 = rules.len() as u64 * POINTS_PER_FLOW_RULE;
    let cap: u64 = limit.saturating_sub(reserved) / POINTS_PER_FLOW;
    assert(cap == flow_cap(limit, rules@.len()));
    let mut r: Vec<u64> = Vec::new();
    let mut i: usize = 0;
    if total <= cap {
        while i < rules.len()
            invariant
                i <= rules.len(),
                r.len() == i,
                !over_cap(rules@, limit),
                forall|k: int| 0 <= k < i ==> #[trigger] r@[k] == budget(rules@, limit, k),
            decreases rules.len() - i,
        {
            r.push(rules[i].flows.len() as u64);
            i = i + 1;
        }
        return r;
    }
    let mut allocated: u64 = 0;
    while i < rules.len()
        invariant
            i <= rules.len(),
            r.len() == i,
            total > 0,
            total == flows_in(rules@, rules@.len()),
            allocated == shares(rules@, cap as nat, total as nat, i as nat),
            allocated <= cap,
            forall|k: int|
                0 <= k < i ==> #[trigger] r@[k] == share(
                    cap as nat,
                    rules@[k].flows@.len(),
                    total as nat,
                ) && r@[k] <= cap,
        decreases rules.len() - i,
    {
        proof {
            flows_in_monotone(rules@, i as nat + 1, rules@.len());
            shares_fit(rules@, cap as nat, i as nat + 1);
        }
        let own: u64 = exec_share(cap, rules[i].flows.len() as u64, total);
        allocated = allocated + own;
        r.push(own);
        i = i + 1;
    }
    let left: u64 = cap - allocated;
    let mut j: usize = 0;
    while j < r.len()
        invariant
            j <= r.len(),
            r.len() == rules.len(),
            over_cap(rules@, limit),
            cap == flow_cap(limit, rules@.len()),
            total == flows_in(rules@, rules@.len()),
            left == cap - shares(rules@, cap as nat, total as nat, rules@.len()),
            cap <= u64::MAX / 3,
            forall|k: int| 0 <= k < j ==> #[trigger] r@[k] == budget(rules@, limit, k),
            forall|k: int|
                j <= k < r.len() ==> #[trigger] r@[k] == share(
                    cap as nat,
                    rules@[k].flows@.len(),
                    total as nat,
                ) && r@[k] <= cap,
        decreases r.len() - j,
    {
        if (j as u64) < left {
            let own: u64 = r[j];
            r.set(j, own + 1);
        }
        j = j + 1;
    }
    r
}

/// Where there are too many flows, the cap is shared out fairly: each rule may send its part of it
/// in proportion to its flows, give or take less than one flow, and no rule gets the flow that
/// rounding left over unless all rules before it do.
pub proof fn budgets_are_fair(rules: Seq<FlowRuleStats>, limit: u64, i: int, j: int)
    requires
        over_cap(rules, limit),
        0 <= i <= j < rules.len(),
    ensures
        ({
            let total = flows_in(rules, rules.len()) as int;
            let cap = flow_cap(limit, rules.len()) as int;
            let len = |k: int| rules[k].flows@.len() as int;
            &&& budget(rules, limit, i) * total <= cap * len(i) + total
            &&& cap * len(i) < budget(rules, limit, i) * total + total
            &&& budget(rules, limit, j) * total > cap * len(j) ==> budget(rules, limit, i) * total
                > cap * len(i)
        }),
{
    let total = flows_in(rules, rules.len());
    let cap = flow_cap(limit, rules.len());
    let a = rules[i].flows@.len();
    let b = rules[j].flows@.len();
    share_bounds(cap, a, total);
    share_bounds(cap, b, total);
    share_tight(cap, a, total);
    share_tight(cap, b, total);
    let x = share(cap, a, total) as int;
    let y = share(cap, b, total) as int;
    let t = total as int;
    assert((x + 1) * t == x * t + t) by (nonlinear_arith);
    assert((y + 1) * t == y * t + t) by (nonlinear_arith);
}

proof fn share_tight(cap: nat, len: nat, total: nat)
    requires
        total > 0,
    ensures
        cap * len < share(cap, len, total) * total + total,
{
    let p = (cap * len) as int;
    let t = total as int;
    assert(p >= 0) by (nonlinear_arith)
        requires
            p == cap * len,
    ;
    assert(p < (p / t) * t + t) by (nonlinear_arith)
        requires
            t > 0,
            p >= 0,
    ;
    assert(p / t >= 0) by (nonlinear_arith)
        requires
            t > 0,
            p >= 0,
    ;
}

/// The cap is what the limit leaves for the flows once each rule has its five data points, at three
/// for each flow, rounded down.
pub proof fn cap_fills_the_limit(limit: u64, rules: nat)
    ensures
        3 * flow_cap(limit, rules) + 5 * rules <= limit || flow_cap(limit, rules) == 0,
        5 * rules <= limit ==> limit < 3 * (flow_cap(limit, rules) + 1) + 5 * rules,
{
}

proof fn shares_whole(rules: Seq<FlowRuleStats>, cap: nat, total: nat, n: nat)
    requires
        n <= rules.len(),
        total > 0,
    ensures
        cap * flows_in(rules, n) <= shares(rules, cap, total, n) * total + n * (total - 1),
    decreases n,
{
    if n > 0 {
        shares_whole(rules, cap, total, (n - 1) as nat);
        let before = shares(rules, cap, total, (n - 1) as nat) as int;
        let flows = flows_in(rules, (n - 1) as nat) as int;
        let len = rules[n - 1].flows@.len();
        let own = share(cap, len, total) as int;
        share_tight(cap, len, total);
        let m = n as int;
        let t = total as int;
        assert(cap * (flows + len) <= (before + own) * t + m * (t - 1)) by (nonlinear_arith)
            requires
                cap * flows <= before * t + (m - 1) * (t - 1),
                cap * len <= own * t + t - 1,
        ;
    } else {
        assert(cap * 0 == 0 && 0 * total == 0 && 0 * (total - 1) == 0) by (nonlinear_arith);
    }
}

proof fn emitted_all(rules: Seq<FlowRuleStats>, limit: u64, n: nat)
    requires
        n <= rules.len(),
        over_cap(rules, limit),
        forall|i: int| 0 <= i < rules.len() ==> (#[trigger] rules[i]).flows@.len() > 0,
    ensures
        ({
            let cap = flow_cap(limit, rules.len());
            let total = flows_in(rules, rules.len());
            let left = cap - shares(rules, cap, total, rules.len());
            emitted_in(rules, limit, n) == shares(rules, cap, total, n) + (if n <= left {
                n as int
            } else {
                left
            })
        }),
    decreases n,
{
    let cap = flow_cap(limit, rules.len());
    let total = flows_in(rules, rules.len());
    shares_fit(rules, cap, rules.len());
    if n > 0 {
        emitted_all(rules, limit, (n - 1) as nat);
        let len = rules[n - 1].flows@.len();
        let own = share(cap, len, total) as int;
        share_bounds(cap, len, total);
        let t = total as int;
        assert(own < len) by (nonlinear_arith)
            requires
                own * t <= cap * len,
                cap < t,
                len > 0,
                t > 0,
                own >= 0,
        ;
    }
}

/// Where there are too many flows and no rule is without any, as many are sent as the cap allows.
pub proof fn cap_is_used_up(rules: Seq<FlowRuleStats>, limit: u64)
    requires
        over_cap(rules, limit),
        forall|i: int| 0 <= i < rules.len() ==> (#[trigger] rules[i]).flows@.len() > 0,
    ensures
        emitted_in(rules, limit, rules.len()) == flow_cap(limit, rules.len()),
{
    let cap = flow_cap(limit, rules.len());
    let total = flows_in(rules, rules.len());
    emitted_all(rules, limit, rules.len());
    shares_whole(rules, cap, total, rules.len());
    shares_fit(rules, cap, rules.len());
    let s = shares(rules, cap, total, rules.len()) as int;
    let n = rules.len() as int;
    let t = total as int;
    assert(cap - s <= n) by (nonlinear_arith)
        requires
            cap * t <= s * t + n * (t - 1),
            t > 0,
            n >= 0,
    ;
}

} // verus!
