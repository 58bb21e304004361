use vstd::prelude::*;

use crate::adapter::{Capabilities, Operation};

verus! {

/// A merchant's configuration of one connector.
#[derive(Debug, Clone)]
pub struct ConnectorAccount {
    pub connector_id: u64,
    pub enabled: bool,
    pub currencies: Vec<u16>,
    pub payment_methods: Vec<u8>,
    pub capabilities: Capabilities,
    /// Lower is preferred under the priority rule.
    pub priority: u32,
    /// Share of traffic under the volume-split rule.
    pub weight: u32,
}

/// What routing needs to know of a payment.
#[derive(Debug, Clone, Copy, PartialEq, Eq, Structural)]
pub struct PaymentContext {
    pub amount: u64,
    pub currency: u16,
    pub payment_method: u8,
    pub operation: Operation,
}

/// One predicate of a rule-based policy, with the accounts (positions in the
/// configured account list) it routes to, in order.
#[derive(Debug, Clone)]
pub struct Predicate {
    pub min_amount: u64,
    pub max_amount: u64,
    pub currency: Option<u16>,
    pub payment_method: Option<u8>,
    pub accounts: Vec<usize>,
}

/// The routing policy of a merchant.
#[derive(Debug, Clone)]
pub enum RoutingRule {
    /// Eligible accounts by ascending priority, ties by configuration order.
    Priority,
    /// One account drawn with probability proportional to its weight, then the
    /// others in configuration order.
    VolumeSplit,
    /// The accounts of the first matching predicate, in its order.
    RuleBased(Vec<Predicate>),
}

#[derive(Debug, Clone, Copy, PartialEq, Eq, Structural)]
pub enum RoutingError {
    NoEligibleConnector,
    MalformedRule,
}

pub open spec fn eligible(a: ConnectorAccount, ctx: PaymentContext) -> bool {
    &&& a.enabled
    &&& a.currencies@.contains(ctx.currency)
    &&& a.payment_methods@.contains(ctx.payment_method)
    &&& a.capabilities.allows(ctx.operation)
}

/// Positions of the eligible accounts among the first `n`, in configuration order.
pub open spec fn eligible_prefix(accts: Seq<ConnectorAccount>, ctx: PaymentContext, n: int) -> Seq<
    usize,
>
    decreases n,
{
    if n <= 0 {
        Seq::empty()
    } else if eligible(accts[n - 1], ctx) {
        eligible_prefix(accts, ctx, n - 1).push((n - 1) as usize)
    } else {
        eligible_prefix(accts, ctx, n - 1)
    }
}

/// Inserts `x` after every element whose priority is not above its own.
pub open spec fn insert_by_priority(accts: Seq<ConnectorAccount>, s: Seq<usize>, x: usize) -> Seq<
    usize,
>
    decreases s.len(),
{
    if s.len() == 0 {
        seq![x]
    } else if accts[s[0] as int].priority > accts[x as int].priority {
        seq![x] + s
    } else {
        seq![s[0]] + insert_by_priority(accts, s.drop_first(), x)
    }
}

/// Eligible positions among the first `n`, by priority, ties by position.
pub open spec fn priority_order(accts: Seq<ConnectorAccount>, ctx: PaymentContext, n: int) -> Seq<
    usize,
>
    decreases n,
{
    if n <= 0 {
        Seq::empty()
    } else if eligible(accts[n - 1], ctx) {
        insert_by_priority(accts, priority_order(accts, ctx, n - 1), (n - 1) as usize)
    } else {
        priority_order(accts, ctx, n - 1)
    }
}

pub open spec fn weight_total(accts: Seq<ConnectorAccount>, s: Seq<usize>) -> int
    decreases s.len(),
{
    if s.len() == 0 {
        0
    } else {
        weight_total(accts, s.drop_last()) + accts[s.last() as int].weight
    }
}

/// The pseudo-random value drawn for a seed.
pub open spec fn draw_of(seed: u64) -> int {
    (seed.wrapping_mul(6364136223846793005u64).wrapping_add(1442695040888963407u64) / 0x1_0000_0000) as int
}

/// Walks the cumulative weights from position `k` (with `acc` the weight
/// before it) to the first position whose cumulative weight exceeds `draw`.
pub open spec fn pick_from(accts: Seq<ConnectorAccount>, s: Seq<usize>, draw: int, k: int, acc: int) -> int
    decreases s.len() - k,
{
    if k + 1 >= s.len() {
        k
    } else if acc + accts[s[k] as int].weight > draw {
        k
    } else {
        pick_from(accts, s, draw, k + 1, acc + accts[s[k] as int].weight)
    }
}

#[verifier::opaque]
pub open spec fn volume_split_order(accts: Seq<ConnectorAccount>, ctx: PaymentContext, seed: u64) -> Seq<
    usize,
> {
    let e = eligible_prefix(accts, ctx, accts.len() as int);
    let total = weight_total(accts, e);
    if total == 0 {
        e
    } else {
        let k = pick_from(accts, e, draw_of(seed) % total, 0, 0);
        seq![e[k]] + e.remove(k)
    }
}

pub open spec fn predicate_matches(p: Predicate, ctx: PaymentContext) -> bool {
    &&& p.min_amount <= ctx.amount <= p.max_amount
    &&& (p.currency matches Some(c) ==> c == ctx.currency)
    &&& (p.payment_method matches Some(m) ==> m == ctx.payment_method)
}

/// Position of the first predicate from `k` on that matches, or the length.
pub open spec fn first_match(ps: Seq<Predicate>, ctx: PaymentContext, k: int) -> int
    decreases ps.len() - k,
{
    if k >= ps.len() {
        ps.len() as int
    } else if predicate_matches(ps[k], ctx) {
        k
    } else {
        first_match(ps, ctx, k + 1)
    }
}

/// The eligible entries among the first `n` of `list`, each kept once, in order.
pub open spec fn listed_order(accts: Seq<ConnectorAccount>, ctx: PaymentContext, list: Seq<usize>, n: int) -> Seq<usize>
    decreases n,
{
    if n <= 0 {
        Seq::empty()
    } else {
        let prev = listed_order(accts, ctx, list, n - 1);
        let x = list[n - 1];
        if x < accts.len() && eligible(accts[x as int], ctx) && !prev.contains(x) {
            prev.push(x)
        } else {
            prev
        }
    }
}

pub open spec fn rule_based_order(accts: Seq<ConnectorAccount>, ctx: PaymentContext, ps: Seq<Predicate>) -> Seq<usize> {
    let k = first_match(ps, ctx, 0);
    if k >= ps.len() {
        Seq::empty()
    } else {
        listed_order(accts, ctx, ps[k].accounts@, ps[k].accounts@.len() as int)
    }
}

pub open spec fn predicate_well_formed(p: Predicate, n: int) -> bool {
    &&& p.min_amount <= p.max_amount
    &&& forall|j: int| 0 <= j < p.accounts@.len() ==> p.accounts@[j] < n
}

pub open spec fn rule_well_formed(rule: RoutingRule, n: int) -> bool {
    match rule {
        RoutingRule::RuleBased(ps) => forall|i: int| 0 <= i < ps@.len() ==> predicate_well_formed(ps@[i], n),
        _ => true,
    }
}

pub open spec fn candidate_order(accts: Seq<ConnectorAccount>, ctx: PaymentContext, rule: RoutingRule, seed: u64) -> Seq<usize> {
    match rule {
        RoutingRule::Priority => priority_order(accts, ctx, accts.len() as int),
        RoutingRule::VolumeSplit => volume_split_order(accts, ctx, seed),
        RoutingRule::RuleBased(ps) => rule_based_order(accts, ctx, ps@),
    }
}

/// The outcome of routing, a function of its inputs alone.
pub open spec fn routing_outcome(accts: Seq<ConnectorAccount>, ctx: PaymentContext, rule: RoutingRule, seed: u64) -> Result<Seq<usize>, RoutingError> {
    if !rule_well_formed(rule, accts.len() as int) {
        Err(RoutingError::MalformedRule)
    } else if candidate_order(accts, ctx, rule, seed).len() == 0 {
        Err(RoutingError::NoEligibleConnector)
    } else {
        Ok(candidate_order(accts, ctx, rule, seed))
    }
}

/// Every entry is the position of an eligible account.
pub open spec fn all_eligible(accts: Seq<ConnectorAccount>, ctx: PaymentContext, s: Seq<usize>) -> bool {
    forall|i: int| 0 <= i < s.len() ==> #[trigger] s[i] < accts.len() && eligible(accts[s[i] as int], ctx)
}

proof fn lemma_eligible_prefix_eligible(accts: Seq<ConnectorAccount>, ctx: PaymentContext, n: int)
    requires
        n <= accts.len(),
        accts.len() <= usize::MAX,
    ensures
        all_eligible(accts, ctx, eligible_prefix(accts, ctx, n)),
    decreases n,
{
    if n > 0 {
        lemma_eligible_prefix_eligible(accts, ctx, n - 1);
        let prev = eligible_prefix(accts, ctx, n - 1);
        if eligible(accts[n - 1], ctx) {
            let cur = prev.push((n - 1) as usize);
            assert(eligible_prefix(accts, ctx, n) == cur);
            assert forall|i: int| 0 <= i < cur.len() implies #[trigger] cur[i] < accts.len()
                && eligible(accts[cur[i] as int], ctx) by {
                if i < prev.len() {
                    assert(cur[i] == prev[i]);
                }
            }
        }
    }
}

proof fn lemma_insert_by_priority_eligible(accts: Seq<ConnectorAccount>, ctx: PaymentContext, s: Seq<usize>, x: usize)
    requires
        all_eligible(accts, ctx, s),
        x < accts.len(),
        eligible(accts[x as int], ctx),
    ensures
        all_eligible(accts, ctx, insert_by_priority(accts, s, x)),
    decreases s.len(),
{
    if s.len() == 0 {
        assert(seq![x][0] == x);
    } else if accts[s[0] as int].priority > accts[x as int].priority {
        let o = seq![x] + s;
        assert forall|i: int| 0 <= i < o.len() implies #[trigger] o[i] < accts.len() && eligible(
            accts[o[i] as int],
            ctx,
        ) by {
            if i > 0 {
                assert(o[i] == s[i - 1]);
            }
        }
    } else {
        let d = s.drop_first();
        assert forall|i: int| 0 <= i < d.len() implies #[trigger] d[i] < accts.len() && eligible(
            accts[d[i] as int],
            ctx,
        ) by {
            assert(d[i] == s[i + 1]);
        }
        lemma_insert_by_priority_eligible(accts, ctx, d, x);
        let t = insert_by_priority(accts, d, x);
        let o = seq![s[0]] + t;
        assert(s[0] < accts.len() && eligible(accts[s[0] as int], ctx));
        assert forall|i: int| 0 <= i < o.len() implies #[trigger] o[i] < accts.len() && eligible(
            accts[o[i] as int],
            ctx,
        ) by {
            if i > 0 {
                assert(o[i] == t[i - 1]);
            }
        }
    }
}

proof fn lemma_priority_order_eligible(accts: Seq<ConnectorAccount>, ctx: PaymentContext, n: int)
    requires
        n <= accts.len(),
        accts.len() <= usize::MAX,
    ensures
        all_eligible(accts, ctx, priority_order(accts, ctx, n)),
    decreases n,
{
    if n > 0 {
        lemma_priority_order_eligible(accts, ctx, n - 1);
        if eligible(accts[n - 1], ctx) {
            lemma_insert_by_priority_eligible(
                accts,
                ctx,
                priority_order(accts, ctx, n - 1),
                (n - 1) as usize,
            );
        }
    }
}

pub open spec fn priority_sorted(accts: Seq<ConnectorAccount>, s: Seq<usize>) -> bool {
    forall|i: int, j: int|
        0 <= i < j < s.len() ==> accts[#[trigger] s[i] as int].priority <= accts[#[trigger] s[j] as int].priority
}

proof fn lemma_insert_by_priority_lower_bound(accts: Seq<ConnectorAccount>, s: Seq<usize>, x: usize, b: u32)
    requires
        forall|i: int| 0 <= i < s.len() ==> accts[#[trigger] s[i] as int].priority >= b,
        accts[x as int].priority >= b,
    ensures
        forall|i: int|
            0 <= i < insert_by_priority(accts, s, x).len() ==> accts[#[trigger] insert_by_priority(
                accts,
                s,
                x,
            )[i] as int].priority >= b,
        insert_by_priority(accts, s, x).len() == s.len() + 1,
    decreases s.len(),
{
    if s.len() == 0 {
        assert(seq![x][0] == x);
    } else if accts[s[0] as int].priority > accts[x as int].priority {
        let o = seq![x] + s;
        assert forall|i: int| 0 <= i < o.len() implies accts[#[trigger] o[i] as int].priority >= b by {
            if i > 0 {
                assert(o[i] == s[i - 1]);
            }
        }
    } else {
        let d = s.drop_first();
        assert forall|i: int| 0 <= i < d.len() implies accts[#[trigger] d[i] as int].priority >= b by {
            assert(d[i] == s[i + 1]);
        }
        lemma_insert_by_priority_lower_bound(accts, d, x, b);
        let t = insert_by_priority(accts, d, x);
        let o = seq![s[0]] + t;
        assert forall|i: int| 0 <= i < o.len() implies accts[#[trigger] o[i] as int].priority >= b by {
            if i > 0 {
                assert(o[i] == t[i - 1]);
            }
        }
    }
}

proof fn lemma_insert_by_priority_sorted(accts: Seq<ConnectorAccount>, s: Seq<usize>, x: usize)
    requires
        priority_sorted(accts, s),
    ensures
        priority_sorted(accts, insert_by_priority(accts, s, x)),
    decreases s.len(),
{
    if s.len() == 0 {
    } else if accts[s[0] as int].priority > accts[x as int].priority {
        let o = seq![x] + s;
        assert forall|i: int, j: int| 0 <= i < j < o.len() implies accts[#[trigger] o[i] as int].priority
            <= accts[#[trigger] o[j] as int].priority by {
            if i == 0 {
                assert(o[j] == s[j - 1]);
                assert(accts[s[0] as int].priority <= accts[s[j - 1] as int].priority);
            } else {
                assert(o[i] == s[i - 1] && o[j] == s[j - 1]);
            }
        }
    } else {
        let d = s.drop_first();
        assert forall|i: int, j: int| 0 <= i < j < d.len() implies accts[#[trigger] d[i] as int].priority
            <= accts[#[trigger] d[j] as int].priority by {
            assert(d[i] == s[i + 1] && d[j] == s[j + 1]);
        }
        assert forall|i: int| 0 <= i < d.len() implies accts[#[trigger] d[i] as int].priority
            >= accts[s[0] as int].priority by {
            assert(d[i] == s[i + 1]);
        }
        lemma_insert_by_priority_sorted(accts, d, x);
        lemma_insert_by_priority_lower_bound(accts, d, x, accts[s[0] as int].priority);
        let t = insert_by_priority(accts, d, x);
        let o = seq![s[0]] + t;
        assert forall|i: int, j: int| 0 <= i < j < o.len() implies accts[#[trigger] o[i] as int].priority
            <= accts[#[trigger] o[j] as int].priority by {
            assert(o[j] == t[j - 1]);
            if i > 0 {
                assert(o[i] == t[i - 1]);
            }
        }
    }
}

/// Under the priority rule, candidates come in order of non-decreasing priority.
pub proof fn lemma_priority_order_sorted(accts: Seq<ConnectorAccount>, ctx: PaymentContext, n: int)
    ensures
        priority_sorted(accts, priority_order(accts, ctx, n)),
    decreases n,
{
    if n > 0 {
        lemma_priority_order_sorted(accts, ctx, n - 1);
        if eligible(accts[n - 1], ctx) {
            lemma_insert_by_priority_sorted(accts, priority_order(accts, ctx, n - 1), (n - 1) as usize);
        }
    }
}

proof fn lemma_pick_from_bound(accts: Seq<ConnectorAccount>, s: Seq<usize>, draw: int, k: int, acc: int)
    requires
        0 <= k < s.len(),
    ensures
        k <= pick_from(accts, s, draw, k, acc) < s.len(),
    decreases s.len() - k,
{
    if k + 1 < s.len() && acc + accts[s[k] as int].weight <= draw {
        lemma_pick_from_bound(accts, s, draw, k + 1, acc + accts[s[k] as int].weight);
    }
}

proof fn lemma_pick_from_cumulative(accts: Seq<ConnectorAccount>, s: Seq<usize>, draw: int, k: int, acc: int)
    requires
        0 <= k < s.len(),
        acc == weight_total(accts, s.take(k)),
        acc <= draw,
    ensures
        ({
            let p = pick_from(accts, s, draw, k, acc);
            &&& k <= p < s.len()
            &&& forall|j: int| 0 <= j < p ==> weight_total(accts, #[trigger] s.take(j + 1)) <= draw
                || j < k
            &&& (p == s.len() - 1 || weight_total(accts, s.take(p + 1)) > draw)
        }),
    decreases s.len() - k,
{
    assert(s.take(k + 1).drop_last() =~= s.take(k));
    if k + 1 < s.len() && acc + accts[s[k] as int].weight <= draw {
        lemma_pick_from_cumulative(accts, s, draw, k + 1, acc + accts[s[k] as int].weight);
    }
}

/// The weighted pick is the first candidate whose cumulative weight, in
/// configuration order, exceeds the draw (the last one if none does).
pub proof fn lemma_pick_is_first_exceeding(accts: Seq<ConnectorAccount>, s: Seq<usize>, draw: int)
    requires
        s.len() > 0,
        draw >= 0,
    ensures
        ({
            let p = pick_from(accts, s, draw, 0, 0);
            &&& 0 <= p < s.len()
            &&& forall|j: int| 0 <= j < p ==> weight_total(accts, #[trigger] s.take(j + 1)) <= draw
            &&& (p == s.len() - 1 || weight_total(accts, s.take(p + 1)) > draw)
        }),
{
    assert(s.take(0) =~= Seq::<usize>::empty());
    lemma_pick_from_cumulative(accts, s, draw, 0, 0);
}

proof fn lemma_volume_split_eligible(accts: Seq<ConnectorAccount>, ctx: PaymentContext, seed: u64)
    requires
        accts.len() <= usize::MAX,
    ensures
        all_eligible(accts, ctx, volume_split_order(accts, ctx, seed)),
{
    reveal(volume_split_order);
    let e = eligible_prefix(accts, ctx, accts.len() as int);
    lemma_eligible_prefix_eligible(accts, ctx, accts.len() as int);
    let total = weight_total(accts, e);
    if total != 0 {
        let k = pick_from(accts, e, draw_of(seed) % total, 0, 0);
        lemma_pick_from_bound(accts, e, draw_of(seed) % total, 0, 0);
        let o = seq![e[k]] + e.remove(k);
        assert(e[k] < accts.len() && eligible(accts[e[k] as int], ctx));
        assert forall|i: int| 0 <= i < o.len() implies #[trigger] o[i] < accts.len() && eligible(
            accts[o[i] as int],
            ctx,
        ) by {
            if i > 0 {
                if i - 1 < k {
                    assert(o[i] == e[i - 1]);
                } else {
                    assert(o[i] == e[i]);
                }
            }
        }
    }
}

proof fn lemma_listed_order_eligible(accts: Seq<ConnectorAccount>, ctx: PaymentContext, list: Seq<usize>, n: int)
    ensures
        all_eligible(accts, ctx, listed_order(accts, ctx, list, n)),
    decreases n,
{
    if n > 0 {
        lemma_listed_order_eligible(accts, ctx, list, n - 1);
        let prev = listed_order(accts, ctx, list, n - 1);
        let x = list[n - 1];
        if x < accts.len() && eligible(accts[x as int], ctx) && !prev.contains(x) {
            let cur = prev.push(x);
            assert forall|i: int| 0 <= i < cur.len() implies #[trigger] cur[i] < accts.len()
                && eligible(accts[cur[i] as int], ctx) by {
                if i < prev.len() {
                    assert(cur[i] == prev[i]);
                }
            }
        }
    }
}

/// Whatever the rule, every candidate is the position of an account that is
/// enabled and supports the payment's currency, method and operation.
pub proof fn lemma_candidates_eligible(accts: Seq<ConnectorAccount>, ctx: PaymentContext, rule: RoutingRule, seed: u64)
    requires
        accts.len() <= usize::MAX,
    ensures
        all_eligible(accts, ctx, candidate_order(accts, ctx, rule, seed)),
{
    match rule {
        RoutingRule::Priority => lemma_priority_order_eligible(accts, ctx, accts.len() as int),
        RoutingRule::VolumeSplit => lemma_volume_split_eligible(accts, ctx, seed),
        RoutingRule::RuleBased(ps) => {
            let k = first_match(ps@, ctx, 0);
            if k < ps@.len() {
                lemma_listed_order_eligible(accts, ctx, ps@[k].accounts@, ps@[k].accounts@.len() as int);
            }
        },
    }
}

fn contains_u16(v: &Vec<u16>, x: u16) -> (r: bool)
    ensures
        r == v@.contains(x),
{
    let mut i: usize = 0;
    while i < v.len()
        invariant
            i <= v@.len(),
            forall|k: int| 0 <= k < i ==> v@[k] != x,
        decreases v@.len() - i,
    {
        if v[i] == x {
            return true;
        }
        i = i + 1;
    }
    false
}

fn contains_u8(v: &Vec<u8>, x: u8) -> (r: bool)
    ensures
        r == v@.contains(x),
{
    let mut i: usize = 0;
    while i < v.len()
        invariant
            i <= v@.len(),
            forall|k: int| 0 <= k < i ==> v@[k] != x,
        decreases v@.len() - i,
    {
        if v[i] == x {
            return true;
        }
        i = i + 1;
    }
    false
}

fn contains_usize(v: &Vec<usize>, x: usize) -> (r: bool)
    ensures
        r == v@.contains(x),
{
    let mut i: usize = 0;
    while i < v.len()
        invariant
            i <= v@.len(),
            forall|k: int| 0 <= k < i ==> v@[k] != x,
        decreases v@.len() - i,
    {
        if v[i] == x {
            return true;
        }
        i = i + 1;
    }
    false
}

impl ConnectorAccount {
    /// Whether this account can serve the payment.
    pub fn is_eligible(&self, ctx: &PaymentContext) -> (r: bool)
        ensures
            r == eligible(*self, *ctx),
    {
        self.enabled && contains_u16(&self.currencies, ctx.currency) && contains_u8(
            &self.payment_methods,
            ctx.payment_method,
        ) && self.capabilities.supports(ctx.operation)
    }
}

fn eligible_positions(accounts: &Vec<ConnectorAccount>, ctx: &PaymentContext) -> (r: Vec<usize>)
    ensures
        r@ == eligible_prefix(accounts@, *ctx, accounts@.len() as int),
{
    let mut out: Vec<usize> = Vec::new();
    let mut i: usize = 0;
    while i < accounts.len()
        invariant
            i <= accounts@.len(),
            out@ == eligible_prefix(accounts@, *ctx, i as int),
        decreases accounts@.len() - i,
    {
        if accounts[i].is_eligible(ctx) {
            out.push(i);
        }
        i = i + 1;
    }
    out
}

proof fn lemma_insert_at(accts: Seq<ConnectorAccount>, s: Seq<usize>, x: usize, p: int)
    requires
        0 <= p <= s.len(),
        forall|k: int| 0 <= k < p ==> accts[s[k] as int].priority <= accts[x as int].priority,
        p < s.len() ==> accts[s[p] as int].priority > accts[x as int].priority,
    ensures
        insert_by_priority(accts, s, x) == s.insert(p, x),
    decreases p,
{
    if p == 0 {
        if s.len() == 0 {
            assert(s.insert(p, x) =~= seq![x]);
        } else {
            assert(s.insert(p, x) =~= seq![x] + s);
        }
    } else {
        let t = s.drop_first();
        assert forall|k: int| 0 <= k < p - 1 implies accts[t[k] as int].priority
            <= accts[x as int].priority by {
            assert(t[k] == s[k + 1]);
        }
        lemma_insert_at(accts, t, x, p - 1);
        assert(s.insert(p, x) =~= seq![s[0]] + t.insert(p - 1, x));
    }
}

fn priority_candidates(accounts: &Vec<ConnectorAccount>, ctx: &PaymentContext) -> (r: Vec<usize>)
    ensures
        r@ == priority_order(accounts@, *ctx, accounts@.len() as int),
{
    let mut out: Vec<usize> = Vec::new();
    let mut i: usize = 0;
    while i < accounts.len()
        invariant
            i <= accounts@.len(),
            out@ == priority_order(accounts@, *ctx, i as int),
            forall|k: int| 0 <= k < out@.len() ==> out@[k] < i,
        decreases accounts@.len() - i,
    {
        if accounts[i].is_eligible(ctx) {
            let pr = accounts[i].priority;
            let mut p: usize = 0;
            while p < out.len() && accounts[out[p]].priority <= pr
                invariant
                    p <= out@.len(),
                    i < accounts@.len(),
                    pr == accounts@[i as int].priority,
                    forall|k: int| 0 <= k < out@.len() ==> out@[k] < i,
                    forall|k: int| 0 <= k < p ==> accounts@[out@[k] as int].priority <= pr,
                decreases out@.len() - p,
            {
                p = p + 1;
            }
            proof {
                lemma_insert_at(accounts@, out@, i, p as int);
            }
            out.insert(p, i);
        }
        i = i + 1;
    }
    out
}

fn total_weight(accounts: &Vec<ConnectorAccount>, e: &Vec<usize>) -> (total: u128)
    requires
        forall|k: int| 0 <= k < e@.len() ==> e@[k] < accounts@.len(),
    ensures
        total == weight_total(accounts@, e@),
        total < 0x1_0000_0000_0000_0000_0000_0000,
{
    let n = e.len();
    let mut total: u128 = 0;
    let mut i: usize = 0;
    while i < n
        invariant
            n == e@.len(),
            i <= e@.len(),
            forall|k: int| 0 <= k < e@.len() ==> e@[k] < accounts@.len(),
            total == weight_total(accounts@, e@.take(i as int)),
            total <= i * 0x1_0000_0000,
        decreases e@.len() - i,
    {
        assert(e@.take(i + 1).drop_last() =~= e@.take(i as int));
        total = total + accounts[e[i]].weight as u128;
        i = i + 1;
    }
    assert(e@.take(e@.len() as int) =~= e@);
    total
}

fn pick_index(accounts: &Vec<ConnectorAccount>, e: &Vec<usize>, draw: u128) -> (k: usize)
    requires
        e@.len() > 0,
        draw < 0x1_0000_0000_0000_0000_0000_0000,
        forall|j: int| 0 <= j < e@.len() ==> e@[j] < accounts@.len(),
    ensures
        k == pick_from(accounts@, e@, draw as int, 0, 0),
        k < e@.len(),
{
    let n = e.len();
    let mut k: usize = 0;
    let mut acc: u128 = 0;
    while k + 1 < n && acc + accounts[e[k]].weight as u128 <= draw
        invariant
            e@.len() > 0,
            n == e@.len(),
            k < e@.len(),
            acc <= draw,
            draw < 0x1_0000_0000_0000_0000_0000_0000,
            forall|j: int| 0 <= j < e@.len() ==> e@[j] < accounts@.len(),
            pick_from(accounts@, e@, draw as int, k as int, acc as int) == pick_from(
                accounts@,
                e@,
                draw as int,
                0,
                0,
            ),
        decreases e@.len() - k,
    {
        acc = acc + accounts[e[k]].weight as u128;
        k = k + 1;
    }
    k
}

fn move_to_front(e: &Vec<usize>, k: usize) -> (out: Vec<usize>)
    requires
        k < e@.len(),
    ensures
        out@ == seq![e@[k as int]] + e@.remove(k as int),
{
    let mut out: Vec<usize> = Vec::new();
    out.push(e[k]);
    let mut j: usize = 0;
    while j < e.len()
        invariant
            k < e@.len(),
            j <= e@.len(),
            j <= k ==> out@ == seq![e@[k as int]] + e@.take(j as int),
            j > k ==> out@ == seq![e@[k as int]] + e@.take(j as int).remove(k as int),
        decreases e@.len() - j,
    {
        if j != k {
            out.push(e[j]);
        }
        proof {
            if j < k {
                assert(seq![e@[k as int]] + e@.take(j + 1) =~= (seq![e@[k as int]] + e@.take(
                    j as int,
                )).push(e@[j as int]));
            } else if j == k {
                assert(e@.take(j + 1).remove(k as int) =~= e@.take(j as int));
            } else {
                assert(e@.take(j + 1).remove(k as int) =~= e@.take(j as int).remove(k as int).push(
                    e@[j as int],
                ));
            }
        }
        j = j + 1;
    }
    assert(e@.take(e@.len() as int) =~= e@);
    out
}

fn draw_below(seed: u64, total: u128) -> (r: u128)
    requires
        total > 0,
    ensures
        r == draw_of(seed) % (total as int),
        r < total,
{
    let x = seed.wrapping_mul(6364136223846793005u64).wrapping_add(1442695040888963407u64);
    (x / 0x1_0000_0000) as u128 % total
}

fn volume_split_candidates(accounts: &Vec<ConnectorAccount>, ctx: &PaymentContext, seed: u64) -> (r: Vec<usize>)
    ensures
        r@ == volume_split_order(accounts@, *ctx, seed),
{
    let e = eligible_positions(accounts, ctx);
    let n = accounts.len();
    proof {
        assert(accounts@.len() == n);
        lemma_eligible_prefix_bounded(accounts@, *ctx, accounts@.len() as int);
    }
    let total = total_weight(accounts, &e);
    if total == 0 {
        assert(e@ == volume_split_order(accounts@, *ctx, seed)) by {
            reveal(volume_split_order);
        }
        return e;
    }
    let draw = draw_below(seed, total);
    let k = pick_index(accounts, &e, draw);
    let r = move_to_front(&e, k);
    assert(r@ == volume_split_order(accounts@, *ctx, seed)) by {
        reveal(volume_split_order);
    }
    r
}

proof fn lemma_eligible_prefix_bounded(accts: Seq<ConnectorAccount>, ctx: PaymentContext, n: int)
    requires
        n <= accts.len(),
        accts.len() <= usize::MAX,
    ensures
        forall|k: int|
            0 <= k < eligible_prefix(accts, ctx, n).len() ==> eligible_prefix(accts, ctx, n)[k]
                < n,
    decreases n,
{
    if n > 0 {
        lemma_eligible_prefix_bounded(accts, ctx, n - 1);
        let prev = eligible_prefix(accts, ctx, n - 1);
        if eligible(accts[n - 1], ctx) {
            assert(eligible_prefix(accts, ctx, n) == prev.push((n - 1) as usize));
        } else {
            assert(eligible_prefix(accts, ctx, n) == prev);
        }
    }
}

fn rule_candidates(accounts: &Vec<ConnectorAccount>, ctx: &PaymentContext, list: &Vec<usize>) -> (r: Vec<usize>)
    ensures
        r@ == listed_order(accounts@, *ctx, list@, list@.len() as int),
{
    let mut out: Vec<usize> = Vec::new();
    let mut i: usize = 0;
    while i < list.len()
        invariant
            i <= list@.len(),
            out@ == listed_order(accounts@, *ctx, list@, i as int),
        decreases list@.len() - i,
    {
        let x = list[i];
        if x < accounts.len() && accounts[x].is_eligible(ctx) && !contains_usize(&out, x) {
            out.push(x);
        }
        i = i + 1;
    }
    out
}

fn first_matching(ps: &Vec<Predicate>, ctx: &PaymentContext) -> (r: usize)
    ensures
        r == first_match(ps@, *ctx, 0),
{
    let mut k: usize = 0;
    while k < ps.len()
        invariant
            k <= ps@.len(),
            first_match(ps@, *ctx, k as int) == first_match(ps@, *ctx, 0),
        decreases ps@.len() - k,
    {
        let p = &ps[k];
        let currency_ok = match p.currency {
            Some(c) => c == ctx.currency,
            None => true,
        };
        let method_ok = match p.payment_method {
            Some(m) => m == ctx.payment_method,
            None => true,
        };
        if p.min_amount <= ctx.amount && ctx.amount <= p.max_amount && currency_ok && method_ok {
            return k;
        }
        k = k + 1;
    }
    k
}

fn predicates_well_formed(ps: &Vec<Predicate>, n: usize) -> (r: bool)
    ensures
        r == (forall|i: int| 0 <= i < ps@.len() ==> predicate_well_formed(ps@[i], n as int)),
{
    let mut i: usize = 0;
    while i < ps.len()
        invariant
            i <= ps@.len(),
            forall|k: int| 0 <= k < i ==> predicate_well_formed(ps@[k], n as int),
        decreases ps@.len() - i,
    {
        let p = &ps[i];
        if p.min_amount > p.max_amount {
            assert(!predicate_well_formed(ps@[i as int], n as int));
            return false;
        }
        let mut j: usize = 0;
        while j < p.accounts.len()
            invariant
                i < ps@.len(),
                p.accounts@ == ps@[i as int].accounts@,
                p.min_amount == ps@[i as int].min_amount,
                p.max_amount == ps@[i as int].max_amount,
                p.min_amount <= p.max_amount,
                j <= p.accounts@.len(),
                forall|k: int| 0 <= k < j ==> p.accounts@[k] < n,
            decreases p.accounts@.len() - j,
        {
            if p.accounts[j] >= n {
                assert(!predicate_well_formed(ps@[i as int], n as int));
                return false;
            }
            j = j + 1;
        }
        i = i + 1;
    }
    true
}

/// Chooses the ordered candidate accounts (positions in `accounts`) for a
/// payment. The result depends on the arguments alone: the same payment,
/// configuration and seed always give the same order.
pub fn route(accounts: &Vec<ConnectorAccount>, ctx: &PaymentContext, rule: &RoutingRule, seed: u64) -> (r: Result<Vec<usize>, RoutingError>)
    ensures
        match r {
            Ok(v) => routing_outcome(accounts@, *ctx, *rule, seed) == Ok::<Seq<usize>, RoutingError>(v@),
            Err(e) => routing_outcome(accounts@, *ctx, *rule, seed) == Err::<Seq<usize>, RoutingError>(e),
        },
        r is Ok ==> all_eligible(accounts@, *ctx, r->Ok_0@),
        r is Ok && rule is Priority ==> priority_sorted(accounts@, r->Ok_0@),
{
    let n = accounts.len();
    proof {
        lemma_priority_order_sorted(accounts@, *ctx, accounts@.len() as int);
        assert(accounts@.len() == n);
        lemma_candidates_eligible(accounts@, *ctx, *rule, seed);
    }
    let order = match rule {
        RoutingRule::Priority => priority_candidates(accounts, ctx),
        RoutingRule::VolumeSplit => volume_split_candidates(accounts, ctx, seed),
        RoutingRule::RuleBased(ps) => {
            if !predicates_well_formed(ps, accounts.len()) {
                return Err(RoutingError::MalformedRule);
            }
            let k = first_matching(ps, ctx);
            if k >= ps.len() {
                Vec::new()
            } else {
                rule_candidates(accounts, ctx, &ps[k].accounts)
            }
        },
    };
    if order.len() == 0 {
        Err(RoutingError::NoEligibleConnector)
    } else {
        Ok(order)
    }
}

} // verus!
