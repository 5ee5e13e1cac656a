//! Consensus price aggregation and active-node tracking.
//!
//! Observations are kept in a bounded store (oldest evicted first). An
//! aggregate price is published only when, among the observations still
//! inside the freshness window, enough distinct exchanges contribute, their
//! embedded timestamps agree closely enough, no contributing price strays too
//! far from the mean, and the mean itself is realistic. Every rejection
//! carries its reason; absence of agreement is never papered over with a
//! stale or out-of-range value.
//!
//! Prices are integers in the pricing unit; the published aggregate is the
//! arithmetic mean of the contributing prices, rounded toward zero. The
//! deviation and band rules are checked in exact integer arithmetic over the
//! price sum, so the five-percent bound is inclusive exactly at the boundary.

use vstd::prelude::*;

use crate::types::{AggregatedPrice, AssetPair};

verus! {

/// Capacity of the bounded observation store; the oldest entry is evicted
/// first once it is exceeded.
pub const STORE_CAPACITY: usize = 100;

/// Seconds after receipt during which an observation stays eligible.
pub const FRESHNESS_WINDOW_SECS: u64 = 120;

/// Seconds of silence after which a node is no longer counted as active.
/// It coincides with the freshness window; node liveness serves reporting
/// only and has no effect on aggregation correctness.
pub const LIVENESS_WINDOW_SECS: u64 = 120;

/// Largest allowed spread of embedded timestamps across contributors.
pub const MAX_TIMESTAMP_SPREAD_SECS: u64 = 60;

/// How many exchanges the network expects to hear from.
pub const REQUIRED_EXCHANGES: usize = 3;

/// Smallest realistic mean price, in the pricing unit.
pub const PRICE_BAND_LOW: u64 = 10_000;

/// Largest realistic mean price, in the pricing unit.
pub const PRICE_BAND_HIGH: u64 = 500_000;

/// One stored price observation.
#[derive(Debug, Clone)]
pub struct PriceObservation {
    /// Price in the pricing unit; always positive once stored.
    pub price: u64,
    /// Producer-asserted unix timestamp, in seconds.
    pub timestamp: u64,
    /// Exchange name.
    pub source: String,
    /// Submitting node.
    pub node_id: String,
    /// Unix time the aggregator received the observation.
    pub received_at: u64,
}

/// The freshest observation of one exchange, as selected for aggregation.
#[derive(Debug, Clone)]
pub struct Contributor {
    /// Exchange name.
    pub source: String,
    /// The exchange's freshest price.
    pub price: u64,
    /// Embedded timestamp of that price.
    pub timestamp: u64,
}

/// One tracked node and the unix time it was last heard from.
#[derive(Debug, Clone)]
pub struct ActiveNode {
    /// Node identifier.
    pub node_id: String,
    /// Unix time of last contact.
    pub last_seen: u64,
}

/// An observation is fresh while `now` has not moved past its receipt time
/// by more than the freshness window. An observation received after `now`
/// counts as fresh.
pub open spec fn obs_fresh(o: PriceObservation, now: u64) -> bool {
    now <= o.received_at + FRESHNESS_WINDOW_SECS
}

/// The contributor an observation would supply.
pub open spec fn contributor_of(o: PriceObservation) -> Contributor {
    Contributor { source: o.source, price: o.price, timestamp: o.timestamp }
}

/// Whether some contributor already speaks for the given exchange.
pub open spec fn has_source(cs: Seq<Contributor>, s: Seq<char>) -> bool {
    exists|i: int| 0 <= i < cs.len() && cs[i].source@ == s
}

/// The index of the contributor for the given exchange (unique while the
/// sources are distinct).
pub open spec fn source_index_of(cs: Seq<Contributor>, s: Seq<char>) -> int {
    choose|i: int| 0 <= i < cs.len() && cs[i].source@ == s
}

/// Folding one fresh observation into the contributor list: a new exchange
/// is appended; a known exchange is replaced only by a strictly fresher
/// embedded timestamp, so the first observation wins ties.
pub open spec fn upsert_contributor(cs: Seq<Contributor>, o: PriceObservation) -> Seq<
    Contributor,
> {
    if has_source(cs, o.source@) {
        let i = source_index_of(cs, o.source@);
        if o.timestamp > cs[i].timestamp {
            cs.update(i, contributor_of(o))
        } else {
            cs
        }
    } else {
        cs.push(contributor_of(o))
    }
}

/// The contributor list the store yields at time `now`: observations are
/// folded in stored order, and only fresh ones count.
pub open spec fn select_contributors(obs: Seq<PriceObservation>, now: u64) -> Seq<Contributor>
    decreases obs.len(),
{
    if obs.len() == 0 {
        Seq::<Contributor>::empty()
    } else {
        let rest = select_contributors(obs.drop_last(), now);
        if obs_fresh(obs.last(), now) {
            upsert_contributor(rest, obs.last())
        } else {
            rest
        }
    }
}

/// No two contributors speak for the same exchange.
pub open spec fn distinct_sources(cs: Seq<Contributor>) -> bool {
    forall|i: int, j: int| 0 <= i < j < cs.len() ==> cs[i].source@ != cs[j].source@
}

/// Sum of the contributing prices.
pub open spec fn sum_prices(cs: Seq<Contributor>) -> int
    decreases cs.len(),
{
    if cs.len() == 0 {
        0
    } else {
        sum_prices(cs.drop_last()) + cs.last().price
    }
}

/// Quorum threshold: the ceiling of two thirds of the required exchanges.
pub open spec fn quorum(total_exchanges: int) -> int {
    (total_exchanges * 2 + 2) / 3
}

/// Enough distinct exchanges contribute.
pub open spec fn quorum_met(cs: Seq<Contributor>) -> bool {
    cs.len() >= quorum(REQUIRED_EXCHANGES as int)
}

/// Embedded timestamps of all contributors lie within the allowed spread.
pub open spec fn spread_ok(cs: Seq<Contributor>) -> bool {
    forall|i: int, j: int|
        0 <= i < cs.len() && 0 <= j < cs.len() ==> cs[i].timestamp - cs[j].timestamp
            <= MAX_TIMESTAMP_SPREAD_SECS
}

/// Absolute value over the mathematical integers.
pub open spec fn abs_int(x: int) -> int {
    if x < 0 {
        -x
    } else {
        x
    }
}

/// A price is within five percent of the mean of `n` contributing prices
/// summing to `sum`, checked exactly: |price - sum/n| <= (sum/n)/20 over the
/// rationals, i.e. 20*|n*price - sum| <= sum. The bound is inclusive.
pub open spec fn deviation_ok(price: u64, sum: int, n: int) -> bool {
    20 * abs_int(n * price - sum) <= sum
}

/// Every contributing price is within the allowed deviation from the mean.
pub open spec fn all_deviations_ok(cs: Seq<Contributor>) -> bool {
    forall|i: int|
        0 <= i < cs.len() ==> deviation_ok(cs[i].price, sum_prices(cs), cs.len() as int)
}

/// The mean of the contributing prices lies inside the sanity band,
/// boundaries included: low*n <= sum <= high*n.
pub open spec fn band_ok(cs: Seq<Contributor>) -> bool {
    &&& PRICE_BAND_LOW * cs.len() <= sum_prices(cs)
    &&& sum_prices(cs) <= PRICE_BAND_HIGH * cs.len()
}

/// All four validation rules hold: quorum, timestamp spread, per-price
/// deviation, and the sanity band.
pub open spec fn checks_pass(cs: Seq<Contributor>) -> bool {
    &&& quorum_met(cs)
    &&& spread_ok(cs)
    &&& all_deviations_ok(cs)
    &&& band_ok(cs)
}

/// The published aggregate: the arithmetic mean, rounded toward zero.
pub open spec fn mean_price(cs: Seq<Contributor>) -> int {
    sum_prices(cs) / (cs.len() as int)
}

/// A node counts as live while `now` has not moved past its last contact by
/// more than the liveness window.
pub open spec fn node_live(n: ActiveNode, now: u64) -> bool {
    now <= n.last_seen + LIVENESS_WINDOW_SECS
}

/// Whether some entry tracks the given node.
pub open spec fn has_node(ns: Seq<ActiveNode>, id: Seq<char>) -> bool {
    exists|i: int| 0 <= i < ns.len() && ns[i].node_id@ == id
}

/// The index of the entry tracking the given node (unique while the tracked
/// identifiers are distinct).
pub open spec fn node_index_of(ns: Seq<ActiveNode>, id: Seq<char>) -> int {
    choose|i: int| 0 <= i < ns.len() && ns[i].node_id@ == id
}

/// No two entries track the same node.
pub open spec fn distinct_nodes(ns: Seq<ActiveNode>) -> bool {
    forall|i: int, j: int| 0 <= i < j < ns.len() ==> ns[i].node_id@ != ns[j].node_id@
}

/// Recording contact with a node: its entry is brought to `now`, or a new
/// entry is appended.
pub open spec fn upsert_node(ns: Seq<ActiveNode>, entry: ActiveNode) -> Seq<ActiveNode> {
    if has_node(ns, entry.node_id@) {
        ns.update(node_index_of(ns, entry.node_id@), entry)
    } else {
        ns.push(entry)
    }
}

/// Pruning: only the live entries survive, in order.
pub open spec fn prune_nodes(ns: Seq<ActiveNode>, now: u64) -> Seq<ActiveNode>
    decreases ns.len(),
{
    if ns.len() == 0 {
        Seq::<ActiveNode>::empty()
    } else {
        let rest = prune_nodes(ns.drop_last(), now);
        if node_live(ns.last(), now) {
            rest.push(ns.last())
        } else {
            rest
        }
    }
}

/// What `touch` leaves behind: the node upserted at `now`, then the stale
/// entries pruned.
pub open spec fn touch_spec(ns: Seq<ActiveNode>, entry: ActiveNode) -> Seq<ActiveNode> {
    prune_nodes(upsert_node(ns, entry), entry.last_seen)
}

/// The store after accepting one observation: appended, with the oldest
/// entry evicted once the capacity is exceeded.
pub open spec fn store_after_submit(obs: Seq<PriceObservation>, o: PriceObservation) -> Seq<
    PriceObservation,
> {
    let pushed = obs.push(o);
    if pushed.len() > STORE_CAPACITY {
        pushed.drop_first()
    } else {
        pushed
    }
}

/// There is never a contributor for an exchange nobody observed, so the
/// contributor list is no longer than the store.
pub proof fn lemma_select_len(obs: Seq<PriceObservation>, now: u64)
    ensures
        select_contributors(obs, now).len() <= obs.len(),
    decreases obs.len(),
{
    if obs.len() > 0 {
        lemma_select_len(obs.drop_last(), now);
    }
}

/// The selected contributors always speak for distinct exchanges.
pub proof fn lemma_select_distinct(obs: Seq<PriceObservation>, now: u64)
    ensures
        distinct_sources(select_contributors(obs, now)),
    decreases obs.len(),
{
    if obs.len() > 0 {
        lemma_select_distinct(obs.drop_last(), now);
        let rest = select_contributors(obs.drop_last(), now);
        let o = obs.last();
        if obs_fresh(o, now) {
            if has_source(rest, o.source@) {
                // An update keeps every source in place.
            } else {
                // A new source is appended; it differs from every existing one.
                assert forall|i: int, j: int|
                    0 <= i < j < upsert_contributor(rest, o).len() implies upsert_contributor(
                    rest,
                    o,
                )[i].source@ != upsert_contributor(rest, o)[j].source@ by {
                    if j == rest.len() as int {
                        assert(!has_source(rest, o.source@));
                        assert(rest[i].source@ != o.source@);
                    }
                }
            }
        }
    }
}

/// Only positive prices are stored, so every selected contributor's price is
/// positive.
pub proof fn lemma_select_positive(obs: Seq<PriceObservation>, now: u64)
    requires
        forall|i: int| 0 <= i < obs.len() ==> obs[i].price > 0,
    ensures
        forall|i: int|
            0 <= i < select_contributors(obs, now).len() ==> select_contributors(
                obs,
                now,
            )[i].price > 0,
    decreases obs.len(),
{
    if obs.len() > 0 {
        assert(forall|i: int| 0 <= i < obs.drop_last().len() ==> obs.drop_last()[i].price > 0);
        lemma_select_positive(obs.drop_last(), now);
        let rest = select_contributors(obs.drop_last(), now);
        let o = obs.last();
        let cs = select_contributors(obs, now);
        if obs_fresh(o, now) {
            assert(o.price > 0);
            assert forall|i: int| 0 <= i < cs.len() implies cs[i].price > 0 by {
                if has_source(rest, o.source@) {
                    let k = source_index_of(rest, o.source@);
                    if o.timestamp > rest[k].timestamp {
                        assert(cs == rest.update(k, contributor_of(o)));
                        if i != k {
                            assert(cs[i] == rest[i]);
                        }
                    }
                } else {
                    if i < rest.len() {
                        assert(cs[i] == rest[i]);
                    } else {
                        assert(cs[i] == contributor_of(o));
                    }
                }
            }
        }
    }
}

/// A contributor exactly at the five-percent bound — its price times the
/// contributor count differing from the price sum by exactly one twentieth
/// of the sum — passes the deviation rule; any strictly larger deviation
/// fails it.
pub proof fn lemma_deviation_boundary(price: u64, sum: int, n: int)
    ensures
        20 * abs_int(n * price - sum) == sum ==> deviation_ok(price, sum, n),
        20 * abs_int(n * price - sum) > sum ==> !deviation_ok(price, sum, n),
{
}

/// Two contributors whose embedded timestamps differ by more than the
/// allowed spread defeat the spread rule — whatever the freshness window
/// said about their receipt times — so aggregation reports a timestamp
/// mismatch instead of publishing.
pub proof fn lemma_spread_violation(cs: Seq<Contributor>, i: int, j: int)
    requires
        0 <= i < cs.len(),
        0 <= j < cs.len(),
        cs[i].timestamp - cs[j].timestamp > MAX_TIMESTAMP_SPREAD_SECS,
    ensures
        !spread_ok(cs),
{
}

/// A fresh observation's exchange always ends up with a contributor: the
/// selection may replace an exchange's price with a fresher one, but never
/// drops the exchange.
pub proof fn lemma_fresh_source_contributes(obs: Seq<PriceObservation>, now: u64, k: int)
    requires
        0 <= k < obs.len(),
        obs_fresh(obs[k], now),
    ensures
        has_source(select_contributors(obs, now), obs[k].source@),
    decreases obs.len(),
{
    let o = obs.last();
    let rest = select_contributors(obs.drop_last(), now);
    let cs = select_contributors(obs, now);
    if k == obs.len() - 1 {
        if has_source(rest, o.source@) {
            let i = source_index_of(rest, o.source@);
            assert(rest[i].source@ == o.source@);
            if o.timestamp > rest[i].timestamp {
                assert(cs[i].source@ == o.source@);
            } else {
                assert(cs == rest);
            }
        } else {
            assert(cs == rest.push(contributor_of(o)));
            assert(cs[rest.len() as int].source@ == o.source@);
        }
    } else {
        assert(obs.drop_last()[k] == obs[k]);
        lemma_fresh_source_contributes(obs.drop_last(), now, k);
        let s = obs[k].source@;
        let j = choose|j: int| 0 <= j < rest.len() && rest[j].source@ == s;
        if obs_fresh(o, now) {
            if has_source(rest, o.source@) {
                let i = source_index_of(rest, o.source@);
                assert(rest[i].source@ == o.source@);
                if o.timestamp > rest[i].timestamp {
                    if j == i {
                        assert(cs[i].source@ == o.source@);
                        assert(rest[i].source@ == s);
                    } else {
                        assert(cs[j].source@ == s);
                    }
                } else {
                    assert(cs == rest);
                }
            } else {
                assert(cs == rest.push(contributor_of(o)));
                assert(cs[j].source@ == s);
            }
        } else {
            assert(cs == rest);
        }
    }
}

/// Fresh observations from two distinct exchanges meet the quorum of two:
/// with at least two of the three required exchanges heard from inside the
/// freshness window, aggregation is never refused for lack of consensus.
pub proof fn lemma_two_fresh_exchanges_meet_quorum(
    obs: Seq<PriceObservation>,
    now: u64,
    k1: int,
    k2: int,
)
    requires
        0 <= k1 < obs.len(),
        0 <= k2 < obs.len(),
        obs_fresh(obs[k1], now),
        obs_fresh(obs[k2], now),
        obs[k1].source@ != obs[k2].source@,
    ensures
        quorum_met(select_contributors(obs, now)),
{
    lemma_fresh_source_contributes(obs, now, k1);
    lemma_fresh_source_contributes(obs, now, k2);
    let cs = select_contributors(obs, now);
    let i1 = choose|i: int| 0 <= i < cs.len() && cs[i].source@ == obs[k1].source@;
    let i2 = choose|i: int| 0 <= i < cs.len() && cs[i].source@ == obs[k2].source@;
    assert(i1 != i2);
    assert(cs.len() >= 2);
}

/// Where every stored observation names one and the same exchange, at most
/// one contributor is selected, so the quorum of two distinct exchanges
/// cannot be met and aggregation reports insufficient consensus.
pub proof fn lemma_single_exchange_below_quorum(
    obs: Seq<PriceObservation>,
    now: u64,
    s: Seq<char>,
)
    requires
        forall|i: int| 0 <= i < obs.len() ==> #[trigger] obs[i].source@ == s,
    ensures
        select_contributors(obs, now).len() <= 1,
        forall|i: int|
            0 <= i < select_contributors(obs, now).len() ==> #[trigger] select_contributors(
                obs,
                now,
            )[i].source@ == s,
        !quorum_met(select_contributors(obs, now)),
    decreases obs.len(),
{
    if obs.len() > 0 {
        assert(forall|i: int|
            0 <= i < obs.drop_last().len() ==> #[trigger] obs.drop_last()[i].source@ == s);
        lemma_single_exchange_below_quorum(obs.drop_last(), now, s);
        let rest = select_contributors(obs.drop_last(), now);
        let o = obs.last();
        let cs = select_contributors(obs, now);
        if obs_fresh(o, now) {
            assert(o.source@ == s);
            if has_source(rest, o.source@) {
                let i = source_index_of(rest, o.source@);
                if o.timestamp > rest[i].timestamp {
                    assert(cs == rest.update(i, contributor_of(o)));
                    assert forall|t: int| 0 <= t < cs.len() implies #[trigger] cs[t].source@
                        == s by {
                        if t != i {
                            assert(cs[t] == rest[t]);
                        }
                    }
                }
            } else {
                if rest.len() >= 1 {
                    assert(rest[0].source@ == s);
                    assert(has_source(rest, o.source@));
                }
                assert(rest.len() == 0);
                assert(cs == rest.push(contributor_of(o)));
            }
        }
    }
}

/// Every pruned entry is one of the original entries, and pruning keeps the
/// tracked identifiers distinct.
proof fn lemma_prune_nodes_facts(ns: Seq<ActiveNode>, now: u64)
    ensures
        forall|k: int|
            0 <= k < prune_nodes(ns, now).len() ==> exists|m: int|
                0 <= m < ns.len() && #[trigger] ns[m] == #[trigger] prune_nodes(ns, now)[k],
        distinct_nodes(ns) ==> distinct_nodes(prune_nodes(ns, now)),
    decreases ns.len(),
{
    if ns.len() > 0 {
        let shorter = ns.drop_last();
        lemma_prune_nodes_facts(shorter, now);
        let rest = prune_nodes(shorter, now);
        let pruned = prune_nodes(ns, now);
        assert forall|k: int| 0 <= k < pruned.len() implies exists|m: int|
            0 <= m < ns.len() && #[trigger] ns[m] == #[trigger] pruned[k] by {
            if k < rest.len() {
                let m = choose|m: int| 0 <= m < shorter.len() && shorter[m] == rest[k];
                assert(ns[m] == pruned[k]);
            } else {
                assert(ns[ns.len() - 1] == pruned[k]);
            }
        }
        if distinct_nodes(ns) {
            assert(distinct_nodes(shorter));
            if node_live(ns.last(), now) {
                assert forall|i: int, j: int| 0 <= i < j < pruned.len() implies pruned[i].node_id@
                    != pruned[j].node_id@ by {
                    if j == rest.len() as int {
                        let m = choose|m: int| 0 <= m < shorter.len() && shorter[m] == rest[i];
                        assert(ns[m].node_id@ != ns[ns.len() - 1].node_id@);
                    }
                }
            }
        }
    }
}

/// Upserting a contact keeps the tracked identifiers distinct.
proof fn lemma_upsert_node_distinct(ns: Seq<ActiveNode>, entry: ActiveNode)
    requires
        distinct_nodes(ns),
    ensures
        distinct_nodes(upsert_node(ns, entry)),
{
    let upserted = upsert_node(ns, entry);
    if has_node(ns, entry.node_id@) {
        let k = node_index_of(ns, entry.node_id@);
        assert(ns[k].node_id@ == entry.node_id@);
        assert forall|i: int, j: int| 0 <= i < j < upserted.len() implies upserted[i].node_id@
            != upserted[j].node_id@ by {
            assert(upserted[i].node_id@ == ns[i].node_id@);
            assert(upserted[j].node_id@ == ns[j].node_id@);
        }
    } else {
        assert forall|i: int, j: int| 0 <= i < j < upserted.len() implies upserted[i].node_id@
            != upserted[j].node_id@ by {
            if j == ns.len() as int {
                assert(ns[i].node_id@ != entry.node_id@);
            }
        }
    }
}

/// Response to a price submission.
#[derive(Debug, Clone)]
pub struct PriceResponse {
    /// Whether the submission was accepted.
    pub success: bool,
    /// Human-readable outcome.
    pub message: String,
    /// The aggregate published after this submission, where one could be.
    pub aggregated_price: Option<u64>,
    /// Unix time the response was produced.
    pub timestamp: u64,
}

/// Response to a health check.
#[derive(Debug, Clone)]
pub struct HealthResponse {
    /// Whether the aggregator is serving.
    pub healthy: bool,
    /// Unix time the response was produced.
    pub timestamp: u64,
    /// How many nodes are currently counted as live.
    pub active_nodes: u32,
    /// Service version string.
    pub version: String,
}

/// One stored observation, as reported back to callers.
#[derive(Debug, Clone)]
pub struct PriceDataPoint {
    /// Price in the pricing unit.
    pub price: u64,
    /// Producer-asserted unix timestamp.
    pub timestamp: u64,
    /// Exchange name.
    pub source: String,
    /// Submitting node.
    pub node_id: String,
}

/// Response to an aggregate-price query.
#[derive(Debug, Clone)]
pub struct GetPriceResponse {
    /// Whether an aggregate could be published.
    pub success: bool,
    /// The aggregate, or zero where none could be published.
    pub aggregated_price: u64,
    /// How many observations the store holds.
    pub data_points: u32,
    /// Receipt time of the newest observation, or zero.
    pub last_update: u64,
    /// The most recent observations, newest first, at most five.
    pub recent_prices: Vec<PriceDataPoint>,
}

/// Why no aggregate was published, or the aggregate itself: each validation
/// failure is its own observable outcome.
#[derive(Debug, Clone)]
pub enum AggregateOutcome {
    /// All validations passed; the mean was published.
    Aggregated(AggregatedPrice),
    /// Fewer distinct exchanges contributed than the quorum asks.
    InsufficientConsensus,
    /// The contributors' embedded timestamps spread too far apart.
    TimestampMismatch,
    /// Some contributing price strayed too far from the mean.
    PriceAnomaly,
    /// The mean fell outside the sanity band.
    UnrealisticPrice,
}

/// The consensus aggregator: a bounded store of price observations and a
/// map of recently heard-from nodes. Callers pass the current unix time in;
/// the aggregator reads no clock of its own.
pub struct AggregatorService {
    observations: Vec<PriceObservation>,
    active_nodes: Vec<ActiveNode>,
}

/// The index of the contributor entry for `source`, where there is one.
fn find_source(contributors: &Vec<Contributor>, source: &String) -> (r: Option<usize>)
    ensures
        r matches Some(j) ==> j < contributors@.len() && contributors@[j as int].source@
            == source@,
        r is None ==> !has_source(contributors@, source@),
{
    let mut j: usize = 0;
    while j < contributors.len()
        invariant
            j <= contributors@.len(),
            forall|k: int| 0 <= k < j ==> contributors@[k].source@ != source@,
        decreases contributors@.len() - j,
    {
        if contributors[j].source == *source {
            return Some(j);
        }
        j = j + 1;
    }
    None
}

/// The index of the entry tracking `node_id`, where there is one.
fn find_node(nodes: &Vec<ActiveNode>, node_id: &String) -> (r: Option<usize>)
    ensures
        r matches Some(j) ==> j < nodes@.len() && nodes@[j as int].node_id@ == node_id@,
        r is None ==> !has_node(nodes@, node_id@),
{
    let mut j: usize = 0;
    while j < nodes.len()
        invariant
            j <= nodes@.len(),
            forall|k: int| 0 <= k < j ==> nodes@[k].node_id@ != node_id@,
        decreases nodes@.len() - j,
    {
        if nodes[j].node_id == *node_id {
            return Some(j);
        }
        j = j + 1;
    }
    None
}

impl AggregatorService {
    /// The stored observations, oldest first.
    pub closed spec fn observations(&self) -> Seq<PriceObservation> {
        self.observations@
    }

    /// The tracked nodes, in insertion order.
    pub closed spec fn nodes(&self) -> Seq<ActiveNode> {
        self.active_nodes@
    }

    /// The store never exceeds its capacity, every stored price is positive,
    /// and no node is tracked twice.
    pub open spec fn wf(&self) -> bool {
        &&& self.observations().len() <= STORE_CAPACITY
        &&& forall|i: int| 0 <= i < self.observations().len() ==> self.observations()[i].price > 0
        &&& distinct_nodes(self.nodes())
    }

    /// A fresh aggregator with nothing stored.
    pub fn new() -> (r: Self)
        ensures
            r.wf(),
            r.observations() == Seq::<PriceObservation>::empty(),
            r.nodes() == Seq::<ActiveNode>::empty(),
    {
        let r = AggregatorService { observations: Vec::new(), active_nodes: Vec::new() };
        proof {
            assert(r.observations@ =~= Seq::<PriceObservation>::empty());
            assert(r.active_nodes@ =~= Seq::<ActiveNode>::empty());
        }
        r
    }

    /// How many observations the store holds.
    pub fn observation_count(&self) -> (r: usize)
        ensures
            r == self.observations().len(),
    {
        self.observations.len()
    }

    /// How many nodes are currently tracked as live.
    pub fn active_node_count(&self) -> (r: usize)
        ensures
            r == self.nodes().len(),
    {
        self.active_nodes.len()
    }

    /// Records contact with a node at `now` and prunes entries not heard
    /// from within the liveness window.
    fn touch(&mut self, node_id: String, now: u64)
        requires
            distinct_nodes(old(self).nodes()),
        ensures
            final(self).observations() == old(self).observations(),
            final(self).nodes() == touch_spec(
                old(self).nodes(),
                (ActiveNode { node_id, last_seen: now }),
            ),
            distinct_nodes(final(self).nodes()),
    {
        let entry = ActiveNode { node_id, last_seen: now };
        let ghost e = entry;
        let ghost orig = self.active_nodes@;
        match find_node(&self.active_nodes, &entry.node_id) {
            Some(j) => {
                proof {
                    let k = node_index_of(orig, e.node_id@);
                    assert(orig[k].node_id@ == e.node_id@);
                    assert(k == j as int);
                }
                self.active_nodes[j] = entry;
            },
            None => {
                self.active_nodes.push(entry);
            },
        }
        proof {
            assert(self.active_nodes@ == upsert_node(orig, e));
            lemma_upsert_node_distinct(orig, e);
        }
        let ghost upserted = self.active_nodes@;
        let mut kept: Vec<ActiveNode> = Vec::new();
        let mut i: usize = 0;
        while i < self.active_nodes.len()
            invariant
                i <= upserted.len(),
                upserted == self.active_nodes@,
                kept@ == prune_nodes(upserted.take(i as int), now),
            decreases upserted.len() - i,
        {
            proof {
                assert(upserted.take(i as int + 1).drop_last() =~= upserted.take(i as int));
                assert(upserted.take(i as int + 1).last() == upserted[i as int]);
            }
            let candidate = ActiveNode {
                node_id: self.active_nodes[i].node_id.clone(),
                last_seen: self.active_nodes[i].last_seen,
            };
            proof {
                assert(candidate == upserted[i as int]);
            }
            if now <= candidate.last_seen || now - candidate.last_seen <= LIVENESS_WINDOW_SECS {
                kept.push(candidate);
            }
            i = i + 1;
        }
        proof {
            assert(upserted.take(upserted.len() as int) =~= upserted);
            lemma_prune_nodes_facts(upserted, now);
        }
        self.active_nodes = kept;
    }

    /// Computes the validated aggregate price from the store at time `now`.
    ///
    /// Per exchange, only the freshest-by-embedded-timestamp observation
    /// inside the freshness window counts. The outcome names the first rule
    /// that failed — quorum, timestamp spread, deviation, sanity band — or
    /// carries the published mean with its computation inputs. The
    /// aggregator fails closed: no rule is ever skipped.
    pub fn aggregate(&self, now: u64) -> (r: AggregateOutcome)
        requires
            self.wf(),
        ensures
            ({
                let cs = select_contributors(self.observations(), now);
                &&& ((r is InsufficientConsensus) <==> !quorum_met(cs))
                &&& ((r is TimestampMismatch) <==> (quorum_met(cs) && !spread_ok(cs)))
                &&& ((r is PriceAnomaly) <==> (quorum_met(cs) && spread_ok(cs)
                    && !all_deviations_ok(cs)))
                &&& ((r is UnrealisticPrice) <==> (quorum_met(cs) && spread_ok(cs)
                    && all_deviations_ok(cs) && !band_ok(cs)))
                &&& ((r is Aggregated) <==> checks_pass(cs))
                &&& (r matches AggregateOutcome::Aggregated(a) ==> {
                    &&& a.mean_price == mean_price(cs)
                    &&& a.price_sum == sum_prices(cs)
                    &&& a.contributor_count == cs.len()
                    &&& a.sources@.len() == cs.len()
                    &&& (forall|i: int| 0 <= i < cs.len() ==> a.sources@[i] == cs[i].source)
                    &&& (forall|i: int|
                        0 <= i < cs.len() ==> a.min_timestamp <= #[trigger] cs[i].timestamp
                            <= a.max_timestamp)
                    &&& (exists|i: int| 0 <= i < cs.len() && #[trigger] cs[i].timestamp
                        == a.min_timestamp)
                    &&& (exists|i: int| 0 <= i < cs.len() && #[trigger] cs[i].timestamp
                        == a.max_timestamp)
                    &&& a.pair.0@ == "BTC/USD"@
                })
            }),
    {
        let ghost all_obs = self.observations@;
        let obs_len = self.observations.len();
        let mut contributors: Vec<Contributor> = Vec::new();
        let mut i: usize = 0;
        while i < obs_len
            invariant
                i <= obs_len,
                obs_len == all_obs.len(),
                all_obs == self.observations@,
                self.wf(),
                contributors@ == select_contributors(all_obs.take(i as int), now),
            decreases obs_len - i,
        {
            let ghost prefix = all_obs.take(i as int);
            let ghost cs_before = select_contributors(prefix, now);
            proof {
                assert(all_obs.take(i as int + 1).drop_last() =~= prefix);
                assert(all_obs.take(i as int + 1).last() == all_obs[i as int]);
                lemma_select_distinct(prefix, now);
            }
            let o = &self.observations[i];
            let fresh = now <= o.received_at || now - o.received_at <= FRESHNESS_WINDOW_SECS;
            proof {
                assert(fresh == obs_fresh(all_obs[i as int], now));
            }
            if fresh {
                match find_source(&contributors, &o.source) {
                    Some(j) => {
                        proof {
                            let k = source_index_of(cs_before, all_obs[i as int].source@);
                            assert(cs_before[k].source@ == all_obs[i as int].source@);
                            assert(k == j as int);
                        }
                        if o.timestamp > contributors[j].timestamp {
                            let entry = Contributor {
                                source: o.source.clone(),
                                price: o.price,
                                timestamp: o.timestamp,
                            };
                            proof {
                                assert(entry == contributor_of(all_obs[i as int]));
                            }
                            contributors[j] = entry;
                        }
                    },
                    None => {
                        let entry = Contributor {
                            source: o.source.clone(),
                            price: o.price,
                            timestamp: o.timestamp,
                        };
                        proof {
                            assert(entry == contributor_of(all_obs[i as int]));
                        }
                        contributors.push(entry);
                    },
                }
                proof {
                    assert(contributors@ == upsert_contributor(cs_before, all_obs[i as int]));
                }
            }
            i = i + 1;
        }
        proof {
            assert(all_obs.take(obs_len as int) =~= all_obs);
        }
        let ghost cs = select_contributors(all_obs, now);
        proof {
            lemma_select_len(all_obs, now);
            lemma_select_positive(all_obs, now);
        }
        let n = contributors.len();

        // Rule 1: enough distinct exchanges must contribute.
        let min_required = (REQUIRED_EXCHANGES * 2 + 2) / 3;
        proof {
            assert(min_required as int == quorum(REQUIRED_EXCHANGES as int));
        }
        if n < min_required {
            return AggregateOutcome::InsufficientConsensus;
        }
        // Rule 2: the embedded timestamps must agree closely enough.
        let mut min_ts: u64 = contributors[0].timestamp;
        let mut max_ts: u64 = contributors[0].timestamp;
        let ghost mut min_at: int = 0;
        let ghost mut max_at: int = 0;
        let mut k: usize = 1;
        while k < n
            invariant
                1 <= k <= n,
                n == cs.len(),
                cs == contributors@,
                0 <= min_at < k,
                0 <= max_at < k,
                cs[min_at].timestamp == min_ts,
                cs[max_at].timestamp == max_ts,
                forall|t: int| 0 <= t < k ==> min_ts <= #[trigger] cs[t].timestamp <= max_ts,
            decreases n - k,
        {
            let ts = contributors[k].timestamp;
            if ts < min_ts {
                min_ts = ts;
                proof {
                    min_at = k as int;
                }
            }
            if ts > max_ts {
                max_ts = ts;
                proof {
                    max_at = k as int;
                }
            }
            k = k + 1;
        }
        if max_ts - min_ts > MAX_TIMESTAMP_SPREAD_SECS {
            proof {
                assert(cs[max_at].timestamp - cs[min_at].timestamp
                    > MAX_TIMESTAMP_SPREAD_SECS);
                assert(!spread_ok(cs));
            }
            return AggregateOutcome::TimestampMismatch;
        }
        proof {
            assert forall|a: int, b: int| 0 <= a < cs.len() && 0 <= b < cs.len() implies cs[
                a
            ].timestamp - cs[b].timestamp <= MAX_TIMESTAMP_SPREAD_SECS by {
                assert(cs[a].timestamp <= max_ts);
                assert(cs[b].timestamp >= min_ts);
            }
            assert(spread_ok(cs));
        }
        // The exact price sum, for the deviation and band rules.
        let mut sum: u128 = 0;
        let mut k2: usize = 0;
        while k2 < n
            invariant
                k2 <= n,
                n == cs.len(),
                cs == contributors@,
                n <= STORE_CAPACITY,
                sum as int == sum_prices(cs.take(k2 as int)),
                sum as int <= k2 * (u64::MAX as int),
            decreases n - k2,
        {
            proof {
                assert(cs.take(k2 as int + 1).drop_last() =~= cs.take(k2 as int));
                assert(cs.take(k2 as int + 1).last() == cs[k2 as int]);
                assert((k2 + 1) * (u64::MAX as int) == k2 * (u64::MAX as int) + (
                u64::MAX as int)) by (nonlinear_arith);
            }
            sum = sum + (contributors[k2].price as u128);
            k2 = k2 + 1;
        }
        proof {
            assert(cs.take(n as int) =~= cs);
            assert(n * (u64::MAX as int) <= 100 * (u64::MAX as int)) by (nonlinear_arith)
                requires
                    0 <= n <= 100,
            ;
        }
        // Rule 3: no contributing price may stray beyond the deviation bound.
        let mut k3: usize = 0;
        while k3 < n
            invariant
                k3 <= n,
                n == cs.len(),
                cs == contributors@,
                cs == select_contributors(self.observations(), now),
                quorum_met(cs),
                spread_ok(cs),
                n <= STORE_CAPACITY,
                sum as int == sum_prices(cs),
                sum as int <= 100 * (u64::MAX as int),
                forall|t: int|
                    0 <= t < k3 ==> deviation_ok(#[trigger] cs[t].price, sum_prices(cs),
                    cs.len() as int),
            decreases n - k3,
        {
            let p = contributors[k3].price;
            proof {
                assert((n as int) * (p as int) <= 100 * (u64::MAX as int)) by (nonlinear_arith)
                    requires
                        0 <= n <= 100,
                        0 <= p <= u64::MAX as int,
                ;
            }
            let np = (n as u128) * (p as u128);
            let diff = if np >= sum {
                np - sum
            } else {
                sum - np
            };
            proof {
                assert(diff as int == abs_int((n as int) * (p as int) - sum as int));
            }
            if 20 * diff > sum {
                proof {
                    assert(!deviation_ok(cs[k3 as int].price, sum_prices(cs), cs.len() as int));
                }
                return AggregateOutcome::PriceAnomaly;
            }
            k3 = k3 + 1;
        }
        assert(all_deviations_ok(cs));
        // Rule 4: the mean must be realistic.
        let low = (PRICE_BAND_LOW as u128) * (n as u128);
        let high = (PRICE_BAND_HIGH as u128) * (n as u128);
        if sum < low || sum > high {
            proof {
                assert(!band_ok(cs));
            }
            return AggregateOutcome::UnrealisticPrice;
        }
        proof {
            assert(band_ok(cs));
        }
        // All rules passed: publish the mean with its computation inputs.
        let mean_wide = sum / (n as u128);
        proof {
            assert(n >= 1);
            assert(sum as int / n as int <= PRICE_BAND_HIGH as int) by (nonlinear_arith)
                requires
                    1 <= n as int,
                    0 <= sum as int <= (PRICE_BAND_HIGH as int) * (n as int),
            ;
        }
        let mean = mean_wide as u64;
        let mut sources: Vec<String> = Vec::new();
        let mut k4: usize = 0;
        while k4 < n
            invariant
                k4 <= n,
                n == cs.len(),
                cs == contributors@,
                sources@.len() == k4,
                forall|t: int| 0 <= t < k4 ==> sources@[t] == #[trigger] cs[t].source,
            decreases n - k4,
        {
            sources.push(contributors[k4].source.clone());
            k4 = k4 + 1;
        }
        AggregateOutcome::Aggregated(AggregatedPrice {
            pair: AssetPair::btc_usd(),
            mean_price: mean,
            sources,
            price_sum: sum,
            contributor_count: n,
            min_timestamp: min_ts,
            max_timestamp: max_ts,
        })
    }

    /// Handles one price submission at time `now`.
    ///
    /// A non-positive price is rejected without touching any stored state.
    /// An accepted observation is appended (evicting the oldest entry once
    /// the capacity is exceeded), the submitting node's contact time is
    /// recorded, and the aggregate is recomputed over the new store.
    pub fn submit_price(
        &mut self,
        price: u64,
        timestamp: u64,
        source: String,
        node_id: String,
        now: u64,
    ) -> (r: PriceResponse)
        requires
            old(self).wf(),
        ensures
            final(self).wf(),
            r.timestamp == now,
            price == 0 ==> {
                &&& final(self).observations() == old(self).observations()
                &&& final(self).nodes() == old(self).nodes()
                &&& !r.success
                &&& r.aggregated_price is None
                &&& r.message@ == "Price must be positive"@
            },
            price > 0 ==> ({
                let stored = (PriceObservation {
                    price,
                    timestamp,
                    source,
                    node_id,
                    received_at: now,
                });
                let obs2 = store_after_submit(old(self).observations(), stored);
                let cs = select_contributors(obs2, now);
                &&& r.success
                &&& r.message@ == "Price data received"@
                &&& final(self).observations() == obs2
                &&& final(self).nodes() == touch_spec(
                    old(self).nodes(),
                    (ActiveNode { node_id, last_seen: now }),
                )
                &&& ((r.aggregated_price is Some) <==> checks_pass(cs))
                &&& (r.aggregated_price matches Some(m) ==> m == mean_price(cs))
            }),
    {
        if price == 0 {
            return PriceResponse {
                success: false,
                message: "Price must be positive".to_owned(),
                aggregated_price: None,
                timestamp: now,
            };
        }
        let ghost orig_obs = self.observations@;
        let obs = PriceObservation {
            price,
            timestamp,
            source,
            node_id: node_id.clone(),
            received_at: now,
        };
        let ghost stored = obs;
        self.observations.push(obs);
        if self.observations.len() > STORE_CAPACITY {
            self.observations.remove(0);
            proof {
                assert(orig_obs.push(stored).remove(0) =~= orig_obs.push(stored).drop_first());
            }
        }
        proof {
            assert(self.observations@ == store_after_submit(orig_obs, stored));
            let obs2 = self.observations@;
            assert forall|i: int| 0 <= i < obs2.len() implies obs2[i].price > 0 by {
                if obs2.len() > orig_obs.len() {
                    // Appended without eviction.
                    if i < orig_obs.len() {
                        assert(obs2[i] == orig_obs[i]);
                    }
                } else {
                    // The oldest entry was evicted.
                    if i < obs2.len() - 1 {
                        assert(obs2[i] == orig_obs[i + 1]);
                    }
                }
            }
        }
        self.touch(node_id, now);
        let outcome = self.aggregate(now);
        let aggregated_price = match outcome {
            AggregateOutcome::Aggregated(a) => Some(a.mean_price),
            _ => None,
        };
        PriceResponse {
            success: true,
            message: "Price data received".to_owned(),
            aggregated_price,
            timestamp: now,
        }
    }

    /// Answers a health check at time `now`, recording contact with the
    /// probing node. The active-node count serves reporting only; it has no
    /// effect on aggregation.
    pub fn health_check(&mut self, node_id: String, now: u64) -> (r: HealthResponse)
        requires
            old(self).wf(),
        ensures
            final(self).wf(),
            final(self).observations() == old(self).observations(),
            final(self).nodes() == touch_spec(
                old(self).nodes(),
                (ActiveNode { node_id, last_seen: now }),
            ),
            r.healthy,
            r.timestamp == now,
            r.active_nodes == final(self).nodes().len() as u32,
            r.version@ == "1.0.0"@,
    {
        self.touch(node_id, now);
        let count = #[verifier::truncate] (self.active_nodes.len() as u32);
        HealthResponse {
            healthy: true,
            timestamp: now,
            active_nodes: count,
            version: "1.0.0".to_owned(),
        }
    }

    /// Answers an aggregate-price query at time `now`.
    ///
    /// On success the response carries the mean, the store size, the newest
    /// receipt time, and the most recent observations (newest first, at most
    /// five); on failure every numeric field is zero and the list is empty.
    pub fn get_aggregated_price(&self, now: u64) -> (r: GetPriceResponse)
        requires
            self.wf(),
        ensures
            ({
                let cs = select_contributors(self.observations(), now);
                let stored = self.observations();
                &&& (r.success <==> checks_pass(cs))
                &&& (r.success ==> {
                    &&& r.aggregated_price == mean_price(cs)
                    &&& r.data_points == stored.len()
                    &&& stored.len() > 0
                    &&& r.last_update == stored.last().received_at
                    &&& r.recent_prices@.len() == (if stored.len() < 5 {
                        stored.len()
                    } else {
                        5
                    })
                    &&& (forall|k: int|
                        0 <= k < r.recent_prices@.len() ==> #[trigger] r.recent_prices@[k]
                            == datapoint_of(stored[stored.len() - 1 - k]))
                })
                &&& (!r.success ==> {
                    &&& r.aggregated_price == 0
                    &&& r.data_points == 0
                    &&& r.last_update == 0
                    &&& r.recent_prices@.len() == 0
                })
            }),
    {
        let outcome = self.aggregate(now);
        match outcome {
            AggregateOutcome::Aggregated(a) => {
                proof {
                    lemma_select_len(self.observations@, now);
                }
                let len = self.observations.len();
                let data_points = #[verifier::truncate] (len as u32);
                let last_update = self.observations[len - 1].received_at;
                let mut recent_prices: Vec<PriceDataPoint> = Vec::new();
                let take = if len < 5 {
                    len
                } else {
                    5
                };
                let mut k: usize = 0;
                while k < take
                    invariant
                        k <= take,
                        take <= len,
                        len == self.observations@.len(),
                        recent_prices@.len() == k,
                        forall|t: int|
                            0 <= t < k ==> #[trigger] recent_prices@[t] == datapoint_of(
                                self.observations@[len - 1 - t],
                            ),
                    decreases take - k,
                {
                    let o = &self.observations[len - 1 - k];
                    recent_prices.push(PriceDataPoint {
                        price: o.price,
                        timestamp: o.timestamp,
                        source: o.source.clone(),
                        node_id: o.node_id.clone(),
                    });
                    k = k + 1;
                }
                GetPriceResponse {
                    success: true,
                    aggregated_price: a.mean_price,
                    data_points,
                    last_update,
                    recent_prices,
                }
            },
            _ => {
                let empty: Vec<PriceDataPoint> = Vec::new();
                proof {
                    assert(empty@ =~= Seq::<PriceDataPoint>::empty());
                }
                GetPriceResponse {
                    success: false,
                    aggregated_price: 0,
                    data_points: 0,
                    last_update: 0,
                    recent_prices: empty,
                }
            },
        }
    }
}

/// The observation, as reported back in an aggregate-price response.
pub open spec fn datapoint_of(o: PriceObservation) -> PriceDataPoint {
    PriceDataPoint {
        price: o.price,
        timestamp: o.timestamp,
        source: o.source,
        node_id: o.node_id,
    }
}

} // verus!
