//! Oracle VM state machine for DeFi settlement.
//!
//! The machine holds vaults and option contracts, keyed by 32-byte
//! identifiers that are unique while the entity is active. Each processed
//! block anchors a price root at its height and appends the settlements it
//! triggers to an ordered pending queue; executing a settlement removes the
//! entity. Repeated `process_block` calls without an intervening execution
//! re-append triggers for conditions still unresolved: the queue is not
//! deduplicated.
//!
//! The machine is built for single-writer sequential use; concurrent callers
//! must serialize access externally.

use vstd::prelude::*;

use crate::errors::OracleVmError;

verus! {

/// Vault identifier: a 32-byte content id.
pub type VaultId = [u8; 32];

/// Option contract identifier: a 32-byte id.
pub type OptionId = [u8; 32];

/// Seconds a block is assumed to take; block height times this interval
/// estimates wall-clock time.
pub const BLOCK_INTERVAL_SECS: u64 = 600;

/// Collateral ratio assigned to new vaults, in basis points.
pub const DEFAULT_COLLATERAL_RATIO_BPS: u32 = 15_000;

/// Vault state information.
#[derive(Debug, Clone)]
pub struct VaultState {
    /// Owner of the vault.
    pub owner: String,
    /// Collateral locked in the vault, in satoshis.
    pub collateral_amount: u64,
    /// Outstanding debt, in the pricing unit.
    pub debt_amount: u64,
    /// Required collateral ratio, in basis points (150% = 15000).
    pub collateral_ratio: u32,
    /// Block height the vault was created at.
    pub created_at: u64,
}

/// Option contract state.
#[derive(Debug, Clone)]
pub struct OptionState {
    /// Writer of the option.
    pub writer: String,
    /// Current holder, where one exists.
    pub holder: Option<String>,
    /// Call or put.
    pub option_type: OptionType,
    /// Strike price, in the pricing unit.
    pub strike_price: u64,
    /// Unix expiry time, in seconds.
    pub expiry_time: u64,
    /// Collateral backing the option, in satoshis.
    pub collateral_amount: u64,
    /// Premium paid for the option, in the pricing unit.
    pub premium: u64,
}

/// Option type.
#[derive(Debug, Clone)]
pub enum OptionType {
    /// Right to buy at the strike price.
    Call,
    /// Right to sell at the strike price.
    Put,
}

/// A settlement to be executed.
#[derive(Debug, Clone)]
pub enum Settlement {
    /// A vault breached its collateral requirement and is to be removed.
    VaultLiquidation {
        /// The vault being liquidated.
        vault_id: VaultId,
        /// Price at which the breach was detected.
        liquidation_price: u64,
        /// Unix time of the trigger.
        timestamp: u64,
    },
    /// An option reached its expiry and is to be removed.
    OptionExpiry {
        /// The option being settled.
        option_id: OptionId,
        /// Price the option settles at.
        settlement_price: u64,
        /// Unix expiry time of the option.
        expiry_time: u64,
    },
}

/// Oracle VM state: the current block height, the anchored price roots, the
/// entity stores, and the ordered pending-settlement queue. Each store is an
/// association list whose keys are unique.
#[derive(Debug, Clone)]
pub struct OracleVMState {
    /// Current block height on the Bitcoin L1.
    pub block_height: u64,
    /// Anchored price roots by block height.
    pub price_roots: Vec<(u64, [u8; 32])>,
    /// Active vault positions.
    pub vaults: Vec<(VaultId, VaultState)>,
    /// Active option contracts.
    pub options: Vec<(OptionId, OptionState)>,
    /// Pending settlements, oldest first.
    pub pending_settlements: Vec<Settlement>,
}

/// Whether an association list holds the given key, comparing 32-byte ids
/// by content.
pub open spec fn id_key_present<V>(entries: Seq<([u8; 32], V)>, id: Seq<u8>) -> bool {
    exists|i: int| 0 <= i < entries.len() && entries[i].0@ == id
}

/// The index of the entry with the given key (unique while keys are
/// distinct).
pub open spec fn id_key_index<V>(entries: Seq<([u8; 32], V)>, id: Seq<u8>) -> int {
    choose|i: int| 0 <= i < entries.len() && entries[i].0@ == id
}

/// No two entries share a key.
pub open spec fn distinct_id_keys<V>(entries: Seq<([u8; 32], V)>) -> bool {
    forall|i: int, j: int| 0 <= i < j < entries.len() ==> entries[i].0@ != entries[j].0@
}

/// Whether an association list keyed by height holds the given height.
pub open spec fn height_present(entries: Seq<(u64, [u8; 32])>, h: u64) -> bool {
    exists|i: int| 0 <= i < entries.len() && entries[i].0 == h
}

/// The index of the entry for the given height.
pub open spec fn height_index(entries: Seq<(u64, [u8; 32])>, h: u64) -> int {
    choose|i: int| 0 <= i < entries.len() && entries[i].0 == h
}

/// No two entries share a height.
pub open spec fn distinct_heights(entries: Seq<(u64, [u8; 32])>) -> bool {
    forall|i: int, j: int| 0 <= i < j < entries.len() ==> entries[i].0 != entries[j].0
}

/// Inserting under a key: the existing entry is overwritten in place, or a
/// new entry is appended. Duplicate identifiers thus silently replace the
/// stored entity, exactly as documented for vault and option creation.
pub open spec fn id_store_insert<V>(entries: Seq<([u8; 32], V)>, id: [u8; 32], v: V) -> Seq<
    ([u8; 32], V),
> {
    if id_key_present(entries, id@) {
        entries.update(id_key_index(entries, id@), (id, v))
    } else {
        entries.push((id, v))
    }
}

/// Removing a key: the store without any entry under it. Removing an absent
/// key leaves the store unchanged.
pub open spec fn id_store_remove<V>(entries: Seq<([u8; 32], V)>, id: Seq<u8>) -> Seq<
    ([u8; 32], V),
>
    decreases entries.len(),
{
    if entries.len() == 0 {
        Seq::<([u8; 32], V)>::empty()
    } else {
        let rest = id_store_remove(entries.drop_last(), id);
        if entries.last().0@ == id {
            rest
        } else {
            rest.push(entries.last())
        }
    }
}

/// Inserting under a height, overwriting any existing root for it.
pub open spec fn height_store_insert(
    entries: Seq<(u64, [u8; 32])>,
    h: u64,
    root: [u8; 32],
) -> Seq<(u64, [u8; 32])> {
    if height_present(entries, h) {
        entries.update(height_index(entries, h), (h, root))
    } else {
        entries.push((h, root))
    }
}

/// The settlements due for the options store at the given height: one
/// expiry per option whose expiry time has been reached by the estimated
/// wall clock (height times the block interval), in store order. The
/// settlement price is left at zero: extracting it from the anchored price
/// root is an extension point, not implemented here.
pub open spec fn expiries_due(options: Seq<(OptionId, OptionState)>, height: u64) -> Seq<
    Settlement,
>
    decreases options.len(),
{
    if options.len() == 0 {
        Seq::<Settlement>::empty()
    } else {
        let rest = expiries_due(options.drop_last(), height);
        let entry = options.last();
        if (height as int) * (BLOCK_INTERVAL_SECS as int) >= entry.1.expiry_time {
            rest.push(
                Settlement::OptionExpiry {
                    option_id: entry.0,
                    settlement_price: 0,
                    expiry_time: entry.1.expiry_time,
                },
            )
        } else {
            rest
        }
    }
}

/// The pending queue after executing a settlement: vault liquidations for
/// the same vault are pruned; option expiries are left in place. The
/// asymmetry is deliberate — see [`OracleVM::execute_settlement`].
pub open spec fn pending_after_execute(pending: Seq<Settlement>, executed: Settlement) -> Seq<
    Settlement,
>
    decreases pending.len(),
{
    if pending.len() == 0 {
        Seq::<Settlement>::empty()
    } else {
        let rest = pending_after_execute(pending.drop_last(), executed);
        if settlement_pruned(pending.last(), executed) {
            rest
        } else {
            rest.push(pending.last())
        }
    }
}

/// Whether a pending entry is pruned by executing `executed`: only when
/// both are vault liquidations of the same vault.
pub open spec fn settlement_pruned(entry: Settlement, executed: Settlement) -> bool {
    match (entry, executed) {
        (
            Settlement::VaultLiquidation { vault_id: a, .. },
            Settlement::VaultLiquidation { vault_id: b, .. },
        ) => a@ == b@,
        _ => false,
    }
}

/// Removing a key twice is the same as removing it once: executing the same
/// settlement again finds nothing to remove and is a no-op, not an error.
pub proof fn lemma_id_store_remove_idempotent<V>(entries: Seq<([u8; 32], V)>, id: Seq<u8>)
    ensures
        id_store_remove(id_store_remove(entries, id), id) == id_store_remove(entries, id),
        !id_key_present(id_store_remove(entries, id), id),
    decreases entries.len(),
{
    if entries.len() > 0 {
        lemma_id_store_remove_idempotent(entries.drop_last(), id);
        let rest = id_store_remove(entries.drop_last(), id);
        let removed = id_store_remove(entries, id);
        if entries.last().0@ == id {
            assert(removed == rest);
        } else {
            assert(removed == rest.push(entries.last()));
            assert forall|i: int| 0 <= i < removed.len() implies #[trigger] removed[i].0@
                != id by {
                if i < rest.len() {
                    assert(removed[i] == rest[i]);
                }
            }
            assert(removed.drop_last() =~= rest);
            assert(id_store_remove(removed, id) == id_store_remove(rest, id).push(
                entries.last(),
            ));
            lemma_remove_absent_key(rest, id);
        }
    }
}

/// Removing a key that is not present leaves the store unchanged.
pub proof fn lemma_remove_absent_key<V>(entries: Seq<([u8; 32], V)>, id: Seq<u8>)
    requires
        !id_key_present(entries, id),
    ensures
        id_store_remove(entries, id) == entries,
    decreases entries.len(),
{
    if entries.len() > 0 {
        assert(entries[entries.len() - 1].0@ != id);
        assert forall|i: int| 0 <= i < entries.drop_last().len() implies #[trigger] entries
            .drop_last()[i].0@ != id by {
            assert(entries.drop_last()[i] == entries[i]);
        }
        lemma_remove_absent_key(entries.drop_last(), id);
        assert(id_store_remove(entries, id) =~= entries);
    }
}

/// Inserting under a key keeps the keys distinct.
proof fn lemma_id_insert_distinct<V>(entries: Seq<([u8; 32], V)>, id: [u8; 32], v: V)
    requires
        distinct_id_keys(entries),
    ensures
        distinct_id_keys(id_store_insert(entries, id, v)),
{
    let inserted = id_store_insert(entries, id, v);
    if id_key_present(entries, id@) {
        let k = id_key_index(entries, id@);
        assert(entries[k].0@ == id@);
        assert forall|i: int, j: int| 0 <= i < j < inserted.len() implies inserted[i].0@
            != inserted[j].0@ by {
            assert(inserted[i].0@ == entries[i].0@);
            assert(inserted[j].0@ == entries[j].0@);
        }
    } else {
        assert forall|i: int, j: int| 0 <= i < j < inserted.len() implies inserted[i].0@
            != inserted[j].0@ by {
            if j == entries.len() as int {
                assert(entries[i].0@ != id@);
            }
        }
    }
}

/// Inserting under a height keeps the heights distinct.
proof fn lemma_height_insert_distinct(entries: Seq<(u64, [u8; 32])>, h: u64, root: [u8; 32])
    requires
        distinct_heights(entries),
    ensures
        distinct_heights(height_store_insert(entries, h, root)),
{
    let inserted = height_store_insert(entries, h, root);
    if height_present(entries, h) {
        let k = height_index(entries, h);
        assert(entries[k].0 == h);
        assert forall|i: int, j: int| 0 <= i < j < inserted.len() implies inserted[i].0
            != inserted[j].0 by {
            assert(inserted[i].0 == entries[i].0);
            assert(inserted[j].0 == entries[j].0);
        }
    } else {
        assert forall|i: int, j: int| 0 <= i < j < inserted.len() implies inserted[i].0
            != inserted[j].0 by {
            if j == entries.len() as int {
                assert(entries[i].0 != h);
            }
        }
    }
}

/// Every entry surviving a removal is one of the original entries, and
/// removal keeps the keys distinct.
proof fn lemma_id_remove_facts<V>(entries: Seq<([u8; 32], V)>, id: Seq<u8>)
    ensures
        forall|k: int|
            0 <= k < id_store_remove(entries, id).len() ==> exists|m: int|
                0 <= m < entries.len() && #[trigger] entries[m] == #[trigger] id_store_remove(
                    entries,
                    id,
                )[k],
        distinct_id_keys(entries) ==> distinct_id_keys(id_store_remove(entries, id)),
    decreases entries.len(),
{
    if entries.len() > 0 {
        let shorter = entries.drop_last();
        lemma_id_remove_facts(shorter, id);
        let rest = id_store_remove(shorter, id);
        let removed = id_store_remove(entries, id);
        assert forall|k: int| 0 <= k < removed.len() implies exists|m: int|
            0 <= m < entries.len() && #[trigger] entries[m] == #[trigger] removed[k] by {
            if k < rest.len() {
                let m = choose|m: int| 0 <= m < shorter.len() && #[trigger] shorter[m] == rest[k];
                assert(entries[m] == removed[k]);
            } else {
                assert(entries[entries.len() - 1] == removed[k]);
            }
        }
        if distinct_id_keys(entries) {
            assert(distinct_id_keys(shorter));
            if entries.last().0@ != id {
                assert forall|i: int, j: int| 0 <= i < j < removed.len() implies removed[i].0@
                    != removed[j].0@ by {
                    if j == rest.len() as int {
                        let m = choose|m: int|
                            0 <= m < shorter.len() && #[trigger] shorter[m] == rest[i];
                        assert(entries[m].0@ != entries[entries.len() - 1].0@);
                    }
                }
            }
        }
    }
}

/// Whether two 32-byte identifiers hold the same bytes.
fn bytes32_eq(a: &[u8; 32], b: &[u8; 32]) -> (r: bool)
    ensures
        r == (a@ == b@),
{
    let mut i: usize = 0;
    while i < 32
        invariant
            i <= 32,
            forall|k: int| 0 <= k < i ==> a@[k] == b@[k],
        decreases 32 - i,
    {
        if a[i] != b[i] {
            return false;
        }
        i = i + 1;
    }
    proof {
        assert(a@ =~= b@);
    }
    true
}

/// The index of the entry under the given identifier, where there is one.
fn id_index_of<V>(entries: &Vec<([u8; 32], V)>, id: &[u8; 32]) -> (r: Option<usize>)
    ensures
        r matches Some(j) ==> j < entries@.len() && entries@[j as int].0@ == id@,
        r is None ==> !id_key_present(entries@, id@),
{
    let mut j: usize = 0;
    while j < entries.len()
        invariant
            j <= entries@.len(),
            forall|k: int| 0 <= k < j ==> entries@[k].0@ != id@,
        decreases entries@.len() - j,
    {
        if bytes32_eq(&entries[j].0, id) {
            return Some(j);
        }
        j = j + 1;
    }
    None
}

/// The index of the entry for the given height, where there is one.
fn height_index_of(entries: &Vec<(u64, [u8; 32])>, h: u64) -> (r: Option<usize>)
    ensures
        r matches Some(j) ==> j < entries@.len() && entries@[j as int].0 == h,
        r is None ==> !height_present(entries@, h),
{
    let mut j: usize = 0;
    while j < entries.len()
        invariant
            j <= entries@.len(),
            forall|k: int| 0 <= k < j ==> entries@[k].0 != h,
        decreases entries@.len() - j,
    {
        if entries[j].0 == h {
            return Some(j);
        }
        j = j + 1;
    }
    None
}

/// The Oracle VM: exclusive owner of its state.
pub struct OracleVM {
    state: OracleVMState,
}

impl OracleVM {
    /// The machine's state.
    pub closed spec fn state(&self) -> OracleVMState {
        self.state
    }

    /// Identifiers are unique within each store, heights within the root map.
    pub open spec fn wf(&self) -> bool {
        &&& distinct_id_keys(self.state().vaults@)
        &&& distinct_id_keys(self.state().options@)
        &&& distinct_heights(self.state().price_roots@)
    }

    /// A machine at height zero with nothing stored.
    pub fn new() -> (r: Self)
        ensures
            r.wf(),
            r.state().block_height == 0,
            r.state().price_roots@ == Seq::<(u64, [u8; 32])>::empty(),
            r.state().vaults@ == Seq::<(VaultId, VaultState)>::empty(),
            r.state().options@ == Seq::<(OptionId, OptionState)>::empty(),
            r.state().pending_settlements@ == Seq::<Settlement>::empty(),
    {
        let r = OracleVM {
            state: OracleVMState {
                block_height: 0,
                price_roots: Vec::new(),
                vaults: Vec::new(),
                options: Vec::new(),
                pending_settlements: Vec::new(),
            },
        };
        proof {
            assert(r.state.price_roots@ =~= Seq::<(u64, [u8; 32])>::empty());
            assert(r.state.vaults@ =~= Seq::<(VaultId, VaultState)>::empty());
            assert(r.state.options@ =~= Seq::<(OptionId, OptionState)>::empty());
            assert(r.state.pending_settlements@ =~= Seq::<Settlement>::empty());
        }
        r
    }

    /// The current state, for inspection.
    pub fn get_state(&self) -> (r: &OracleVMState)
        ensures
            *r == self.state(),
    {
        &self.state
    }

    /// Processes a new block: records the height and its anchored price
    /// root, evaluates the liquidation and expiry triggers, and appends
    /// every settlement due to the pending queue. Nothing is executed or
    /// proven here, and triggers already pending are appended again.
    pub fn process_block(&mut self, block_height: u64, price_root: [u8; 32]) -> (r: Result<
        Vec<Settlement>,
        OracleVmError,
    >)
        requires
            old(self).wf(),
        ensures
            final(self).wf(),
            r is Ok,
            r matches Ok(s) ==> {
                &&& final(self).state().block_height == block_height
                &&& final(self).state().price_roots@ == height_store_insert(
                    old(self).state().price_roots@,
                    block_height,
                    price_root,
                )
                &&& final(self).state().vaults@ == old(self).state().vaults@
                &&& final(self).state().options@ == old(self).state().options@
                &&& s@ == expiries_due(old(self).state().options@, block_height)
                &&& final(self).state().pending_settlements@ == old(
                    self,
                ).state().pending_settlements@ + s@
            },
    {
        let ghost orig_roots = self.state.price_roots@;
        self.state.block_height = block_height;
        match height_index_of(&self.state.price_roots, block_height) {
            Some(j) => {
                proof {
                    let k = height_index(orig_roots, block_height);
                    assert(orig_roots[k].0 == block_height);
                    assert(k == j as int);
                }
                self.state.price_roots[j] = (block_height, price_root);
            },
            None => {
                self.state.price_roots.push((block_height, price_root));
            },
        }
        proof {
            assert(self.state.price_roots@ == height_store_insert(
                orig_roots,
                block_height,
                price_root,
            ));
            lemma_height_insert_distinct(orig_roots, block_height, price_root);
        }
        let mut settlements = self.check_vault_liquidations(price_root);
        let mut expiries = self.check_option_expiries(block_height);
        let ghost expiries_view = expiries@;
        settlements.append(&mut expiries);
        proof {
            assert(settlements@ =~= expiries_view);
        }
        let ghost pending_before = self.state.pending_settlements@;
        let ghost vaults_snap = self.state.vaults@;
        let ghost options_snap = self.state.options@;
        let ghost roots_snap = self.state.price_roots@;
        let mut k: usize = 0;
        while k < settlements.len()
            invariant
                k <= settlements@.len(),
                self.state.pending_settlements@ == pending_before + settlements@.take(k as int),
                self.state.vaults@ == vaults_snap,
                self.state.options@ == options_snap,
                self.state.price_roots@ == roots_snap,
                self.state.block_height == block_height,
                self.wf(),
            decreases settlements@.len() - k,
        {
            let s = copy_settlement(&settlements[k]);
            self.state.pending_settlements.push(s);
            proof {
                assert(pending_before + settlements@.take(k as int + 1) =~= (pending_before
                    + settlements@.take(k as int)).push(settlements@[k as int]));
            }
            k = k + 1;
        }
        proof {
            assert(settlements@.take(settlements@.len() as int) =~= settlements@);
        }
        Ok(settlements)
    }

    /// The vault-liquidation trigger: a vault breaches when its collateral's
    /// value at the anchored price, divided by its debt, falls below the
    /// vault's required collateral ratio. Extracting prices from the
    /// anchored root is an extension point this machine does not implement,
    /// so no liquidations are reported.
    fn check_vault_liquidations(&self, price_root: [u8; 32]) -> (r: Vec<Settlement>)
        ensures
            r@ == Seq::<Settlement>::empty(),
    {
        let _ = price_root;
        let r: Vec<Settlement> = Vec::new();
        proof {
            assert(r@ =~= Seq::<Settlement>::empty());
        }
        r
    }

    /// The option-expiry trigger: an option is due once the estimated wall
    /// clock — block height times the block interval — reaches its expiry
    /// time.
    fn check_option_expiries(&self, block_height: u64) -> (r: Vec<Settlement>)
        ensures
            r@ == expiries_due(self.state().options@, block_height),
    {
        let options_len = self.state.options.len();
        let ghost all = self.state.options@;
        let current_time: u128 = (block_height as u128) * 600;
        proof {
            assert(current_time == (block_height as int) * (BLOCK_INTERVAL_SECS as int));
        }
        let mut expiries: Vec<Settlement> = Vec::new();
        let mut i: usize = 0;
        while i < options_len
            invariant
                i <= options_len,
                options_len == all.len(),
                all == self.state().options@,
                expiries@ == expiries_due(all.take(i as int), block_height),
                current_time == (block_height as int) * (BLOCK_INTERVAL_SECS as int),
            decreases options_len - i,
        {
            proof {
                assert(all.take(i as int + 1).drop_last() =~= all.take(i as int));
                assert(all.take(i as int + 1).last() == all[i as int]);
            }
            let entry = &self.state.options[i];
            if current_time >= (entry.1.expiry_time as u128) {
                expiries.push(
                    Settlement::OptionExpiry {
                        option_id: entry.0,
                        settlement_price: 0,
                        expiry_time: entry.1.expiry_time,
                    },
                );
            }
            i = i + 1;
        }
        proof {
            assert(all.take(options_len as int) =~= all);
        }
        expiries
    }

    /// Creates a vault under the given identifier, with the default
    /// collateral ratio, recorded at the current block height. An existing
    /// vault under the same identifier is silently overwritten.
    pub fn create_vault(
        &mut self,
        vault_id: VaultId,
        owner: String,
        collateral_amount: u64,
        debt_amount: u64,
    ) -> (r: Result<(), OracleVmError>)
        requires
            old(self).wf(),
        ensures
            final(self).wf(),
            r is Ok,
            final(self).state().vaults@ == id_store_insert(
                old(self).state().vaults@,
                vault_id,
                (VaultState {
                    owner,
                    collateral_amount,
                    debt_amount,
                    collateral_ratio: DEFAULT_COLLATERAL_RATIO_BPS,
                    created_at: old(self).state().block_height,
                }),
            ),
            final(self).state().options@ == old(self).state().options@,
            final(self).state().price_roots@ == old(self).state().price_roots@,
            final(self).state().pending_settlements@ == old(self).state().pending_settlements@,
            final(self).state().block_height == old(self).state().block_height,
    {
        let vault = VaultState {
            owner,
            collateral_amount,
            debt_amount,
            collateral_ratio: DEFAULT_COLLATERAL_RATIO_BPS,
            created_at: self.state.block_height,
        };
        let ghost orig = self.state.vaults@;
        let ghost v = vault;
        match id_index_of(&self.state.vaults, &vault_id) {
            Some(j) => {
                proof {
                    let k = id_key_index(orig, vault_id@);
                    assert(orig[k].0@ == vault_id@);
                    assert(k == j as int);
                }
                self.state.vaults[j] = (vault_id, vault);
            },
            None => {
                self.state.vaults.push((vault_id, vault));
            },
        }
        proof {
            assert(self.state.vaults@ == id_store_insert(orig, vault_id, v));
            lemma_id_insert_distinct(orig, vault_id, v);
        }
        Ok(())
    }

    /// Creates an option contract under the given identifier, with no
    /// holder yet. An existing option under the same identifier is silently
    /// overwritten.
    pub fn create_option(
        &mut self,
        option_id: OptionId,
        writer: String,
        option_type: OptionType,
        strike_price: u64,
        expiry_time: u64,
        collateral_amount: u64,
        premium: u64,
    ) -> (r: Result<(), OracleVmError>)
        requires
            old(self).wf(),
        ensures
            final(self).wf(),
            r is Ok,
            final(self).state().options@ == id_store_insert(
                old(self).state().options@,
                option_id,
                (OptionState {
                    writer,
                    holder: None,
                    option_type,
                    strike_price,
                    expiry_time,
                    collateral_amount,
                    premium,
                }),
            ),
            final(self).state().vaults@ == old(self).state().vaults@,
            final(self).state().price_roots@ == old(self).state().price_roots@,
            final(self).state().pending_settlements@ == old(self).state().pending_settlements@,
            final(self).state().block_height == old(self).state().block_height,
    {
        let option = OptionState {
            writer,
            holder: None,
            option_type,
            strike_price,
            expiry_time,
            collateral_amount,
            premium,
        };
        let ghost orig = self.state.options@;
        let ghost v = option;
        match id_index_of(&self.state.options, &option_id) {
            Some(j) => {
                proof {
                    let k = id_key_index(orig, option_id@);
                    assert(orig[k].0@ == option_id@);
                    assert(k == j as int);
                }
                self.state.options[j] = (option_id, option);
            },
            None => {
                self.state.options.push((option_id, option));
            },
        }
        proof {
            assert(self.state.options@ == id_store_insert(orig, option_id, v));
            lemma_id_insert_distinct(orig, option_id, v);
        }
        Ok(())
    }

    /// Executes a settlement: the referenced vault or option is removed
    /// from its store, unconditionally — executing a settlement whose
    /// entity is already gone is a no-op, not an error.
    ///
    /// Only vault liquidations are also pruned from the pending queue;
    /// executed option expiries stay pending. Consumers of the queue have
    /// come to rely on that asymmetry, so it is documented and kept rather
    /// than silently changed.
    pub fn execute_settlement(&mut self, settlement: Settlement) -> (r: Result<
        (),
        OracleVmError,
    >)
        requires
            old(self).wf(),
        ensures
            final(self).wf(),
            r is Ok,
            settlement matches Settlement::VaultLiquidation { vault_id, .. } ==> {
                &&& final(self).state().vaults@ == id_store_remove(
                    old(self).state().vaults@,
                    vault_id@,
                )
                &&& final(self).state().options@ == old(self).state().options@
            },
            settlement matches Settlement::OptionExpiry { option_id, .. } ==> {
                &&& final(self).state().options@ == id_store_remove(
                    old(self).state().options@,
                    option_id@,
                )
                &&& final(self).state().vaults@ == old(self).state().vaults@
            },
            final(self).state().pending_settlements@ == pending_after_execute(
                old(self).state().pending_settlements@,
                settlement,
            ),
            final(self).state().price_roots@ == old(self).state().price_roots@,
            final(self).state().block_height == old(self).state().block_height,
    {
        let ghost s = settlement;
        match &settlement {
            Settlement::VaultLiquidation { vault_id, .. } => {
                let ghost orig = self.state.vaults@;
                let mut kept: Vec<(VaultId, VaultState)> = Vec::new();
                let mut i: usize = 0;
                while i < self.state.vaults.len()
                    invariant
                        i <= orig.len(),
                        orig == self.state.vaults@,
                        s matches Settlement::VaultLiquidation { vault_id: sv, .. }
                            && sv@ == vault_id@,
                        kept@ == id_store_remove(orig.take(i as int), vault_id@),
                    decreases orig.len() - i,
                {
                    proof {
                        assert(orig.take(i as int + 1).drop_last() =~= orig.take(i as int));
                        assert(orig.take(i as int + 1).last() == orig[i as int]);
                    }
                    if !bytes32_eq(&self.state.vaults[i].0, vault_id) {
                        let entry = (self.state.vaults[i].0, copy_vault_state(
                            &self.state.vaults[i].1,
                        ));
                        proof {
                            assert(entry == orig[i as int]);
                        }
                        kept.push(entry);
                    }
                    i = i + 1;
                }
                proof {
                    assert(orig.take(orig.len() as int) =~= orig);
                    lemma_id_remove_facts(orig, vault_id@);
                }
                self.state.vaults = kept;
            },
            Settlement::OptionExpiry { option_id, .. } => {
                let ghost orig = self.state.options@;
                let mut kept: Vec<(OptionId, OptionState)> = Vec::new();
                let mut i: usize = 0;
                while i < self.state.options.len()
                    invariant
                        i <= orig.len(),
                        orig == self.state.options@,
                        s matches Settlement::OptionExpiry { option_id: so, .. }
                            && so@ == option_id@,
                        kept@ == id_store_remove(orig.take(i as int), option_id@),
                    decreases orig.len() - i,
                {
                    proof {
                        assert(orig.take(i as int + 1).drop_last() =~= orig.take(i as int));
                        assert(orig.take(i as int + 1).last() == orig[i as int]);
                    }
                    if !bytes32_eq(&self.state.options[i].0, option_id) {
                        let entry = (self.state.options[i].0, copy_option_state(
                            &self.state.options[i].1,
                        ));
                        proof {
                            assert(entry == orig[i as int]);
                        }
                        kept.push(entry);
                    }
                    i = i + 1;
                }
                proof {
                    assert(orig.take(orig.len() as int) =~= orig);
                    lemma_id_remove_facts(orig, option_id@);
                }
                self.state.options = kept;
            },
        }
        let ghost pending = self.state.pending_settlements@;
        let mut kept_pending: Vec<Settlement> = Vec::new();
        let mut i: usize = 0;
        while i < self.state.pending_settlements.len()
            invariant
                i <= pending.len(),
                pending == self.state.pending_settlements@,
                s == settlement,
                kept_pending@ == pending_after_execute(pending.take(i as int), s),
            decreases pending.len() - i,
        {
            proof {
                assert(pending.take(i as int + 1).drop_last() =~= pending.take(i as int));
                assert(pending.take(i as int + 1).last() == pending[i as int]);
            }
            let prune = match (&self.state.pending_settlements[i], &settlement) {
                (
                    Settlement::VaultLiquidation { vault_id: a, .. },
                    Settlement::VaultLiquidation { vault_id: b, .. },
                ) => bytes32_eq(a, b),
                _ => false,
            };
            proof {
                assert(prune == settlement_pruned(pending[i as int], s));
            }
            if !prune {
                let entry = copy_settlement(&self.state.pending_settlements[i]);
                kept_pending.push(entry);
            }
            i = i + 1;
        }
        proof {
            assert(pending.take(pending.len() as int) =~= pending);
        }
        self.state.pending_settlements = kept_pending;
        Ok(())
    }
}

impl Default for OracleVM {
    /// Same as [`OracleVM::new`]: a machine at height zero with nothing
    /// stored.
    fn default() -> (r: Self)
        ensures
            r.wf(),
            r.state().block_height == 0,
            r.state().vaults@ == Seq::<(VaultId, VaultState)>::empty(),
            r.state().options@ == Seq::<(OptionId, OptionState)>::empty(),
            r.state().pending_settlements@ == Seq::<Settlement>::empty(),
    {
        OracleVM::new()
    }
}

/// Copies a settlement field by field.
fn copy_settlement(s: &Settlement) -> (r: Settlement)
    ensures
        r == *s,
{
    match s {
        Settlement::VaultLiquidation { vault_id, liquidation_price, timestamp } => {
            Settlement::VaultLiquidation {
                vault_id: *vault_id,
                liquidation_price: *liquidation_price,
                timestamp: *timestamp,
            }
        },
        Settlement::OptionExpiry { option_id, settlement_price, expiry_time } => {
            Settlement::OptionExpiry {
                option_id: *option_id,
                settlement_price: *settlement_price,
                expiry_time: *expiry_time,
            }
        },
    }
}

/// Copies a vault state field by field.
fn copy_vault_state(v: &VaultState) -> (r: VaultState)
    ensures
        r == *v,
{
    VaultState {
        owner: v.owner.clone(),
        collateral_amount: v.collateral_amount,
        debt_amount: v.debt_amount,
        collateral_ratio: v.collateral_ratio,
        created_at: v.created_at,
    }
}

/// Copies an option state field by field.
fn copy_option_state(o: &OptionState) -> (r: OptionState)
    ensures
        r == *o,
{
    OptionState {
        writer: o.writer.clone(),
        holder: match &o.holder {
            Some(h) => Some(h.clone()),
            None => None,
        },
        option_type: match o.option_type {
            OptionType::Call => OptionType::Call,
            OptionType::Put => OptionType::Put,
        },
        strike_price: o.strike_price,
        expiry_time: o.expiry_time,
        collateral_amount: o.collateral_amount,
        premium: o.premium,
    }
}

} // verus!
