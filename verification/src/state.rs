use vstd::prelude::*;

verus! {

broadcast use vstd::std_specs::hash::group_hash_axioms;

/// The width of one 64-bit component inside a packed 128-bit key.
pub const KEY_SPAN: u128 = 0x1_0000_0000_0000_0000;

/// The auxiliary derivation input stored in every record.  The
/// concatenation scheme used here lands on a valid key for every
/// `(maker, identifier)` pair, so the canonical salt is always zero;
/// the field is kept in the schema so that a record always carries
/// everything needed to re-derive its own addresses.
pub const CANONICAL_SALT: u8 = 0;

/// Packs two 64-bit components into one 128-bit key by concatenation.
/// The packing is injective, so distinct pairs can never collide
/// (`lemma_pair_key_injective`).
pub open spec fn pair_key(hi: u64, lo: u64) -> u128 {
    ((hi as u128) * KEY_SPAN + (lo as u128)) as u128
}

/// The packed key is the exact mathematical concatenation: the sum
/// fits in 128 bits, so the narrowing cast in `pair_key` never wraps.
pub proof fn lemma_pair_key_exact(hi: u64, lo: u64)
    ensures
        pair_key(hi, lo) == (hi as int) * (KEY_SPAN as int) + (lo as int),
{
    assert(0 <= (hi as int) * (KEY_SPAN as int) + (lo as int) <= u128::MAX) by (nonlinear_arith);
}

/// The storage address of the record for one offer: a deterministic,
/// collision-free function of the maker and the maker-chosen
/// identifier, so any party can re-derive it without a lookup table.
pub open spec fn record_address(maker: u64, identifier: u64) -> u128 {
    pair_key(maker, identifier)
}

/// The storage address of the vault bound to a record.  Vaults live in
/// a store of their own, keyed by the owning record's address, so the
/// derivation is the identity on that separate namespace.
pub open spec fn vault_address(rec_address: u128) -> u128 {
    rec_address
}

/// The key under which one holder's balance of one asset is stored.
pub open spec fn balance_key(holder: u64, asset: u64) -> u128 {
    pair_key(holder, asset)
}

/// Packing two 64-bit components into a 128-bit key never collides:
/// equal keys come from equal components.
pub broadcast proof fn lemma_pair_key_injective(x1: u64, y1: u64, x2: u64, y2: u64)
    ensures
        #![trigger pair_key(x1, y1), pair_key(x2, y2)]
        pair_key(x1, y1) == pair_key(x2, y2) ==> (x1 == x2 && y1 == y2),
{
    lemma_pair_key_exact(x1, y1);
    lemma_pair_key_exact(x2, y2);
    assert(((x1 as int) * (KEY_SPAN as int) + (y1 as int) == (x2 as int) * (KEY_SPAN as int) + (
    y2 as int) && y1 < KEY_SPAN && y2 < KEY_SPAN) ==> (x1 == x2 && y1 == y2)) by (nonlinear_arith);
}

/// Distinct `(holder, asset)` pairs always use distinct balance-store
/// keys: no two balances can share an entry.
pub broadcast proof fn lemma_balance_key_injective(h1: u64, a1: u64, h2: u64, a2: u64)
    ensures
        #![trigger balance_key(h1, a1), balance_key(h2, a2)]
        balance_key(h1, a1) == balance_key(h2, a2) ==> (h1 == h2 && a1 == a2),
{
    lemma_pair_key_injective(h1, a1, h2, a2);
}

/// Distinct `(maker, identifier)` pairs always derive distinct record
/// addresses, and equal pairs derive equal addresses: no maker can
/// forge or collide with another maker's offer.
pub proof fn lemma_record_address_collision_free(m1: u64, i1: u64, m2: u64, i2: u64)
    ensures
        record_address(m1, i1) == record_address(m2, i2) <==> (m1 == m2 && i1 == i2),
{
    lemma_pair_key_injective(m1, i1, m2, i2);
}

/// Computes the record address for `(maker, identifier)`.
pub fn derive_record_address(maker: u64, identifier: u64) -> (addr: u128)
    ensures
        addr == record_address(maker, identifier),
{
    proof {
        lemma_pair_key_exact(maker, identifier);
        assert((maker as int) * (KEY_SPAN as int) + (identifier as int) <= u128::MAX)
            by (nonlinear_arith);
    }
    (maker as u128) * KEY_SPAN + (identifier as u128)
}

/// Computes the vault address bound to a record address.
pub fn derive_vault_address(rec_address: u128) -> (addr: u128)
    ensures
        addr == vault_address(rec_address),
{
    rec_address
}

/// One open offer: the persistent statement "maker deposited
/// `amount_offered` of `asset_offered` and wants `amount_requested` of
/// `asset_requested` in return".  A record is immutable after
/// creation; the only further write is its deletion by a terminal
/// operation, so absence of the record is the terminal marker.
#[derive(Clone, Copy, Debug, PartialEq, Eq, Structural)]
pub struct EscrowRecord {
    /// The maker-chosen discriminator that lets one maker keep several
    /// simultaneous offers; part of the record-address derivation.
    pub identifier: u64,
    /// The address that opened the offer; the only address permitted
    /// to cancel it.
    pub maker: u64,
    /// The asset type deposited into the vault.
    pub asset_offered: u64,
    /// The asset type the taker must supply.
    pub asset_requested: u64,
    /// The quantity of `asset_offered` held in custody.
    pub amount_offered: u64,
    /// The quantity of `asset_requested` owed by a taker.
    pub amount_requested: u64,
    /// The auxiliary input needed to re-derive the record's and the
    /// vault's addresses; always `CANONICAL_SALT` under the
    /// concatenation scheme.
    pub derivation_salt: u8,
}

/// The custody account bound to one record: it holds exactly one
/// asset type, and only the lifecycle operations can move its funds.
#[derive(Clone, Copy, Debug, PartialEq, Eq, Structural)]
pub struct Vault {
    /// The one asset type this vault holds.
    pub asset: u64,
    /// The quantity currently in custody.
    pub balance: u64,
}

/// The mathematical model of the whole ledger: holder balances keyed
/// by `balance_key`, and the record and vault stores keyed by the
/// derived record address.
#[verifier::ext_equal]
pub struct LedgerView {
    /// `balance_key(holder, asset)` maps to that holder's balance of
    /// that asset; an absent key means a balance of zero.
    pub balances: Map<u128, u64>,
    /// One record per open offer, at its derived address.
    pub records: Map<u128, EscrowRecord>,
    /// One vault per open offer, keyed by the owning record's address.
    pub vaults: Map<u128, Vault>,
}

impl LedgerView {
    /// How much of `asset` the holder owns; zero when no entry exists.
    pub open spec fn balance(self, holder: u64, asset: u64) -> u64 {
        if self.balances.contains_key(balance_key(holder, asset)) {
            self.balances[balance_key(holder, asset)]
        } else {
            0
        }
    }

    /// The ledger after adding `amount` to one holder's balance of one
    /// asset.  Meaningful only when the new balance fits in 64 bits.
    pub open spec fn credit(self, holder: u64, asset: u64, amount: u64) -> LedgerView {
        LedgerView {
            balances: self.balances.insert(
                balance_key(holder, asset),
                (self.balance(holder, asset) + amount) as u64,
            ),
            ..self
        }
    }

    /// The ledger after removing `amount` from one holder's balance of
    /// one asset.  Meaningful only when the holder owns at least
    /// `amount`.
    pub open spec fn debit(self, holder: u64, asset: u64, amount: u64) -> LedgerView {
        LedgerView {
            balances: self.balances.insert(
                balance_key(holder, asset),
                (self.balance(holder, asset) - amount) as u64,
            ),
            ..self
        }
    }

    /// The ledger's invariant.  A record exists iff its vault exists;
    /// the vault holds exactly the offered asset in exactly the
    /// recorded quantity (no independent path may change one without
    /// the other); every open offer is for a positive quantity; and
    /// every record sits at the address derived from its own maker and
    /// identifier, carrying the canonical salt.
    pub open spec fn wf(self) -> bool {
        &&& forall|addr: u128| #[trigger]
            self.vaults.contains_key(addr) ==> self.records.contains_key(addr)
        &&& forall|addr: u128| #[trigger] self.records.contains_key(addr) ==> {
            let rec = self.records[addr];
            &&& self.vaults.contains_key(addr)
            &&& self.vaults[addr].asset == rec.asset_offered
            &&& self.vaults[addr].balance == rec.amount_offered
            &&& rec.amount_offered > 0
            &&& addr == record_address(rec.maker, rec.identifier)
            &&& rec.derivation_salt == CANONICAL_SALT
        }
    }
}

/// The ledger: balances of every holder, plus the record and vault
/// stores.  All mutation goes through the lifecycle operations (and
/// `mint`, which stands for the external asset source crediting a
/// holder).
pub struct Ledger {
    pub(crate) balances: std::collections::HashMap<u128, u64>,
    pub(crate) records: std::collections::HashMap<u128, EscrowRecord>,
    pub(crate) vaults: std::collections::HashMap<u128, Vault>,
}

impl View for Ledger {
    type V = LedgerView;

    closed spec fn view(&self) -> LedgerView {
        LedgerView { balances: self.balances@, records: self.records@, vaults: self.vaults@ }
    }
}

impl Ledger {
    /// The executable ledger is well-formed exactly when its model is.
    pub open spec fn wf(self) -> bool {
        self@.wf()
    }

    /// An empty ledger: no balances, no records, no vaults.
    pub fn new() -> (ledger: Ledger)
        ensures
            ledger.wf(),
            ledger@.balances == Map::<u128, u64>::empty(),
            ledger@.records == Map::<u128, EscrowRecord>::empty(),
            ledger@.vaults == Map::<u128, Vault>::empty(),
    {
        Ledger {
            balances: std::collections::HashMap::new(),
            records: std::collections::HashMap::new(),
            vaults: std::collections::HashMap::new(),
        }
    }

    /// Credits `amount` of `asset` to `holder`, standing for the
    /// external asset source (out of scope of the escrow itself)
    /// supplying funds.  The new balance must fit in 64 bits.
    pub fn mint(&mut self, holder: u64, asset: u64, amount: u64)
        requires
            old(self).wf(),
            old(self)@.balance(holder, asset) + amount <= u64::MAX,
        ensures
            final(self).wf(),
            final(self)@ == old(self)@.credit(holder, asset, amount),
    {
        let key = derive_balance_key(holder, asset);
        let current = self.balance_of(holder, asset);
        self.balances.insert(key, current + amount);
        proof {
            assert(self@ =~= old(self)@.credit(holder, asset, amount));
        }
    }

    /// Reads one holder's balance of one asset.
    pub fn balance_of(&self, holder: u64, asset: u64) -> (amount: u64)
        ensures
            amount == self@.balance(holder, asset),
    {
        let key = derive_balance_key(holder, asset);
        match self.balances.get(&key) {
            Some(amount) => *amount,
            None => 0,
        }
    }

    /// Whether an open record exists at the given address.
    pub fn has_record(&self, rec_address: u128) -> (present: bool)
        ensures
            present == self@.records.contains_key(rec_address),
    {
        self.records.contains_key(&rec_address)
    }

    /// Reads the record at the given address, if one is open.
    pub fn get_record(&self, rec_address: u128) -> (rec: Option<EscrowRecord>)
        ensures
            match rec {
                Some(r) => self@.records.contains_key(rec_address) && r == self@.records[rec_address],
                None => !self@.records.contains_key(rec_address),
            },
    {
        match self.records.get(&rec_address) {
            Some(r) => Some(*r),
            None => None,
        }
    }

    /// Reads the vault at the given address, if one exists.
    pub fn get_vault(&self, v_address: u128) -> (vault: Option<Vault>)
        ensures
            match vault {
                Some(v) => self@.vaults.contains_key(v_address) && v == self@.vaults[v_address],
                None => !self@.vaults.contains_key(v_address),
            },
    {
        match self.vaults.get(&v_address) {
            Some(v) => Some(*v),
            None => None,
        }
    }

    /// Overwrites one holder's balance entry of one asset.
    pub(crate) fn set_balance(&mut self, holder: u64, asset: u64, amount: u64)
        ensures
            final(self)@.balances == old(self)@.balances.insert(
                balance_key(holder, asset),
                amount,
            ),
            final(self)@.records == old(self)@.records,
            final(self)@.vaults == old(self)@.vaults,
    {
        let key = derive_balance_key(holder, asset);
        self.balances.insert(key, amount);
    }

    /// Writes the vault entry at `v_address`.
    pub(crate) fn put_vault(&mut self, v_address: u128, vault: Vault)
        ensures
            final(self)@.vaults == old(self)@.vaults.insert(v_address, vault),
            final(self)@.balances == old(self)@.balances,
            final(self)@.records == old(self)@.records,
    {
        self.vaults.insert(v_address, vault);
    }

    /// Deletes the vault entry at `v_address`.
    pub(crate) fn delete_vault(&mut self, v_address: u128)
        ensures
            final(self)@.vaults == old(self)@.vaults.remove(v_address),
            final(self)@.balances == old(self)@.balances,
            final(self)@.records == old(self)@.records,
    {
        self.vaults.remove(&v_address);
    }

    /// Writes the record entry at `rec_address`.
    pub(crate) fn put_record(&mut self, rec_address: u128, rec: EscrowRecord)
        ensures
            final(self)@.records == old(self)@.records.insert(rec_address, rec),
            final(self)@.balances == old(self)@.balances,
            final(self)@.vaults == old(self)@.vaults,
    {
        self.records.insert(rec_address, rec);
    }

    /// Deletes the record entry at `rec_address`.
    pub(crate) fn delete_record(&mut self, rec_address: u128)
        ensures
            final(self)@.records == old(self)@.records.remove(rec_address),
            final(self)@.balances == old(self)@.balances,
            final(self)@.vaults == old(self)@.vaults,
    {
        self.records.remove(&rec_address);
    }
}

/// Computes the balance-store key for `(holder, asset)`.
fn derive_balance_key(holder: u64, asset: u64) -> (key: u128)
    ensures
        key == balance_key(holder, asset),
{
    proof {
        lemma_pair_key_exact(holder, asset);
        assert((holder as int) * (KEY_SPAN as int) + (asset as int) <= u128::MAX)
            by (nonlinear_arith);
    }
    (holder as u128) * KEY_SPAN + (asset as u128)
}

} // verus!
