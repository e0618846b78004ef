use vstd::prelude::*;

use crate::errors::EscrowError;
use crate::state::{
    CANONICAL_SALT, EscrowRecord, Ledger, LedgerView, Vault, derive_record_address,
    derive_vault_address, lemma_balance_key_injective, record_address, vault_address,
};

verus! {

broadcast use lemma_balance_key_injective;

/// When an `open` succeeds: a positive deposit, a fresh record
/// address, and enough maker funds to cover the deposit.
pub open spec fn make_ok(
    v: LedgerView,
    maker: u64,
    identifier: u64,
    asset_offered: u64,
    amount_offered: u64,
) -> bool {
    &&& amount_offered > 0
    &&& !v.records.contains_key(record_address(maker, identifier))
    &&& v.balance(maker, asset_offered) >= amount_offered
}

/// The ledger after a successful `open`: the maker's deposit moves
/// into a fresh vault, and a fresh record binds the two.
pub open spec fn make_post(
    v: LedgerView,
    maker: u64,
    identifier: u64,
    asset_offered: u64,
    amount_offered: u64,
    asset_requested: u64,
    amount_requested: u64,
) -> LedgerView {
    let addr = record_address(maker, identifier);
    let rec = EscrowRecord {
        identifier,
        maker,
        asset_offered,
        asset_requested,
        amount_offered,
        amount_requested,
        derivation_salt: CANONICAL_SALT,
    };
    LedgerView {
        balances: v.debit(maker, asset_offered, amount_offered).balances,
        records: v.records.insert(addr, rec),
        vaults: v.vaults.insert(vault_address(addr), Vault { asset: asset_offered, balance: amount_offered }),
    }
}

/// When a `fulfill` succeeds: the record is still open and the taker
/// can pay the requested quantity.
pub open spec fn take_ok(v: LedgerView, taker: u64, rec_address: u128) -> bool {
    &&& v.records.contains_key(rec_address)
    &&& v.balance(taker, v.records[rec_address].asset_requested) >= v.records[
        rec_address
    ].amount_requested
}

/// The ledger after a successful `fulfill`: the taker pays the maker
/// the requested quantity, the vault's deposit goes to the taker, and
/// record and vault are both gone.
pub open spec fn take_post(v: LedgerView, taker: u64, rec_address: u128) -> LedgerView {
    let rec = v.records[rec_address];
    let paid = v.debit(taker, rec.asset_requested, rec.amount_requested).credit(
        rec.maker,
        rec.asset_requested,
        rec.amount_requested,
    ).credit(taker, rec.asset_offered, rec.amount_offered);
    LedgerView {
        balances: paid.balances,
        records: v.records.remove(rec_address),
        vaults: v.vaults.remove(vault_address(rec_address)),
    }
}

/// The machine limit on a `fulfill`: the two balances it credits must
/// stay within 64 bits.  Anything a successful call debits is covered
/// by the taker's own balance, so only the credits need a bound.
pub open spec fn take_fits(v: LedgerView, taker: u64, rec_address: u128) -> bool {
    take_ok(v, taker, rec_address) ==> {
        let rec = v.records[rec_address];
        let v1 = v.debit(taker, rec.asset_requested, rec.amount_requested);
        let v2 = v1.credit(rec.maker, rec.asset_requested, rec.amount_requested);
        &&& v1.balance(rec.maker, rec.asset_requested) + rec.amount_requested <= u64::MAX
        &&& v2.balance(taker, rec.asset_offered) + rec.amount_offered <= u64::MAX
    }
}

/// When a `cancel` succeeds: the record is still open and the caller
/// is its maker.
pub open spec fn refund_ok(v: LedgerView, caller: u64, rec_address: u128) -> bool {
    &&& v.records.contains_key(rec_address)
    &&& v.records[rec_address].maker == caller
}

/// The ledger after a successful `cancel`: the deposit returns to the
/// maker, and record and vault are both gone.
pub open spec fn refund_post(v: LedgerView, rec_address: u128) -> LedgerView {
    let rec = v.records[rec_address];
    LedgerView {
        balances: v.credit(rec.maker, rec.asset_offered, rec.amount_offered).balances,
        records: v.records.remove(rec_address),
        vaults: v.vaults.remove(vault_address(rec_address)),
    }
}

/// The machine limit on a `cancel`: the maker's refunded balance must
/// stay within 64 bits.
pub open spec fn refund_fits(v: LedgerView, caller: u64, rec_address: u128) -> bool {
    refund_ok(v, caller, rec_address) ==> v.balance(
        v.records[rec_address].maker,
        v.records[rec_address].asset_offered,
    ) + v.records[rec_address].amount_offered <= u64::MAX
}

/// The offer lifecycle controller: the three operations that create,
/// consume, and reverse a record.  Each runs as one atomic unit: every
/// check happens before any mutation it guards, and a rejected call
/// leaves the ledger untouched.
impl Ledger {
    /// Opens an offer: creates the record at the address derived from
    /// `(maker, identifier)`, creates the vault bound to
    /// `asset_offered`, and moves `amount_offered` from the maker into
    /// the vault.
    pub fn make(
        &mut self,
        maker: u64,
        identifier: u64,
        asset_offered: u64,
        amount_offered: u64,
        asset_requested: u64,
        amount_requested: u64,
    ) -> (r: Result<(), EscrowError>)
        requires
            old(self).wf(),
        ensures
            final(self).wf(),
            r is Ok <==> make_ok(old(self)@, maker, identifier, asset_offered, amount_offered),
            r is Ok ==> final(self)@ == make_post(
                old(self)@,
                maker,
                identifier,
                asset_offered,
                amount_offered,
                asset_requested,
                amount_requested,
            ),
            r is Err ==> final(self)@ == old(self)@,
            amount_offered == 0 ==> r == Err::<(), EscrowError>(EscrowError::InvalidAmount),
            amount_offered > 0 && old(self)@.records.contains_key(
                record_address(maker, identifier),
            ) ==> r == Err::<(), EscrowError>(EscrowError::DuplicateOffer),
            amount_offered > 0 && !old(self)@.records.contains_key(
                record_address(maker, identifier),
            ) && old(self)@.balance(maker, asset_offered) < amount_offered ==> r == Err::<
                (),
                EscrowError,
            >(EscrowError::InsufficientFunds),
            r is Ok ==> {
                let addr = record_address(maker, identifier);
                &&& final(self)@.records.contains_key(addr)
                &&& final(self)@.vaults.contains_key(vault_address(addr))
                &&& final(self)@.vaults[vault_address(addr)] == (Vault {
                    asset: asset_offered,
                    balance: amount_offered,
                })
                &&& final(self)@.balance(maker, asset_offered) == old(self)@.balance(
                    maker,
                    asset_offered,
                ) - amount_offered
            },
    {
        if amount_offered == 0 {
            return Err(EscrowError::InvalidAmount);
        }
        let rec_addr = derive_record_address(maker, identifier);
        if self.has_record(rec_addr) {
            return Err(EscrowError::DuplicateOffer);
        }
        let v_addr = derive_vault_address(rec_addr);
        match self.create_and_fund(v_addr, asset_offered, amount_offered, maker) {
            Ok(()) => {},
            Err(e) => {
                return Err(e);
            },
        }
        let rec = EscrowRecord {
            identifier,
            maker,
            asset_offered,
            asset_requested,
            amount_offered,
            amount_requested,
            derivation_salt: CANONICAL_SALT,
        };
        self.put_record(rec_addr, rec);
        proof {
            let v0 = old(self)@;
            let v1 = self@;
            let addr = record_address(maker, identifier);
            assert(v1 =~= make_post(
                v0,
                maker,
                identifier,
                asset_offered,
                amount_offered,
                asset_requested,
                amount_requested,
            ));
            assert forall|a: u128| #[trigger] v1.records.contains_key(a) implies {
                let r0 = v1.records[a];
                &&& v1.vaults.contains_key(a)
                &&& v1.vaults[a].asset == r0.asset_offered
                &&& v1.vaults[a].balance == r0.amount_offered
                &&& r0.amount_offered > 0
                &&& a == record_address(r0.maker, r0.identifier)
                &&& r0.derivation_salt == CANONICAL_SALT
            } by {
                if a != addr {
                    assert(v0.records.contains_key(a));
                }
            }
            assert forall|a: u128| #[trigger] v1.vaults.contains_key(a) implies v1
                .records.contains_key(a) by {
                if a != addr {
                    assert(v0.vaults.contains_key(a));
                }
            }
        }
        Ok(())
    }

    /// Fulfills the offer recorded at `rec_address`: the taker pays
    /// the maker `amount_requested` of `asset_requested`, receives the
    /// vault's whole deposit, and record and vault are deleted.  A
    /// second fulfill or cancel racing on the same record finds no
    /// record and fails with `RecordNotFound`.
    pub fn take(&mut self, taker: u64, rec_address: u128) -> (r: Result<(), EscrowError>)
        requires
            old(self).wf(),
            take_fits(old(self)@, taker, rec_address),
        ensures
            final(self).wf(),
            r is Ok <==> take_ok(old(self)@, taker, rec_address),
            r is Ok ==> final(self)@ == take_post(old(self)@, taker, rec_address),
            r is Err ==> final(self)@ == old(self)@,
            !old(self)@.records.contains_key(rec_address) ==> r == Err::<(), EscrowError>(
                EscrowError::RecordNotFound,
            ),
            old(self)@.records.contains_key(rec_address) && old(self)@.balance(
                taker,
                old(self)@.records[rec_address].asset_requested,
            ) < old(self)@.records[rec_address].amount_requested ==> r == Err::<(), EscrowError>(
                EscrowError::InsufficientFunds,
            ),
            r is Ok ==> {
                let rec = old(self)@.records[rec_address];
                &&& !final(self)@.records.contains_key(rec_address)
                &&& !final(self)@.vaults.contains_key(vault_address(rec_address))
                &&& (taker != rec.maker && rec.asset_offered != rec.asset_requested ==> {
                    &&& final(self)@.balance(taker, rec.asset_requested) == old(self)@.balance(
                        taker,
                        rec.asset_requested,
                    ) - rec.amount_requested
                    &&& final(self)@.balance(rec.maker, rec.asset_requested) == old(
                        self,
                    )@.balance(rec.maker, rec.asset_requested) + rec.amount_requested
                    &&& final(self)@.balance(taker, rec.asset_offered) == old(self)@.balance(
                        taker,
                        rec.asset_offered,
                    ) + rec.amount_offered
                })
            },
    {
        let rec = match self.get_record(rec_address) {
            Some(rec) => rec,
            None => {
                return Err(EscrowError::RecordNotFound);
            },
        };
        let taker_funds = self.balance_of(taker, rec.asset_requested);
        if taker_funds < rec.amount_requested {
            return Err(EscrowError::InsufficientFunds);
        }
        let ghost v0 = old(self)@;
        // (a) the taker pays the maker the requested quantity
        self.set_balance(taker, rec.asset_requested, taker_funds - rec.amount_requested);
        let maker_funds = self.balance_of(rec.maker, rec.asset_requested);
        proof {
            assert(self@.balances =~= v0.debit(
                taker,
                rec.asset_requested,
                rec.amount_requested,
            ).balances);
        }
        self.set_balance(rec.maker, rec.asset_requested, maker_funds + rec.amount_requested);
        // (b) the vault's whole deposit is released to the taker
        let v_addr = derive_vault_address(rec_address);
        proof {
            assert(self@.balances =~= v0.debit(taker, rec.asset_requested, rec.amount_requested)
                .credit(rec.maker, rec.asset_requested, rec.amount_requested).balances);
        }
        match self.release(v_addr, taker, rec.amount_offered) {
            Ok(()) => {},
            Err(e) => {
                return Err(e);
            },
        }
        // (c) the empty vault is closed
        match self.close(v_addr) {
            Ok(()) => {},
            Err(e) => {
                return Err(e);
            },
        }
        // (d) the record is deleted: absence is the terminal marker
        self.delete_record(rec_address);
        proof {
            let v1 = self@;
            assert(v1.vaults =~= v0.vaults.remove(vault_address(rec_address)));
            assert(v1 =~= take_post(v0, taker, rec_address));
            assert forall|a: u128| #[trigger] v1.records.contains_key(a) implies {
                let r0 = v1.records[a];
                &&& v1.vaults.contains_key(a)
                &&& v1.vaults[a].asset == r0.asset_offered
                &&& v1.vaults[a].balance == r0.amount_offered
                &&& r0.amount_offered > 0
                &&& a == record_address(r0.maker, r0.identifier)
                &&& r0.derivation_salt == CANONICAL_SALT
            } by {
                assert(v0.records.contains_key(a));
            }
            assert forall|a: u128| #[trigger] v1.vaults.contains_key(a) implies v1
                .records.contains_key(a) by {
                assert(v0.vaults.contains_key(a));
            }
        }
        Ok(())
    }

    /// Cancels the offer recorded at `rec_address`: only the maker may
    /// do so; the vault's whole deposit returns to the maker, and
    /// record and vault are deleted.
    pub fn refund(&mut self, caller: u64, rec_address: u128) -> (r: Result<(), EscrowError>)
        requires
            old(self).wf(),
            refund_fits(old(self)@, caller, rec_address),
        ensures
            final(self).wf(),
            r is Ok <==> refund_ok(old(self)@, caller, rec_address),
            r is Ok ==> final(self)@ == refund_post(old(self)@, rec_address),
            r is Err ==> final(self)@ == old(self)@,
            !old(self)@.records.contains_key(rec_address) ==> r == Err::<(), EscrowError>(
                EscrowError::RecordNotFound,
            ),
            old(self)@.records.contains_key(rec_address) && old(self)@.records[
                rec_address
            ].maker != caller ==> r == Err::<(), EscrowError>(EscrowError::Unauthorized),
            r is Ok ==> {
                let rec = old(self)@.records[rec_address];
                &&& !final(self)@.records.contains_key(rec_address)
                &&& !final(self)@.vaults.contains_key(vault_address(rec_address))
                &&& final(self)@.balance(caller, rec.asset_offered) == old(self)@.balance(
                    caller,
                    rec.asset_offered,
                ) + rec.amount_offered
            },
    {
        let rec = match self.get_record(rec_address) {
            Some(rec) => rec,
            None => {
                return Err(EscrowError::RecordNotFound);
            },
        };
        if caller != rec.maker {
            return Err(EscrowError::Unauthorized);
        }
        let ghost v0 = old(self)@;
        let v_addr = derive_vault_address(rec_address);
        match self.release(v_addr, rec.maker, rec.amount_offered) {
            Ok(()) => {},
            Err(e) => {
                return Err(e);
            },
        }
        match self.close(v_addr) {
            Ok(()) => {},
            Err(e) => {
                return Err(e);
            },
        }
        self.delete_record(rec_address);
        proof {
            let v1 = self@;
            assert(v1.vaults =~= v0.vaults.remove(vault_address(rec_address)));
            assert(v1 =~= refund_post(v0, rec_address));
            assert forall|a: u128| #[trigger] v1.records.contains_key(a) implies {
                let r0 = v1.records[a];
                &&& v1.vaults.contains_key(a)
                &&& v1.vaults[a].asset == r0.asset_offered
                &&& v1.vaults[a].balance == r0.amount_offered
                &&& r0.amount_offered > 0
                &&& a == record_address(r0.maker, r0.identifier)
                &&& r0.derivation_salt == CANONICAL_SALT
            } by {
                assert(v0.records.contains_key(a));
            }
            assert forall|a: u128| #[trigger] v1.vaults.contains_key(a) implies v1
                .records.contains_key(a) by {
                assert(v0.vaults.contains_key(a));
            }
        }
        Ok(())
    }
}

/// Terminal transitions are mutually exclusive.  A successful fulfill
/// or cancel deletes the record, and absence of the record is the
/// terminal marker: in the settled ledger neither a fulfill by any
/// party nor a cancel by any party can succeed on the same address
/// again — by the controller's contracts such a call fails with
/// `RecordNotFound` and leaves the ledger unchanged.
pub proof fn lemma_settled_record_is_gone(
    v: LedgerView,
    taker: u64,
    anyone: u64,
    rec_address: u128,
)
    ensures
        !take_ok(take_post(v, taker, rec_address), anyone, rec_address),
        !refund_ok(take_post(v, taker, rec_address), anyone, rec_address),
        !take_ok(refund_post(v, rec_address), anyone, rec_address),
        !refund_ok(refund_post(v, rec_address), anyone, rec_address),
{
}

/// Opening an offer and then cancelling it is neutral: the cancel is
/// always permitted to the maker and cannot overflow, and the ledger
/// returns to its pre-open state — the record and vault stores are
/// exactly as before, and every holder's balance of every asset is
/// unchanged.
pub proof fn lemma_make_then_refund_neutral(
    v: LedgerView,
    maker: u64,
    identifier: u64,
    asset_offered: u64,
    amount_offered: u64,
    asset_requested: u64,
    amount_requested: u64,
)
    requires
        v.wf(),
        make_ok(v, maker, identifier, asset_offered, amount_offered),
    ensures
        ({
            let addr = record_address(maker, identifier);
            let opened = make_post(
                v,
                maker,
                identifier,
                asset_offered,
                amount_offered,
                asset_requested,
                amount_requested,
            );
            &&& refund_ok(opened, maker, addr)
            &&& refund_fits(opened, maker, addr)
            &&& refund_post(opened, addr).records == v.records
            &&& refund_post(opened, addr).vaults == v.vaults
            &&& forall|holder: u64, asset: u64| #[trigger]
                refund_post(opened, addr).balance(holder, asset) == v.balance(holder, asset)
        }),
{
    let addr = record_address(maker, identifier);
    let opened = make_post(
        v,
        maker,
        identifier,
        asset_offered,
        amount_offered,
        asset_requested,
        amount_requested,
    );
    let end = refund_post(opened, addr);
    assert(!v.vaults.contains_key(vault_address(addr)));
    assert(end.records =~= v.records);
    assert(end.vaults =~= v.vaults);
    assert forall|holder: u64, asset: u64| #[trigger]
        end.balance(holder, asset) == v.balance(holder, asset) by {
        lemma_balance_key_injective(holder, asset, maker, asset_offered);
    }
}

} // verus!
