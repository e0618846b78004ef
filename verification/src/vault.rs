use vstd::prelude::*;

use crate::errors::EscrowError;
use crate::state::{Ledger, Vault};

verus! {

/// The custody choreography: funds move in and out of a vault only
/// through these crate-internal operations, driven by the lifecycle
/// controller after it has validated the corresponding record.  No
/// public caller can authorize an outflow directly.
impl Ledger {
    /// Creates the vault at `v_address`, bound to `asset`, and funds
    /// it with `amount` taken from `from`'s holdings.
    pub(crate) fn create_and_fund(
        &mut self,
        v_address: u128,
        asset: u64,
        amount: u64,
        from: u64,
    ) -> (r: Result<(), EscrowError>)
        ensures
            r is Ok <==> (!old(self)@.vaults.contains_key(v_address) && old(self)@.balance(
                from,
                asset,
            ) >= amount),
            old(self)@.vaults.contains_key(v_address) ==> r == Err::<(), EscrowError>(
                EscrowError::AccountAlreadyExists,
            ),
            !old(self)@.vaults.contains_key(v_address) && old(self)@.balance(from, asset) < amount
                ==> r == Err::<(), EscrowError>(EscrowError::InsufficientFunds),
            r is Ok ==> {
                &&& final(self)@.balances == old(self)@.debit(from, asset, amount).balances
                &&& final(self)@.records == old(self)@.records
                &&& final(self)@.vaults == old(self)@.vaults.insert(
                    v_address,
                    (Vault { asset, balance: amount }),
                )
            },
            r is Err ==> final(self)@ == old(self)@,
    {
        if self.get_vault(v_address).is_some() {
            return Err(EscrowError::AccountAlreadyExists);
        }
        let funds = self.balance_of(from, asset);
        if funds < amount {
            return Err(EscrowError::InsufficientFunds);
        }
        self.set_balance(from, asset, funds - amount);
        self.put_vault(v_address, Vault { asset, balance: amount });
        Ok(())
    }

    /// Transfers `amount` out of the vault at `v_address` into `to`'s
    /// holdings of the vault's asset.  The caller has already derived
    /// the vault from a validated record, which is the only authority
    /// over the outflow; the balance check is defensive.
    pub(crate) fn release(&mut self, v_address: u128, to: u64, amount: u64) -> (r: Result<
        (),
        EscrowError,
    >)
        requires
            old(self)@.vaults.contains_key(v_address),
            old(self)@.balance(to, old(self)@.vaults[v_address].asset) + amount <= u64::MAX,
        ensures
            r is Ok <==> amount <= old(self)@.vaults[v_address].balance,
            r is Ok ==> {
                let vault = old(self)@.vaults[v_address];
                &&& final(self)@.balances == old(self)@.credit(to, vault.asset, amount).balances
                &&& final(self)@.records == old(self)@.records
                &&& final(self)@.vaults == old(self)@.vaults.insert(
                    v_address,
                    (Vault { asset: vault.asset, balance: (vault.balance - amount) as u64 }),
                )
            },
            r is Err ==> final(self)@ == old(self)@ && r == Err::<(), EscrowError>(
                EscrowError::InsufficientFunds,
            ),
    {
        let vault = match self.get_vault(v_address) {
            Some(v) => v,
            None => {
                return Err(EscrowError::InsufficientFunds);
            },
        };
        if vault.balance < amount {
            return Err(EscrowError::InsufficientFunds);
        }
        let receiving = self.balance_of(to, vault.asset);
        self.set_balance(to, vault.asset, receiving + amount);
        self.put_vault(v_address, Vault { asset: vault.asset, balance: vault.balance - amount });
        Ok(())
    }

    /// Closes the vault at `v_address` once its balance is zero.  The
    /// storage slot is reclaimed; deposit bookkeeping itself lives in
    /// the surrounding runtime, outside this model.
    pub(crate) fn close(&mut self, v_address: u128) -> (r: Result<(), EscrowError>)
        requires
            old(self)@.vaults.contains_key(v_address),
        ensures
            r is Ok <==> old(self)@.vaults[v_address].balance == 0,
            r is Ok ==> {
                &&& final(self)@.balances == old(self)@.balances
                &&& final(self)@.records == old(self)@.records
                &&& final(self)@.vaults == old(self)@.vaults.remove(v_address)
            },
            r is Err ==> final(self)@ == old(self)@ && r == Err::<(), EscrowError>(
                EscrowError::NotEmpty,
            ),
    {
        let vault = match self.get_vault(v_address) {
            Some(v) => v,
            None => {
                return Err(EscrowError::NotEmpty);
            },
        };
        if vault.balance != 0 {
            return Err(EscrowError::NotEmpty);
        }
        self.delete_vault(v_address);
        Ok(())
    }
}

} // verus!
