//! The state-holding component: explicit keyed stores for pair statuses,
//! LP-asset registrations, reserve-product watermarks, frozen bootstrap
//! rates and personal contributions, together with a model asset ledger,
//! and the configuration of the module.

use vstd::prelude::*;

use crate::alist::AList;
use crate::alist::MapKey;
use crate::types::AccountId;
use crate::types::AssetBalance;
use crate::types::AssetId;
use crate::types::DispatchError;
use crate::types::PairKey;
use crate::types::PairStatus;
use crate::types::pair_key;
use crate::types::pair_of;

verus! {

/// Key of a contributor's personal record: the pair and the contributor.
#[derive(Clone, Copy, PartialEq, Eq, Structural)]
pub struct PersonalKey {
    pub pair: PairKey,
    pub who: AccountId,
}

/// Key of a ledger balance: the asset and the holding account.
#[derive(Clone, Copy, PartialEq, Eq, Structural)]
pub struct BalanceKey {
    pub asset: AssetId,
    pub account: AccountId,
}

impl MapKey for PairKey {
    fn key_eq(&self, other: &Self) -> (r: bool)
        ensures
            r <==> (*self == *other),
    {
        *self == *other
    }
}

impl MapKey for PersonalKey {
    fn key_eq(&self, other: &Self) -> (r: bool)
        ensures
            r <==> (*self == *other),
    {
        *self == *other
    }
}

impl MapKey for BalanceKey {
    fn key_eq(&self, other: &Self) -> (r: bool)
        ensures
            r <==> (*self == *other),
    {
        *self == *other
    }
}

/// The mathematical model of the whole module state.
#[verifier::ext_equal]
pub struct State {
    pub statuses: Map<PairKey, PairStatus>,
    pub lp_pairs: Map<PairKey, AssetId>,
    pub k_last: Map<PairKey, AssetBalance>,
    pub rates: Map<PairKey, (u128, u128)>,
    pub personal: Map<PersonalKey, (AssetBalance, AssetBalance)>,
    pub balances: Map<BalanceKey, AssetBalance>,
    pub fee_to: Option<AccountId>,
    pub fee_point: u8,
    pub self_para_id: u32,
}

/// Balance of an account in an asset; an absent entry behaves as zero.
pub open spec fn bal_of(
    balances: Map<BalanceKey, AssetBalance>,
    asset: AssetId,
    account: AccountId,
) -> AssetBalance {
    let k = BalanceKey { asset, account };
    if balances.contains_key(k) {
        balances[k]
    } else {
        0
    }
}

/// Lifecycle state of a pair; an absent entry behaves as `Disable`.
pub open spec fn status_of(s: State, pair: PairKey) -> PairStatus {
    if s.statuses.contains_key(pair) {
        s.statuses[pair]
    } else {
        PairStatus::Disable
    }
}

/// Watermark of the last recorded reserve product; absent behaves as zero.
pub open spec fn k_last_of(s: State, pair: PairKey) -> AssetBalance {
    if s.k_last.contains_key(pair) {
        s.k_last[pair]
    } else {
        0
    }
}

/// Frozen bootstrap exchange rates; absent behaves as a pair of zero rates.
pub open spec fn rates_of(s: State, pair: PairKey) -> (u128, u128) {
    if s.rates.contains_key(pair) {
        s.rates[pair]
    } else {
        (0, 0)
    }
}

/// A contributor's raw (amount_0, amount_1) record, if any.
pub open spec fn personal_of(s: State, pair: PairKey, who: AccountId) -> Option<
    (AssetBalance, AssetBalance),
> {
    let k = PersonalKey { pair, who };
    if s.personal.contains_key(k) {
        Some(s.personal[k])
    } else {
        None
    }
}

/// Transition of the balance map made by a successful transfer, and the
/// error of a failed one: the source must hold the amount, and the target
/// balance must not overflow.
pub open spec fn transfer_tr(
    m: Map<BalanceKey, AssetBalance>,
    asset: AssetId,
    from: AccountId,
    to: AccountId,
    amount: AssetBalance,
) -> Result<Map<BalanceKey, AssetBalance>, DispatchError> {
    let bf = bal_of(m, asset, from);
    if bf < amount {
        Err(DispatchError::InsufficientAssetBalance)
    } else {
        let m1 = m.insert(BalanceKey { asset, account: from }, (bf - amount) as AssetBalance);
        let bt = bal_of(m1, asset, to);
        if bt + amount > u128::MAX {
            Err(DispatchError::Overflow)
        } else {
            Ok(m1.insert(BalanceKey { asset, account: to }, (bt + amount) as AssetBalance))
        }
    }
}

/// Transition made by a successful mint into an account.
pub open spec fn deposit_tr(
    m: Map<BalanceKey, AssetBalance>,
    asset: AssetId,
    account: AccountId,
    amount: AssetBalance,
) -> Result<Map<BalanceKey, AssetBalance>, DispatchError> {
    let b = bal_of(m, asset, account);
    if b + amount > u128::MAX {
        Err(DispatchError::Overflow)
    } else {
        Ok(m.insert(BalanceKey { asset, account }, (b + amount) as AssetBalance))
    }
}

/// Transition made by a successful burn out of an account.
pub open spec fn withdraw_tr(
    m: Map<BalanceKey, AssetBalance>,
    asset: AssetId,
    account: AccountId,
    amount: AssetBalance,
) -> Result<Map<BalanceKey, AssetBalance>, DispatchError> {
    let b = bal_of(m, asset, account);
    if b < amount {
        Err(DispatchError::InsufficientAssetBalance)
    } else {
        Ok(m.insert(BalanceKey { asset, account }, (b - amount) as AssetBalance))
    }
}

/// The model asset ledger: balances per (asset, account), mutated only by
/// the atomic operations below.
pub struct Ledger {
    accounts: AList<BalanceKey, AssetBalance>,
}

impl View for Ledger {
    type V = Map<BalanceKey, AssetBalance>;

    closed spec fn view(&self) -> Map<BalanceKey, AssetBalance> {
        self.accounts@
    }
}

impl Ledger {
    pub closed spec fn wf(&self) -> bool {
        self.accounts.wf()
    }

    pub fn new() -> (r: Self)
        ensures
            r.wf(),
            r@ == Map::<BalanceKey, AssetBalance>::empty(),
    {
        Ledger { accounts: AList::new() }
    }

    pub fn balance_of(&self, asset: AssetId, account: AccountId) -> (r: AssetBalance)
        requires
            self.wf(),
        ensures
            r == bal_of(self@, asset, account),
    {
        match self.accounts.get(&BalanceKey { asset, account }) {
            Some(b) => b,
            None => 0,
        }
    }

    pub fn deposit(&mut self, asset: AssetId, account: AccountId, amount: AssetBalance) -> (r:
        Result<(), DispatchError>)
        requires
            old(self).wf(),
        ensures
            final(self).wf(),
            match deposit_tr(old(self)@, asset, account, amount) {
                Ok(m) => r == Ok::<(), DispatchError>(()) && final(self)@ == m,
                Err(e) => r == Err::<(), DispatchError>(e) && final(self)@ == old(self)@,
            },
    {
        let b = self.balance_of(asset, account);
        match b.checked_add(amount) {
            Some(nb) => {
                self.accounts.insert(BalanceKey { asset, account }, nb);
                Ok(())
            },
            None => Err(DispatchError::Overflow),
        }
    }

    pub fn withdraw(&mut self, asset: AssetId, account: AccountId, amount: AssetBalance) -> (r:
        Result<(), DispatchError>)
        requires
            old(self).wf(),
        ensures
            final(self).wf(),
            match withdraw_tr(old(self)@, asset, account, amount) {
                Ok(m) => r == Ok::<(), DispatchError>(()) && final(self)@ == m,
                Err(e) => r == Err::<(), DispatchError>(e) && final(self)@ == old(self)@,
            },
    {
        let b = self.balance_of(asset, account);
        if b < amount {
            Err(DispatchError::InsufficientAssetBalance)
        } else {
            self.accounts.insert(BalanceKey { asset, account }, b - amount);
            Ok(())
        }
    }

    pub fn transfer(
        &mut self,
        asset: AssetId,
        from: AccountId,
        to: AccountId,
        amount: AssetBalance,
    ) -> (r: Result<(), DispatchError>)
        requires
            old(self).wf(),
        ensures
            final(self).wf(),
            match transfer_tr(old(self)@, asset, from, to, amount) {
                Ok(m) => r == Ok::<(), DispatchError>(()) && final(self)@ == m,
                Err(e) => r == Err::<(), DispatchError>(e) && final(self)@ == old(self)@,
            },
    {
        let bf = self.balance_of(asset, from);
        if bf < amount {
            return Err(DispatchError::InsufficientAssetBalance);
        }
        let bt = if from == to {
            bf - amount
        } else {
            self.balance_of(asset, to)
        };
        if bt > u128::MAX - amount {
            return Err(DispatchError::Overflow);
        }
        self.accounts.insert(BalanceKey { asset, account: from }, bf - amount);
        self.accounts.insert(BalanceKey { asset, account: to }, bt + amount);
        Ok(())
    }

    /// A copy used to buffer transfers until every check of an operation
    /// has passed.
    pub fn duplicate(&self) -> (r: Self)
        requires
            self.wf(),
        ensures
            r.wf(),
            r@ == self@,
    {
        Ledger { accounts: self.accounts.duplicate() }
    }
}

/// The settlement core. Holds every per-pair store, the model ledger and
/// the module configuration.
pub struct Pallet {
    statuses: AList<PairKey, PairStatus>,
    lp_pairs: AList<PairKey, AssetId>,
    k_last: AList<PairKey, AssetBalance>,
    rates: AList<PairKey, (u128, u128)>,
    personal: AList<PersonalKey, (AssetBalance, AssetBalance)>,
    ledger: Ledger,
    fee_to: Option<AccountId>,
    fee_point: u8,
    self_para_id: u32,
}

impl View for Pallet {
    type V = State;

    closed spec fn view(&self) -> State {
        State {
            statuses: self.statuses@,
            lp_pairs: self.lp_pairs@,
            k_last: self.k_last@,
            rates: self.rates@,
            personal: self.personal@,
            balances: self.ledger@,
            fee_to: self.fee_to,
            fee_point: self.fee_point,
            self_para_id: self.self_para_id,
        }
    }
}

impl Pallet {
    /// Validity of the representation: distinct keys in every store and a
    /// fee-share parameter within its thirtieths scale.
    pub closed spec fn wf(&self) -> bool {
        &&& self.statuses.wf()
        &&& self.lp_pairs.wf()
        &&& self.k_last.wf()
        &&& self.rates.wf()
        &&& self.personal.wf()
        &&& self.ledger.wf()
        &&& self.fee_point <= 30
    }

    /// The fee-share parameter never exceeds its thirtieths scale.
    pub proof fn lemma_wf_fee_point(&self)
        requires
            self.wf(),
        ensures
            self@.fee_point <= 30,
    {
    }

    /// An empty module: no pairs, no balances, the given configuration.
    pub fn new(self_para_id: u32, fee_to: Option<AccountId>, fee_point: u8) -> (r: Self)
        requires
            fee_point <= 30,
        ensures
            r.wf(),
            r@ == (State {
                statuses: Map::<PairKey, PairStatus>::empty(),
                lp_pairs: Map::<PairKey, AssetId>::empty(),
                k_last: Map::<PairKey, AssetBalance>::empty(),
                rates: Map::<PairKey, (u128, u128)>::empty(),
                personal: Map::<PersonalKey, (AssetBalance, AssetBalance)>::empty(),
                balances: Map::<BalanceKey, AssetBalance>::empty(),
                fee_to: fee_to,
                fee_point: fee_point,
                self_para_id: self_para_id,
            }),
    {
        Pallet {
            statuses: AList::new(),
            lp_pairs: AList::new(),
            k_last: AList::new(),
            rates: AList::new(),
            personal: AList::new(),
            ledger: Ledger::new(),
            fee_to,
            fee_point,
            self_para_id,
        }
    }

    /// Configured protocol-fee recipient and fee-share parameter.
    pub fn fee_meta(&self) -> (r: (Option<AccountId>, u8))
        ensures
            r == (self@.fee_to, self@.fee_point),
    {
        (self.fee_to, self.fee_point)
    }

    pub fn self_para_id(&self) -> (r: u32)
        ensures
            r == self@.self_para_id,
    {
        self.self_para_id
    }

    /// Lifecycle state of a pair; an absent registry entry is `Disable`.
    pub fn pair_status(&self, pair: PairKey) -> (r: PairStatus)
        requires
            self.wf(),
        ensures
            r == status_of(self@, pair),
    {
        match self.statuses.get(&pair) {
            Some(s) => s,
            None => PairStatus::Disable,
        }
    }

    pub(crate) fn set_status(&mut self, pair: PairKey, status: PairStatus)
        requires
            old(self).wf(),
        ensures
            final(self).wf(),
            final(self)@ == (State {
                statuses: old(self)@.statuses.insert(pair, status),
                ..old(self)@
            }),
    {
        self.statuses.insert(pair, status);
    }

    pub(crate) fn remove_status(&mut self, pair: PairKey)
        requires
            old(self).wf(),
        ensures
            final(self).wf(),
            final(self)@ == (State { statuses: old(self)@.statuses.remove(pair), ..old(self)@ }),
    {
        self.statuses.remove(&pair);
    }

    /// The LP asset registered for a pair, if any.
    pub fn lp_pairs(&self, pair: PairKey) -> (r: Option<AssetId>)
        requires
            self.wf(),
        ensures
            r == if self@.lp_pairs.contains_key(pair) {
                Some(self@.lp_pairs[pair])
            } else {
                None::<AssetId>
            },
    {
        self.lp_pairs.get(&pair)
    }

    pub(crate) fn set_lp_pair(&mut self, pair: PairKey, lp: AssetId)
        requires
            old(self).wf(),
        ensures
            final(self).wf(),
            final(self)@ == (State { lp_pairs: old(self)@.lp_pairs.insert(pair, lp), ..old(self)@ }),
    {
        self.lp_pairs.insert(pair, lp);
    }

    /// Watermark of the last recorded reserve product for a pair.
    pub fn k_last(&self, pair: PairKey) -> (r: AssetBalance)
        requires
            self.wf(),
        ensures
            r == k_last_of(self@, pair),
    {
        match self.k_last.get(&pair) {
            Some(k) => k,
            None => 0,
        }
    }

    /// Overwrites the reserve-product watermark of a pair.
    pub fn mutate_k_last(&mut self, asset_0: AssetId, asset_1: AssetId, last: AssetBalance)
        requires
            old(self).wf(),
        ensures
            final(self).wf(),
            final(self)@ == (State {
                k_last: old(self)@.k_last.insert(pair_of(asset_0, asset_1), last),
                ..old(self)@
            }),
    {
        let pair = pair_key(asset_0, asset_1);
        self.k_last.insert(pair, last);
    }

    /// Frozen exchange rates of a pair, captured at bootstrap settlement;
    /// an absent entry behaves as a pair of zero rates.
    pub fn freeze_pair_exchange_rates(&self, pair: PairKey) -> (r: (u128, u128))
        requires
            self.wf(),
        ensures
            r == rates_of(self@, pair),
    {
        match self.rates.get(&pair) {
            Some(rr) => rr,
            None => (0, 0),
        }
    }

    pub(crate) fn set_rates(&mut self, pair: PairKey, rr: (u128, u128))
        requires
            old(self).wf(),
        ensures
            final(self).wf(),
            final(self)@ == (State { rates: old(self)@.rates.insert(pair, rr), ..old(self)@ }),
    {
        self.rates.insert(pair, rr);
    }

    /// A contributor's raw contribution record for a pair, if any.
    pub fn bootstrap_personal_supply(&self, pair: PairKey, who: AccountId) -> (r: Option<
        (AssetBalance, AssetBalance),
    >)
        requires
            self.wf(),
        ensures
            r == personal_of(self@, pair, who),
    {
        self.personal.get(&PersonalKey { pair, who })
    }

    pub(crate) fn set_personal_supply(
        &mut self,
        pair: PairKey,
        who: AccountId,
        amounts: (AssetBalance, AssetBalance),
    )
        requires
            old(self).wf(),
        ensures
            final(self).wf(),
            final(self)@ == (State {
                personal: old(self)@.personal.insert(PersonalKey { pair, who }, amounts),
                ..old(self)@
            }),
    {
        self.personal.insert(PersonalKey { pair, who }, amounts);
    }

    pub(crate) fn remove_personal_supply(&mut self, pair: PairKey, who: AccountId)
        requires
            old(self).wf(),
        ensures
            final(self).wf(),
            final(self)@ == (State {
                personal: old(self)@.personal.remove(PersonalKey { pair, who }),
                ..old(self)@
            }),
    {
        self.personal.remove(&PersonalKey { pair, who });
    }

    /// Whether any contribution record for the pair remains, under any
    /// contributor.
    pub(crate) fn personal_supply_has_pair(&self, pair: PairKey) -> (r: bool)
        requires
            self.wf(),
        ensures
            r <==> exists|w: AccountId|
                self@.personal.contains_key(PersonalKey { pair, who: w }),
    {
        let keys = self.personal.keys();
        let mut i: usize = 0;
        while i < keys.len()
            invariant
                i <= keys@.len(),
                forall|j: int| 0 <= j < i ==> (#[trigger] keys@[j]).pair != pair,
                forall|j: int| 0 <= j < keys@.len() ==> self@.personal.contains_key(
                    #[trigger] keys@[j],
                ),
                forall|k: PersonalKey| #[trigger] self@.personal.contains_key(k) ==> keys@.contains(
                    k,
                ),
            decreases keys@.len() - i,
        {
            if keys[i].pair == pair {
                proof {
                    let k = keys@[i as int];
                    assert(k == PersonalKey { pair, who: k.who });
                    assert(self@.personal.contains_key(PersonalKey { pair, who: k.who }));
                }
                return true;
            }
            i += 1;
        }
        proof {
            if exists|w: AccountId| self@.personal.contains_key(PersonalKey { pair, who: w }) {
                let w = choose|w: AccountId|
                    self@.personal.contains_key(PersonalKey { pair, who: w });
                let k = PersonalKey { pair, who: w };
                assert(keys@.contains(k));
                let j = choose|j: int| 0 <= j < keys@.len() && keys@[j] == k;
                assert(keys@[j].pair == pair);
            }
        }
        false
    }

    /// Balance of an account in an asset, as the ledger reports it.
    pub fn balance_of(&self, asset: AssetId, account: AccountId) -> (r: AssetBalance)
        requires
            self.wf(),
        ensures
            r == bal_of(self@.balances, asset, account),
    {
        self.ledger.balance_of(asset, account)
    }

    /// Mints an amount of an asset into an account (the collaborator
    /// ledger's mint entry point, exposed for setup).
    pub fn deposit(&mut self, asset: AssetId, account: AccountId, amount: AssetBalance) -> (r:
        Result<(), DispatchError>)
        requires
            old(self).wf(),
        ensures
            final(self).wf(),
            match deposit_tr(old(self)@.balances, asset, account, amount) {
                Ok(m) => r == Ok::<(), DispatchError>(()) && final(self)@ == (State {
                    balances: m,
                    ..old(self)@
                }),
                Err(e) => r == Err::<(), DispatchError>(e) && final(self)@ == old(self)@,
            },
    {
        self.ledger.deposit(asset, account, amount)
    }

    pub(crate) fn ledger_copy(&self) -> (r: Ledger)
        requires
            self.wf(),
        ensures
            r.wf(),
            r@ == self@.balances,
    {
        self.ledger.duplicate()
    }

    pub(crate) fn commit_ledger(&mut self, ledger: Ledger)
        requires
            old(self).wf(),
            ledger.wf(),
        ensures
            final(self).wf(),
            final(self)@ == (State { balances: ledger@, ..old(self)@ }),
    {
        self.ledger = ledger;
    }
}

} // verus!
