//! The two collaborators that an approval consults: the quota ledger, which
//! holds the listing units that each account has paid for, and the registry of
//! the currencies that the market accepts.

use vstd::prelude::*;
use crate::text_map::TextMap;
use crate::text_set::TextSet;

verus! {

/// The units that `account` holds; none where the ledger does not know it.
pub open spec fn units_of(units: Map<Seq<char>, u128>, account: Seq<char>) -> u128 {
    if units.contains_key(account) {
        units[account]
    } else {
        0
    }
}

/// A purchase buys a unit where the payment covers the cost of one and the
/// account's count of units can still grow.
pub open spec fn buys_unit(unit_cost: u128, held: u128, payment: u128) -> bool {
    payment >= unit_cost && held < u128::MAX
}

/// The units of all accounts after `account` offered `payment` for one unit.
pub open spec fn units_after_purchase(
    units: Map<Seq<char>, u128>,
    unit_cost: u128,
    account: Seq<char>,
    payment: u128,
) -> Map<Seq<char>, u128> {
    if buys_unit(unit_cost, units_of(units, account), payment) {
        units.insert(account, (units_of(units, account) + 1) as u128)
    } else {
        units
    }
}

/// The part of `payment` that exceeds the cost of one unit.
pub open spec fn excess_payment(unit_cost: u128, payment: u128) -> u128 {
    if payment >= unit_cost {
        (payment - unit_cost) as u128
    } else {
        0
    }
}

/// The mathematical value of a `QuotaLedger`.
pub struct QuotaLedgerView {
    pub unit_cost: u128,
    pub units: Map<Seq<char>, u128>,
}

/// The listing units that each account has paid for, and the cost of one unit.
#[derive(Debug, Clone)]
pub struct QuotaLedger {
    unit_cost: u128,
    units: TextMap<u128>,
}

impl View for QuotaLedger {
    type V = QuotaLedgerView;

    closed spec fn view(&self) -> QuotaLedgerView {
        QuotaLedgerView { unit_cost: self.unit_cost, units: self.units@ }
    }
}

impl QuotaLedger {
    /// The table of units is well formed.
    pub closed spec fn wf(&self) -> bool {
        self.units.wf()
    }

    /// A ledger in which no account holds a unit yet.
    pub fn new(unit_cost: u128) -> (ledger: Self)
        ensures
            ledger.wf(),
            ledger@.unit_cost == unit_cost,
            ledger@.units == Map::<Seq<char>, u128>::empty(),
    {
        QuotaLedger { unit_cost, units: TextMap::new() }
    }

    /// The payment that one unit requires.
    pub fn unit_cost(&self) -> (cost: u128)
        ensures
            cost == self@.unit_cost,
    {
        self.unit_cost
    }

    /// The units that `account` holds.
    pub fn current_quota_units(&self, account: &str) -> (held: u128)
        requires
            self.wf(),
        ensures
            held == units_of(self@.units, account@),
    {
        match self.units.get(account) {
            Some(held) => *held,
            None => 0,
        }
    }

    /// Offers `payment` for one unit on behalf of `account`, and tells whether the
    /// unit was bought.
    pub fn purchase_quota(&mut self, account: &str, payment: u128) -> (bought: bool)
        requires
            old(self).wf(),
        ensures
            final(self).wf(),
            final(self)@.unit_cost == old(self)@.unit_cost,
            bought == buys_unit(
                old(self)@.unit_cost,
                units_of(old(self)@.units, account@),
                payment,
            ),
            final(self)@.units == units_after_purchase(
                old(self)@.units,
                old(self)@.unit_cost,
                account@,
                payment,
            ),
    {
        let held = self.current_quota_units(account);
        if payment >= self.unit_cost && held < u128::MAX {
            self.units.insert(String::from_str(account), held + 1);
            true
        } else {
            false
        }
    }
}

/// The currencies that the market accepts.
#[derive(Debug, Clone)]
pub struct CurrencyRegistry {
    accepted: TextSet,
}

impl View for CurrencyRegistry {
    type V = Set<Seq<char>>;

    closed spec fn view(&self) -> Set<Seq<char>> {
        self.accepted@
    }
}

impl CurrencyRegistry {
    /// The set of currencies is well formed.
    pub closed spec fn wf(&self) -> bool {
        self.accepted.wf()
    }

    /// A registry that accepts no currency yet.
    pub fn new() -> (registry: Self)
        ensures
            registry.wf(),
            registry@ == Set::<Seq<char>>::empty(),
    {
        CurrencyRegistry { accepted: TextSet::new() }
    }

    /// Accepts `currency` from now on, and tells whether it was new.
    pub fn register(&mut self, currency: &str) -> (added: bool)
        requires
            old(self).wf(),
        ensures
            final(self).wf(),
            final(self)@ == old(self)@.insert(currency@),
            added == !old(self)@.contains(currency@),
    {
        self.accepted.insert(String::from_str(currency))
    }

    /// Tells whether the market accepts `currency`.
    pub fn is_supported_currency(&self, currency: &str) -> (supported: bool)
        ensures
            supported == self@.contains(currency@),
    {
        self.accepted.contains(currency)
    }
}

} // verus!
