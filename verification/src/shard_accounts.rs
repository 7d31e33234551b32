use vstd::prelude::*;

use crate::error::BlockError;
use crate::messages::CurrencyCollection;
use crate::types::Number5;

verus! {

/// Split depth and balance of a subtree of accounts
/// (`depth_balance$_ split_depth:(#<= 30) balance:CurrencyCollection = DepthBalanceInfo`).
#[derive(Debug, PartialEq, Eq)]
pub struct DepthBalanceInfo {
    split_depth: Number5,
    balance: CurrencyCollection,
}

impl DepthBalanceInfo {
    /// The split depth.
    pub closed spec fn spec_split_depth(&self) -> nat {
        self.split_depth@
    }

    /// The balance.
    pub closed spec fn spec_balance(&self) -> CurrencyCollection {
        self.balance
    }

    /// The given split depth and a copy of the balance; a depth above 30 is refused.
    pub fn new(split_depth: u8, balance: &CurrencyCollection) -> (r: Result<Self, BlockError>)
        ensures
            r is Ok <==> split_depth <= 30,
            r is Ok ==> r->Ok_0.spec_split_depth() == split_depth,
            r is Ok ==> r->Ok_0.spec_balance().grams == balance.grams,
            r is Ok ==> r->Ok_0.spec_balance().other@ == balance.other@,
    {
        Ok(DepthBalanceInfo { split_depth: Number5::new_checked(split_depth as u32, 30)?, balance: balance.clone() })
    }

    /// Sets the split depth.
    pub fn set_split_depth(&mut self, split_depth: Number5)
        ensures
            final(self).spec_split_depth() == split_depth@,
            final(self).spec_balance() == old(self).spec_balance(),
    {
        self.split_depth = split_depth;
    }

    /// Sets the balance.
    pub fn set_balance(&mut self, balance: CurrencyCollection)
        ensures
            final(self).spec_split_depth() == old(self).spec_split_depth(),
            final(self).spec_balance() == balance,
    {
        self.balance = balance;
    }

    /// The balance.
    pub fn balance(&self) -> (r: &CurrencyCollection)
        ensures
            *r == self.spec_balance(),
    {
        &self.balance
    }
}

} // verus!
