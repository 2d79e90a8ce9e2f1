//! Ready-made contracts.

use vstd::prelude::*;
use crate::domain::{Contract, ContractView};

verus! {

/// The common stock with the given symbol: security type `STK`, priced in
/// `USD`, routed by `SMART`.
pub fn stock(symbol: &str) -> (contract: Contract)
    ensures
        contract@ == (ContractView {
            symbol: symbol@,
            security_type: "STK"@,
            currency: "USD"@,
            exchange: "SMART"@,
            ..ContractView::blank()
        }),
{
    let mut contract = Contract::default();
    contract.symbol = String::from_str(symbol);
    contract.security_type = String::from_str("STK");
    contract.currency = String::from_str("USD");
    contract.exchange = String::from_str("SMART");
    contract
}

} // verus!
