//! What the contract asks of the price oracle and what it makes of the answer.
use vstd::prelude::*;
use crate::fight::FightCurrency;

verus! {

/// A price record of the oracle.
#[derive(Clone, Copy, Debug, PartialEq, Eq, Structural)]
pub struct PriceData {
    pub price: i128,
    pub timestamp: u64,
}

/// The oracle's name for each currency a fight can follow.
pub open spec fn currency_symbol(c: FightCurrency) -> Seq<char> {
    match c {
        FightCurrency::BTC => "BTC"@,
        FightCurrency::ETH => "ETH"@,
        FightCurrency::XLM => "XLM"@,
        FightCurrency::SOL => "SOL"@,
    }
}

/// The symbol under which the oracle quotes `currency`.
pub fn asset_symbol(currency: FightCurrency) -> (r: &'static str)
    ensures
        r@ == currency_symbol(currency),
{
    match currency {
        FightCurrency::BTC => "BTC",
        FightCurrency::ETH => "ETH",
        FightCurrency::XLM => "XLM",
        FightCurrency::SOL => "SOL",
    }
}

/// The price in the oracle's answer, 0 where it has no record.
pub fn price_or_zero(answer: Option<PriceData>) -> (r: i128)
    ensures
        r == match answer {
            Some(p) => p.price,
            None => 0,
        },
{
    match answer {
        Some(p) => p.price,
        None => 0,
    }
}

} // verus!
