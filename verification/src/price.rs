//! A fixed BTC price, for use where the exchange is not asked.

use vstd::prelude::*;

verus! {

/// A BTC price in US dollars.
pub struct BtcPrice {
    pub price: u64,
}

/// The fixed price: 20000 dollars.
pub fn get_btc_price() -> (res: BtcPrice)
    ensures
        res.price == 20000,
{
    BtcPrice { price: 20000 }
}

} // verus!
