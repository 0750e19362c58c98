//! The catalog that one fetch of the feed yields.

use vstd::prelude::*;
use crate::decimal::FixedPoint;

verus! {

/// One price tier of an order book.
#[derive(Clone, Copy, Debug, PartialEq, Eq, Structural)]
pub struct Order {
    /// Units on offer at this tier.
    pub amount: u64,
    /// The price of one unit, exact to the hundredth.
    pub price_per_unit: FixedPoint,
    /// How many orders make up the tier.
    pub orders: u32,
}

/// The feed's own aggregate figures for one product.
///
/// The two prices are carried as the feed's numbers written out in the
/// shortest decimal form that reads back as the same number; unlike the
/// prices of an order tier they are not rounded to hundredths.
#[derive(Clone, Debug)]
pub struct QuickStatus {
    pub product_id: String,
    pub sell_price: String,
    pub sell_volume: u64,
    pub sell_moving_week: u64,
    pub sell_orders: u32,
    pub buy_price: String,
    pub buy_volume: u64,
    pub buy_moving_week: u64,
    pub buy_orders: u32,
}

/// One product of the catalog with its two order books.
#[derive(Clone, Debug)]
pub struct Product {
    /// The product's identifier, as the product itself reports it.
    pub product_id: String,
    pub sell_summary: Vec<Order>,
    pub buy_summary: Vec<Order>,
    pub quick_status: QuickStatus,
}

/// One complete capture of the feed.
///
/// The products are held as the entries of the feed's mapping, each under
/// its key, in the order in which the mapping gave them; that order carries
/// no meaning.
#[derive(Clone, Debug)]
pub struct BazaarResponse {
    /// Whether the feed itself reported success.
    pub success: bool,
    /// The feed's timestamp, in milliseconds since the epoch.
    pub last_updated: u64,
    pub products: Vec<(String, Product)>,
}

} // verus!
