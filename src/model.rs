use vstd::prelude::*;

verus! {

/// Number of price units in one whole unit of the quote currency.
pub const PRICE_UNITS_PER_WHOLE: u64 = 100000000;

/// Average price of the trades one client saw, in price units.
#[derive(Clone, Copy, Debug, PartialEq, Eq, Structural)]
pub struct AveragePrice {
    pub average_price: u64,
}

} // verus!

verus! {

/// A subscription request: an operation and the topics it names, in order.
pub struct Request {
    pub op: String,
    pub args: Vec<String>,
}

/// The acknowledgement the server sends after a subscription request.
pub struct SuccessResponse {
    pub success: bool,
    pub ret_msg: Option<String>,
    pub conn_id: String,
    pub request: Request,
}

/// One inbound message of trade data: a topic and the trades it carries.
pub struct CryptoData {
    pub topic: String,
    pub data: Vec<Data>,
}

/// One observed trade; its price is in price units.
pub struct Data {
    pub trade_time_ms: i64,
    pub timestamp: String,
    pub symbol: String,
    pub side: String,
    pub size: i64,
    pub price: u64,
    pub tick_direction: String,
    pub trade_id: String,
    pub cross_seq: i64,
    pub is_block_trade: String,
}

/// What one client keeps of its run: the batches it saw and its average
/// (one element when the client saw at least one trade, none otherwise).
pub struct FinalData {
    pub data: Vec<CryptoData>,
    pub average: Vec<AveragePrice>,
}

} // verus!
