use crate::address::Address;
use crate::fixed_math::{checked_mul_div_ceil, mul_ceil};
use vstd::prelude::*;

verus! {

/// Scalar of a price times an amount: the oracle's fourteen decimals.
pub const PRICE_SCALAR: i128 = 100_000_000_000_000;

/// A price as the oracle reports it.
#[derive(Clone, Copy, Debug, PartialEq, Eq, Structural)]
pub struct PriceData {
    /// Asset price at a given point in time.
    pub price: i128,
    /// Recording timestamp.
    pub timestamp: u64,
}

/// The feed that knows the price of a token: the one for assets quoted off chain, by symbol,
/// or the one for assets of the network, by address.
pub enum OracleQuery {
    OffChain(String),
    PubNet(Address),
}

/// The symbol under which the off-chain feed quotes a token, if it quotes it: its own
/// symbol, but for the native token.
pub open spec fn spec_oracle_symbol(symbol: Seq<char>) -> Option<Seq<char>> {
    if symbol == "BTC"@ {
        Some("BTC"@)
    } else if symbol == "ETH"@ {
        Some("ETH"@)
    } else if symbol == "USDT"@ {
        Some("USDT"@)
    } else if symbol == "XRP"@ {
        Some("XRP"@)
    } else if symbol == "SOL"@ {
        Some("SOL"@)
    } else if symbol == "USDC"@ {
        Some("USDC"@)
    } else if symbol == "ADA"@ {
        Some("ADA"@)
    } else if symbol == "AVAX"@ {
        Some("AVAX"@)
    } else if symbol == "DOT"@ {
        Some("DOT"@)
    } else if symbol == "MATIC"@ {
        Some("MATIC"@)
    } else if symbol == "LINK"@ {
        Some("LINK"@)
    } else if symbol == "DAI"@ {
        Some("DAI"@)
    } else if symbol == "ATOM"@ {
        Some("ATOM"@)
    } else if symbol == "native"@ {
        Some("XLM"@)
    } else if symbol == "UNI"@ {
        Some("UNI"@)
    } else if symbol == "EURC"@ {
        Some("EURC"@)
    } else {
        None
    }
}

fn is_symbol(token: &String, name: &str) -> (r: bool)
    ensures
        r == (token@ == name@),
{
    let owned = name.to_owned();
    *token == owned
}

/// Chooses the feed and the key under which to ask for the price of a token.
pub fn oracle_query(token_symbol: &String, token_address: Address) -> (r: OracleQuery)
    ensures
        match spec_oracle_symbol(token_symbol@) {
            Some(symbol) => r matches OracleQuery::OffChain(s) && s@ == symbol,
            None => r matches OracleQuery::PubNet(a) && a == token_address,
        },
{
    if is_symbol(token_symbol, "BTC") {
        OracleQuery::OffChain("BTC".to_owned())
    } else if is_symbol(token_symbol, "ETH") {
        OracleQuery::OffChain("ETH".to_owned())
    } else if is_symbol(token_symbol, "USDT") {
        OracleQuery::OffChain("USDT".to_owned())
    } else if is_symbol(token_symbol, "XRP") {
        OracleQuery::OffChain("XRP".to_owned())
    } else if is_symbol(token_symbol, "SOL") {
        OracleQuery::OffChain("SOL".to_owned())
    } else if is_symbol(token_symbol, "USDC") {
        OracleQuery::OffChain("USDC".to_owned())
    } else if is_symbol(token_symbol, "ADA") {
        OracleQuery::OffChain("ADA".to_owned())
    } else if is_symbol(token_symbol, "AVAX") {
        OracleQuery::OffChain("AVAX".to_owned())
    } else if is_symbol(token_symbol, "DOT") {
        OracleQuery::OffChain("DOT".to_owned())
    } else if is_symbol(token_symbol, "MATIC") {
        OracleQuery::OffChain("MATIC".to_owned())
    } else if is_symbol(token_symbol, "LINK") {
        OracleQuery::OffChain("LINK".to_owned())
    } else if is_symbol(token_symbol, "DAI") {
        OracleQuery::OffChain("DAI".to_owned())
    } else if is_symbol(token_symbol, "ATOM") {
        OracleQuery::OffChain("ATOM".to_owned())
    } else if is_symbol(token_symbol, "native") {
        OracleQuery::OffChain("XLM".to_owned())
    } else if is_symbol(token_symbol, "UNI") {
        OracleQuery::OffChain("UNI".to_owned())
    } else if is_symbol(token_symbol, "EURC") {
        OracleQuery::OffChain("EURC".to_owned())
    } else {
        OracleQuery::PubNet(token_address)
    }
}

/// Whether a price is recent enough at time `now`: recorded no longer than `max_age`
/// seconds ago.
pub fn price_is_fresh(price: &PriceData, now: u64, max_age: u64) -> (r: bool)
    ensures
        r == (now <= price.timestamp + max_age),
{
    now <= price.timestamp || now - price.timestamp <= max_age
}

/// The value of `amount` of a token at the price the oracle gave, rounded up: a token
/// without a price is worth nothing.
pub open spec fn spec_token_amount_in_usdc_value(price: Option<PriceData>, amount: i128) -> Option<
    i128,
> {
    let quoted = match price {
        Some(data) => data.price,
        None => 0,
    };
    checked_mul_div_ceil(quoted as int, amount as int, PRICE_SCALAR as int)
}

/// Values an amount of a token at the price the oracle gave for it. Nothing is returned
/// when the product leaves the 128-bit range.
pub fn get_token_amount_in_usdc_value(price: Option<PriceData>, amount: i128) -> (r: Option<i128>)
    ensures
        r == spec_token_amount_in_usdc_value(price, amount),
{
    let quoted = match price {
        Some(data) => data.price,
        None => 0,
    };
    mul_ceil(quoted, amount, PRICE_SCALAR)
}

} // verus!
