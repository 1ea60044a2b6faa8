//! The descriptors that callers exchange with the supervisor.

use vstd::prelude::*;
use crate::text::{copy_opt, opt_text};

verus! {

/// One tradable pair, as callers describe it and as the supervisor reports
/// it back.
#[derive(Debug)]
pub struct Market {
    pub address: String,
    pub deprecated: Option<bool>,
    pub name: Option<String>,
    pub program_id: String,
    pub base_mint_address: Option<String>,
    pub quote_mint_address: Option<String>,
    pub base_token_account: String,
    pub quote_token_account: String,
    pub base_symbol: Option<String>,
    pub quote_symbol: Option<String>,
}

/// What a [`Market`] holds.
pub ghost struct MarketView {
    pub address: Seq<char>,
    pub deprecated: Option<bool>,
    pub name: Option<Seq<char>>,
    pub program_id: Seq<char>,
    pub base_mint_address: Option<Seq<char>>,
    pub quote_mint_address: Option<Seq<char>>,
    pub base_token_account: Seq<char>,
    pub quote_token_account: Seq<char>,
    pub base_symbol: Option<Seq<char>>,
    pub quote_symbol: Option<Seq<char>>,
}

impl View for Market {
    type V = MarketView;

    open spec fn view(&self) -> MarketView {
        MarketView {
            address: self.address@,
            deprecated: self.deprecated,
            name: opt_text(self.name),
            program_id: self.program_id@,
            base_mint_address: opt_text(self.base_mint_address),
            quote_mint_address: opt_text(self.quote_mint_address),
            base_token_account: self.base_token_account@,
            quote_token_account: self.quote_token_account@,
            base_symbol: opt_text(self.base_symbol),
            quote_symbol: opt_text(self.quote_symbol),
        }
    }
}

impl Clone for Market {
    fn clone(&self) -> (copy: Self)
        ensures
            copy@ == self@,
    {
        Market {
            address: self.address.clone(),
            deprecated: self.deprecated,
            name: copy_opt(&self.name),
            program_id: self.program_id.clone(),
            base_mint_address: copy_opt(&self.base_mint_address),
            quote_mint_address: copy_opt(&self.quote_mint_address),
            base_token_account: self.base_token_account.clone(),
            quote_token_account: self.quote_token_account.clone(),
            base_symbol: copy_opt(&self.base_symbol),
            quote_symbol: copy_opt(&self.quote_symbol),
        }
    }
}

/// What the descriptors of a vector hold.
pub open spec fn market_views(markets: Seq<Market>) -> Seq<MarketView> {
    Seq::new(markets.len(), |i: int| markets[i]@)
}

/// One entry of a market list: the identifier under which the list files the
/// market, and its descriptor.
#[derive(Debug)]
pub struct MarketEntry {
    pub id: String,
    pub market: Market,
}

/// A list of markets to import, each filed under an identifier.
#[derive(Debug)]
pub struct Markets {
    pub markets: Vec<MarketEntry>,
}

impl Markets {
    /// The identifiers of the list, in its order.
    pub open spec fn ids(&self) -> Seq<Seq<char>> {
        Seq::new(self.markets@.len(), |i: int| self.markets@[i].id@)
    }

    /// The descriptors of the list, in its order.
    pub open spec fn descriptors(&self) -> Seq<MarketView> {
        Seq::new(self.markets@.len(), |i: int| self.markets@[i].market@)
    }
}

/// A request to crank one market, for `crank_duration` minutes or, without
/// one, until told otherwise.
#[derive(Debug)]
pub struct CrankRequest {
    pub market_info: Market,
    pub crank_duration: Option<u64>,
}

} // verus!
