//! The balance tool: native or token balance of an account.
use crate::numeric::{scale_down, scaled_down, Dec, MANTISSA_BOUND, MAX_SCALE};
use crate::text::{address_bytes, is_address_text, owned, parse_address, Address};
use crate::tools::{numeric_failure, ToolError};
use vstd::prelude::*;

verus! {

/// Decimals of the native asset.
pub const NATIVE_DECIMALS: u8 = 18;

/// The balance tool, which reads an account's balance of the native asset or
/// of a token contract.
#[derive(Clone, Copy, Debug)]
pub struct GetBalanceTool;

/// What the balance tool asks the chain for.
#[derive(Clone, Copy, Debug)]
pub enum BalanceQuery {
    /// The native balance of `account`.
    Native { account: Address },
    /// The balance of `account` held in the token contract `token`.
    Token { account: Address, token: Address },
}

/// A balance read from the chain.
#[derive(Clone, Debug)]
pub struct BalanceReport {
    /// The balance in whole units.
    pub balance: Dec,
    /// The balance in base units.
    pub raw_balance: u128,
    pub symbol: String,
    pub decimals: u8,
}

impl GetBalanceTool {
    /// Checks the arguments: `address` is required, `token_address` optional,
    /// and each given one must be a 20-byte hexadecimal address.
    pub fn plan(address: Option<&str>, token_address: Option<&str>) -> (r: Result<
        BalanceQuery,
        ToolError,
    >)
        ensures
            r is Ok <==> (address matches Some(a) && is_address_text(a@) && (token_address matches Some(
                t,
            ) ==> is_address_text(t@))),
            r matches Err(e) ==> e is Argument,
            r matches Ok(BalanceQuery::Native { account }) ==> token_address is None
                && account.bytes@ == address_bytes(address->0@),
            r matches Ok(BalanceQuery::Token { account, token }) ==> token_address is Some
                && account.bytes@ == address_bytes(address->0@) && token.bytes@ == address_bytes(
                token_address->0@,
            ),
    {
        let text = match address {
            Some(t) => t,
            None => {
                return Err(ToolError::Argument(owned("Missing address")));
            },
        };
        let account = match parse_address(text) {
            Some(a) => a,
            None => {
                return Err(ToolError::Argument(owned("Invalid address")));
            },
        };
        match token_address {
            None => Ok(BalanceQuery::Native { account }),
            Some(t) => match parse_address(t) {
                Some(token) => Ok(BalanceQuery::Token { account, token }),
                None => Err(ToolError::Argument(owned("Invalid token_address"))),
            },
        }
    }

    /// The report of a native balance of `raw` base units: symbol `ETH`,
    /// 18 decimals. The balance must fit a 96-bit mantissa.
    pub fn native_report(raw: u128) -> (r: Result<BalanceReport, ToolError>)
        ensures
            r is Ok <==> raw < MANTISSA_BOUND,
            r matches Err(e) ==> e is Decode,
            r matches Ok(b) ==> b.symbol@ == "ETH"@ && b.decimals == NATIVE_DECIMALS
                && b.raw_balance == raw && b.balance == scaled_down(raw as nat, 18),
    {
        match scale_down(raw, NATIVE_DECIMALS) {
            Ok(balance) => Ok(
                BalanceReport { balance, raw_balance: raw, symbol: owned("ETH"), decimals: NATIVE_DECIMALS },
            ),
            Err(e) => Err(numeric_failure(e)),
        }
    }

    /// The report of a token balance of `raw` base units, with the decimals
    /// and symbol that the token contract gave. The balance must fit a
    /// 96-bit mantissa and the decimals be at most 28.
    pub fn token_report(raw: u128, decimals: u8, symbol: String) -> (r: Result<
        BalanceReport,
        ToolError,
    >)
        ensures
            r is Ok <==> raw < MANTISSA_BOUND && decimals <= MAX_SCALE,
            r matches Err(e) ==> e is Decode,
            r matches Ok(b) ==> b.symbol@ == symbol@ && b.decimals == decimals && b.raw_balance
                == raw && b.balance == scaled_down(raw as nat, decimals as nat),
    {
        match scale_down(raw, decimals) {
            Ok(balance) => Ok(BalanceReport { balance, raw_balance: raw, symbol, decimals }),
            Err(e) => Err(numeric_failure(e)),
        }
    }
}

} // verus!
