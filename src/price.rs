//! The price tool: the price of a token in the native asset and in USD.
use crate::numeric::{
    multiply, oracle_price, oracle_price_spec, price_in_pair, price_in_pair_spec, product_spec, Dec, NumError, Uint160, MANTISSA_MAX, MAX_SCALE,
};
use crate::text::{
    address_bytes, is_address_text, opt_chars, owned, parse_address, text_eq, to_upper, upper_of, Address,
};
use crate::tools::{numeric_failure, ToolError};
use vstd::prelude::*;
use vstd::string::*;

verus! {

/// The fee tier, in hundredths of a basis point, of the pools that prices are read from.
pub const POOL_FEE: u32 = 3000;

/// The price tool, which reads a token's price from an oracle (for the native
/// asset) or from its pool against the wrapped native asset.
#[derive(Clone, Copy, Debug)]
pub struct GetTokenPriceTool;

/// Where the price of a symbol comes from.
#[derive(Clone, Copy, Debug)]
pub enum PriceTarget {
    /// The native asset, priced by the oracle.
    Native,
    /// A token contract, priced by its pool against the wrapped native asset.
    Token(Address),
}

/// The stablecoin of the built-in table.
pub fn usdc_address() -> (r: Address)
    ensures
        r.bytes@ == usdc_bytes(),
{
    let r = Address {
        bytes: [
            0xa0, 0xb8, 0x69, 0x91, 0xc6, 0x21, 0x8b, 0x36, 0xc1, 0xd1, 0x9d, 0x4a, 0x2e, 0x9e, 0xb0,
            0xce, 0x36, 0x06, 0xeb, 0x48,
        ],
    };
    assert(r.bytes@ =~= usdc_bytes());
    r
}

/// The wrapped native asset.
pub fn weth_address() -> (r: Address)
    ensures
        r.bytes@ == weth_bytes(),
{
    let r = Address {
        bytes: [
            0xc0, 0x2a, 0xaa, 0x39, 0xb2, 0x23, 0xfe, 0x8d, 0x0a, 0x0e, 0x5c, 0x4f, 0x27, 0xea, 0xd9,
            0x08, 0x3c, 0x75, 0x6c, 0xc2,
        ],
    };
    assert(r.bytes@ =~= weth_bytes());
    r
}

/// The wrapped bitcoin token.
pub fn wbtc_address() -> (r: Address)
    ensures
        r.bytes@ == wbtc_bytes(),
{
    let r = Address {
        bytes: [
            0x22, 0x60, 0xfa, 0xc5, 0xe5, 0x54, 0x2a, 0x77, 0x3a, 0xa4, 0x4f, 0xbc, 0xfe, 0xdf, 0x7c,
            0x19, 0x3b, 0xc2, 0xc5, 0x99,
        ],
    };
    assert(r.bytes@ =~= wbtc_bytes());
    r
}

/// The pool factory that pools are looked up in.
pub fn factory_address() -> (r: Address)
    ensures
        r.bytes@ == factory_bytes(),
{
    let r = Address {
        bytes: [
            0x1f, 0x98, 0x43, 0x1c, 0x8a, 0xd9, 0x85, 0x23, 0x63, 0x1a, 0xe4, 0xa5, 0x9f, 0x26, 0x73,
            0x46, 0xea, 0x31, 0xf9, 0x84,
        ],
    };
    assert(r.bytes@ =~= factory_bytes());
    r
}

/// The oracle of the native asset's USD price.
pub fn oracle_address() -> (r: Address)
    ensures
        r.bytes@ == oracle_bytes(),
{
    let r = Address {
        bytes: [
            0x5f, 0x4e, 0xc3, 0xdf, 0x9c, 0xbd, 0x43, 0x71, 0x4f, 0xe2, 0x74, 0x0f, 0x5e, 0x36, 0x16,
            0x15, 0x5c, 0x5b, 0x84, 0x19,
        ],
    };
    assert(r.bytes@ =~= oracle_bytes());
    r
}

pub open spec fn factory_bytes() -> Seq<u8> {
    seq![
        0x1fu8, 0x98, 0x43, 0x1c, 0x8a, 0xd9, 0x85, 0x23, 0x63, 0x1a, 0xe4, 0xa5, 0x9f, 0x26, 0x73,
        0x46, 0xea, 0x31, 0xf9, 0x84,
    ]
}

pub open spec fn oracle_bytes() -> Seq<u8> {
    seq![
        0x5fu8, 0x4e, 0xc3, 0xdf, 0x9c, 0xbd, 0x43, 0x71, 0x4f, 0xe2, 0x74, 0x0f, 0x5e, 0x36, 0x16,
        0x15, 0x5c, 0x5b, 0x84, 0x19,
    ]
}

pub open spec fn usdc_bytes() -> Seq<u8> {
    seq![
        0xa0u8, 0xb8, 0x69, 0x91, 0xc6, 0x21, 0x8b, 0x36, 0xc1, 0xd1, 0x9d, 0x4a, 0x2e, 0x9e, 0xb0,
        0xce, 0x36, 0x06, 0xeb, 0x48,
    ]
}

pub open spec fn weth_bytes() -> Seq<u8> {
    seq![
        0xc0u8, 0x2a, 0xaa, 0x39, 0xb2, 0x23, 0xfe, 0x8d, 0x0a, 0x0e, 0x5c, 0x4f, 0x27, 0xea, 0xd9,
        0x08, 0x3c, 0x75, 0x6c, 0xc2,
    ]
}

pub open spec fn wbtc_bytes() -> Seq<u8> {
    seq![
        0x22u8, 0x60, 0xfa, 0xc5, 0xe5, 0x54, 0x2a, 0x77, 0x3a, 0xa4, 0x4f, 0xbc, 0xfe, 0xdf, 0x7c,
        0x19, 0x3b, 0xc2, 0xc5, 0x99,
    ]
}

/// The built-in table from upper-case symbol to token address.
pub open spec fn known_token(symbol: Seq<char>) -> Option<Seq<u8>> {
    if symbol == "USDC"@ {
        Some(usdc_bytes())
    } else if symbol == "WETH"@ {
        Some(weth_bytes())
    } else if symbol == "WBTC"@ {
        Some(wbtc_bytes())
    } else {
        None
    }
}

/// A price can be looked up for the upper-case `symbol`: it is `ETH`, or an
/// address is given and well formed, or the symbol is in the built-in table.
pub open spec fn resolvable(symbol: Seq<char>, token_address: Option<Seq<char>>) -> bool {
    symbol == "ETH"@ || match token_address {
        Some(t) => is_address_text(t),
        None => known_token(symbol) is Some,
    }
}

/// A price in the native asset and in USD.
#[derive(Clone, Debug)]
pub struct PriceReport {
    pub symbol: String,
    pub price_in_native: Dec,
    pub price_in_usd: Dec,
}

impl GetTokenPriceTool {
    /// Where the price of the upper-case `symbol` comes from: the oracle for
    /// `ETH`; otherwise the explicit `token_address`, or else the built-in
    /// table. An unknown symbol without an address is refused, never guessed.
    pub fn resolve(symbol: &str, token_address: Option<&str>) -> (r: Result<PriceTarget, ToolError>)
        ensures
            symbol@ == "ETH"@ ==> r matches Ok(PriceTarget::Native),
            token_address matches Some(t) ==> (symbol@ != "ETH"@ ==> ((is_address_text(t@) <==> r is Ok)
                && (r matches Ok(PriceTarget::Token(a)) ==> a.bytes@ == address_bytes(t@)))),
            symbol@ != "ETH"@ && token_address is None ==> (r is Ok <==> known_token(symbol@) is Some)
                && (r matches Ok(PriceTarget::Token(a)) ==> Some(a.bytes@) == known_token(
                symbol@,
            )),
            symbol@ != "ETH"@ ==> !(r matches Ok(PriceTarget::Native)),
            r is Ok <==> resolvable(symbol@, opt_chars(token_address)),
            r matches Err(e) ==> e is Argument,
    {
        if text_eq(symbol, "ETH") {
            return Ok(PriceTarget::Native);
        }
        match token_address {
            Some(t) => match parse_address(t) {
                Some(a) => Ok(PriceTarget::Token(a)),
                None => Err(ToolError::Argument(owned("Invalid token_address"))),
            },
            None => {
                if text_eq(symbol, "USDC") {
                    Ok(PriceTarget::Token(usdc_address()))
                } else if text_eq(symbol, "WETH") {
                    Ok(PriceTarget::Token(weth_address()))
                } else if text_eq(symbol, "WBTC") {
                    Ok(PriceTarget::Token(wbtc_address()))
                } else {
                    Err(ToolError::Argument(owned("Unknown token symbol. Please provide token_address.")))
                }
            },
        }
    }

    /// The upper-case form of the requested symbol (`ETH` when none is
    /// given) and where its price comes from.
    pub fn plan(symbol: Option<&str>, token_address: Option<&str>) -> (r: Result<
        (String, PriceTarget),
        ToolError,
    >)
        ensures
            r matches Ok(p) ==> p.0@ == upper_of(
                match symbol {
                    Some(s) => s@,
                    None => "ETH"@,
                },
            ),
            r matches Ok(p) ==> (p.1 is Native <==> p.0@ == "ETH"@),
            r is Ok <==> resolvable(
                upper_of(
                    match symbol {
                        Some(s) => s@,
                        None => "ETH"@,
                    },
                ),
                opt_chars(token_address),
            ),
            r matches Ok(p) ==> (p.1 matches PriceTarget::Token(a) ==> (token_address matches Some(t)
                ==> a.bytes@ == address_bytes(t@))),
            r matches Ok(p) ==> (p.1 matches PriceTarget::Token(a) ==> (token_address is None ==> Some(
                a.bytes@,
            ) == known_token(p.0@))),
            r matches Err(e) ==> e is Argument,
    {
        let upper = match symbol {
            Some(s) => to_upper(s),
            None => to_upper("ETH"),
        };
        let target = Self::resolve(upper.as_str(), token_address)?;
        Ok((upper, target))
    }

    /// The pool found by the factory; the zero address means none exists.
    pub fn check_pool(pool: Address, symbol: &str) -> (r: Result<Address, ToolError>)
        ensures
            r is Ok <==> !pool.is_zero_spec(),
            r matches Ok(a) ==> a == pool,
            r matches Err(e) ==> e matches ToolError::NotFound(m) && m@ == "No Uniswap V3 pool found for "@
                + symbol@ + "/WETH (0.3%)"@,
    {
        if pool.is_zero() {
            let m = owned("No Uniswap V3 pool found for ").concat(symbol).concat("/WETH (0.3%)");
            Err(ToolError::NotFound(m))
        } else {
            Ok(pool)
        }
    }

    /// The USD price of the native asset from the oracle's answer and decimals.
    pub fn native_usd_price(answer: i128, decimals: u8) -> (r: Result<Dec, ToolError>)
        ensures
            r is Ok <==> -MANTISSA_MAX <= answer <= MANTISSA_MAX && decimals <= MAX_SCALE,
            r matches Ok(v) ==> v == oracle_price_spec(answer as int, decimals as nat) && v.wf(),
            r matches Err(e) ==> e is Decode,
    {
        match oracle_price(answer, decimals) {
            Ok(v) => Ok(v),
            Err(e) => Err(numeric_failure(e)),
        }
    }

    /// The token's price in the wrapped native asset and in USD, from its
    /// pool's square-root price, whether the token is the pool's first
    /// asset, the two assets' decimals and the native asset's USD price.
    pub fn derive(
        symbol: String,
        sqrt_price_x96: Uint160,
        token_is_first: bool,
        token_decimals: u8,
        native_decimals: u8,
        native_usd: Dec,
    ) -> (r: Result<PriceReport, ToolError>)
        requires
            native_usd.wf(),
        ensures
            r matches Ok(p) ==> p.symbol@ == symbol@ && Ok::<Dec, NumError>(p.price_in_native)
                == price_in_pair_spec(
                sqrt_price_x96.value(),
                token_is_first,
                token_decimals as nat,
                native_decimals as nat,
            ) && Ok::<Dec, NumError>(p.price_in_usd) == product_spec(p.price_in_native, native_usd),
            r is Err ==> (price_in_pair_spec(
                sqrt_price_x96.value(),
                token_is_first,
                token_decimals as nat,
                native_decimals as nat,
            ) is Err || (price_in_pair_spec(
                sqrt_price_x96.value(),
                token_is_first,
                token_decimals as nat,
                native_decimals as nat,
            ) matches Ok(v) && product_spec(v, native_usd) is Err)),
    {
        let in_native = match price_in_pair(
            sqrt_price_x96,
            token_is_first,
            token_decimals,
            native_decimals,
        ) {
            Ok(v) => v,
            Err(e) => {
                return Err(numeric_failure(e));
            },
        };
        let in_usd = match multiply(in_native, native_usd) {
            Ok(v) => v,
            Err(e) => {
                return Err(numeric_failure(e));
            },
        };
        Ok(PriceReport { symbol, price_in_native: in_native, price_in_usd: in_usd })
    }
}

} // verus!
