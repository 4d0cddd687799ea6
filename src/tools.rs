//! The registered tools, their names, and the failures they report.
use crate::numeric::NumError;
use crate::text::{owned, text_eq};
use vstd::prelude::*;

verus! {

/// One of the tools that the server offers.
#[derive(Clone, Copy, Debug, PartialEq, Eq, Structural)]
pub enum ToolKind {
    Balance,
    Price,
    Swap,
}

/// Why a tool gave no result; each carries a human-readable message.
#[derive(Clone, Debug)]
pub enum ToolError {
    /// An argument is missing or malformed.
    Argument(String),
    /// A call to the chain failed.
    ChainCall(String),
    /// A value from the chain could not be decoded or represented.
    Decode(String),
    /// Something looked up on the chain does not exist.
    NotFound(String),
}

impl ToolError {
    /// The message of the failure.
    pub open spec fn message_spec(&self) -> Seq<char> {
        match self {
            ToolError::Argument(m) => m@,
            ToolError::ChainCall(m) => m@,
            ToolError::Decode(m) => m@,
            ToolError::NotFound(m) => m@,
        }
    }

    /// The message of the failure.
    pub fn message(&self) -> (r: String)
        ensures
            r@ == self.message_spec(),
    {
        match self {
            ToolError::Argument(m) => m.clone(),
            ToolError::ChainCall(m) => m.clone(),
            ToolError::Decode(m) => m.clone(),
            ToolError::NotFound(m) => m.clone(),
        }
    }
}

/// The stable name of a tool.
pub open spec fn tool_name(k: ToolKind) -> Seq<char> {
    match k {
        ToolKind::Balance => "get_balance"@,
        ToolKind::Price => "get_token_price"@,
        ToolKind::Swap => "swap_tokens"@,
    }
}

/// The human-readable description of a tool.
pub open spec fn tool_description(k: ToolKind) -> Seq<char> {
    match k {
        ToolKind::Balance => "Get the balance of ETH or an ERC20 token for a specific address"@,
        ToolKind::Price =>
            "Get the current price of a token in USD or ETH. Uses Chainlink for ETH/USD and Uniswap V3 for others."@,
        ToolKind::Swap => "Simulate a token swap on Uniswap V3 and construct the transaction."@,
    }
}

impl ToolKind {
    /// The tool's stable name.
    pub fn name(&self) -> (r: &'static str)
        ensures
            r@ == tool_name(*self),
    {
        match self {
            ToolKind::Balance => "get_balance",
            ToolKind::Price => "get_token_price",
            ToolKind::Swap => "swap_tokens",
        }
    }

    /// The tool's description.
    pub fn description(&self) -> (r: &'static str)
        ensures
            r@ == tool_description(*self),
    {
        match self {
            ToolKind::Balance => "Get the balance of ETH or an ERC20 token for a specific address",
            ToolKind::Price =>
                "Get the current price of a token in USD or ETH. Uses Chainlink for ETH/USD and Uniswap V3 for others.",
            ToolKind::Swap => "Simulate a token swap on Uniswap V3 and construct the transaction.",
        }
    }
}

/// Every tool, each once.
pub fn all_tools() -> (r: Vec<ToolKind>)
    ensures
        r@ == seq![ToolKind::Balance, ToolKind::Price, ToolKind::Swap],
{
    vec![ToolKind::Balance, ToolKind::Price, ToolKind::Swap]
}

/// The tool registered under `name`.
pub fn find_tool(name: &str) -> (r: Option<ToolKind>)
    ensures
        r matches Some(k) ==> tool_name(k) == name@,
        r is None ==> forall|k: ToolKind| tool_name(k) != name@,
{
    if text_eq(name, "get_balance") {
        Some(ToolKind::Balance)
    } else if text_eq(name, "get_token_price") {
        Some(ToolKind::Price)
    } else if text_eq(name, "swap_tokens") {
        Some(ToolKind::Swap)
    } else {
        proof {
            assert forall|k: ToolKind| tool_name(k) != name@ by {
                match k {
                    ToolKind::Balance => {},
                    ToolKind::Price => {},
                    ToolKind::Swap => {},
                }
            }
        }
        None
    }
}

/// The failure reported for a numeric derivation that gave no value: an
/// argument error for a slippage out of range, else a decode error.
pub fn numeric_failure(e: NumError) -> (r: ToolError)
    ensures
        e == NumError::SlippageOutOfRange ==> r is Argument,
        e != NumError::SlippageOutOfRange ==> r is Decode,
{
    match e {
        NumError::Overflow => ToolError::Decode(owned("value exceeds the decimal range")),
        NumError::ScaleOutOfRange => ToolError::Decode(owned("too many decimal places")),
        NumError::DivisionByZero => ToolError::Decode(owned("division by zero")),
        NumError::SlippageOutOfRange => ToolError::Argument(
            owned("slippage_tolerance must be at most 100"),
        ),
    }
}

} // verus!
