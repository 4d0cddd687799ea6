//! The swap tool: quote, minimum output and the router transaction, simulated only.
use crate::numeric::{
    slippage_floor, slippage_floor_spec, slippage_out_of_range, Dec,
};
use crate::text::{
    address_bytes, is_address_text, is_decimal, is_decimal_text, owned, parse_address, Address,
};
use crate::tools::{numeric_failure, ToolError};
use vstd::prelude::*;

verus! {

/// The fee tier used when none is given.
pub const DEFAULT_FEE: u64 = 3000;

/// Pool fee tiers are 24-bit numbers.
pub const FEE_MODULUS: u64 = 0x100_0000;

/// The swap tool, which quotes a swap and builds, but never sends, the
/// router transaction for it.
#[derive(Clone, Copy, Debug)]
pub struct SwapTokensTool;

/// A checked swap request.
#[derive(Clone, Debug)]
pub struct SwapPlan {
    pub from_token: Address,
    pub to_token: Address,
    /// The input amount in base units, as given.
    pub amount: String,
    pub fee: u32,
    pub slippage_percent: Dec,
}

/// What the quoting contract's answer decoded to.
#[derive(Clone, Debug)]
pub enum Quote {
    Decoded { amount_out: u128, gas_estimate: u128 },
    /// The answer could not be decoded; the message says why.
    Undecodable(String),
}

/// The figures of a simulated swap.
#[derive(Clone, Debug)]
pub struct SwapFigures {
    pub estimated_output: u128,
    pub minimum_output: u128,
    pub gas_estimate: u128,
    /// Why the quote could not be decoded, if it could not.
    pub decode_error: Option<String>,
}

/// The router call that the swap would be made with; it is built and
/// simulated, never sent.
#[derive(Clone, Debug)]
pub struct RouterCall {
    /// The contract called.
    pub router: Address,
    pub token_in: Address,
    pub token_out: Address,
    pub fee: u32,
    /// Receives the output: the sender itself.
    pub recipient: Address,
    /// The deadline, big-endian: all ones, so no time limit.
    pub deadline: [u8; 32],
    /// The input amount in base units, as given.
    pub amount_in: String,
    pub amount_out_minimum: u128,
    /// No price limit.
    pub sqrt_price_limit_x96: u128,
    /// Native value sent with the call.
    pub value: u128,
}

/// The router contract that the transaction is built for.
pub fn router_address() -> (r: Address)
    ensures
        r.bytes@ == router_bytes(),
{
    let r = Address {
        bytes: [
            0xe5, 0x92, 0x42, 0x7a, 0x0a, 0xec, 0xe9, 0x2d, 0xe3, 0xed, 0xee, 0x1f, 0x18, 0xe0, 0x15,
            0x7c, 0x05, 0x86, 0x15, 0x64,
        ],
    };
    assert(r.bytes@ =~= router_bytes());
    r
}

pub open spec fn router_bytes() -> Seq<u8> {
    seq![
        0xe5u8, 0x92, 0x42, 0x7a, 0x0a, 0xec, 0xe9, 0x2d, 0xe3, 0xed, 0xee, 0x1f, 0x18, 0xe0, 0x15,
        0x7c, 0x05, 0x86, 0x15, 0x64,
    ]
}

/// The quoting contract.
pub fn quoter_address() -> (r: Address)
    ensures
        r.bytes@ == quoter_bytes(),
{
    let r = Address {
        bytes: [
            0x61, 0xff, 0xe0, 0x14, 0x9a, 0x33, 0x2c, 0x47, 0xd8, 0x47, 0x29, 0x6f, 0x72, 0x0a, 0x48,
            0x85, 0x5e, 0x9c, 0xb7, 0x54,
        ],
    };
    assert(r.bytes@ =~= quoter_bytes());
    r
}

pub open spec fn quoter_bytes() -> Seq<u8> {
    seq![
        0x61u8, 0xff, 0xe0, 0x14, 0x9a, 0x33, 0x2c, 0x47, 0xd8, 0x47, 0x29, 0x6f, 0x72, 0x0a, 0x48,
        0x85, 0x5e, 0x9c, 0xb7, 0x54,
    ]
}

impl SwapTokensTool {
    /// The router call for a checked swap with its figures, sent from and
    /// paying out to `sender`, with no deadline and no price limit.
    pub fn router_call(plan: &SwapPlan, figures: &SwapFigures, sender: Address) -> (r: RouterCall)
        ensures
            r.router.bytes@ == router_bytes(),
            r.token_in == plan.from_token,
            r.token_out == plan.to_token,
            r.fee == plan.fee,
            r.recipient == sender,
            forall|i: int| 0 <= i < 32 ==> #[trigger] r.deadline@[i] == 0xffu8,
            r.amount_in@ == plan.amount@,
            r.amount_out_minimum == figures.minimum_output,
            r.sqrt_price_limit_x96 == 0,
            r.value == 0,
    {
        RouterCall {
            router: router_address(),
            token_in: plan.from_token,
            token_out: plan.to_token,
            fee: plan.fee,
            recipient: sender,
            deadline: [0xffu8; 32],
            amount_in: plan.amount.clone(),
            amount_out_minimum: figures.minimum_output,
            sqrt_price_limit_x96: 0,
            value: 0,
        }
    }

    /// The fee tier: the given one, or 3000, kept to its low 24 bits.
    pub fn fee_tier(fee: Option<u64>) -> (r: u32)
        ensures
            r == (match fee {
                Some(f) => f,
                None => DEFAULT_FEE,
            }) % FEE_MODULUS,
    {
        let f = match fee {
            Some(f) => f,
            None => DEFAULT_FEE,
        };
        (f % FEE_MODULUS) as u32
    }

    /// The slippage tolerance used when none is given: half a percent.
    pub fn default_slippage() -> (r: Dec)
        ensures
            r == (Dec { negative: false, mantissa: 5, scale: 1 }),
    {
        Dec { negative: false, mantissa: 5, scale: 1 }
    }

    /// Checks the arguments: both token addresses and the amount, a base-10
    /// integer, are required; fee and slippage fall back to their defaults.
    pub fn plan(
        from_token: Option<&str>,
        to_token: Option<&str>,
        amount: Option<&str>,
        fee: Option<u64>,
        slippage_percent: Option<Dec>,
    ) -> (r: Result<SwapPlan, ToolError>)
        ensures
            r is Ok <==> ((from_token matches Some(f) && is_address_text(f@)) && (to_token matches Some(
                t,
            ) && is_address_text(t@)) && (amount matches Some(a) && is_decimal_text(a@))),
            r matches Err(e) ==> e is Argument,
            r matches Ok(p) ==> p.from_token.bytes@ == address_bytes(from_token->0@)
                && p.to_token.bytes@ == address_bytes(to_token->0@) && p.amount@ == amount->0@
                && p.fee == (match fee {
                Some(f) => f,
                None => DEFAULT_FEE,
            }) % FEE_MODULUS && p.slippage_percent == (match slippage_percent {
                Some(s) => s,
                None => Dec { negative: false, mantissa: 5, scale: 1 },
            }),
    {
        let from = match from_token {
            Some(t) => match parse_address(t) {
                Some(a) => a,
                None => {
                    return Err(ToolError::Argument(owned("Invalid from_token")));
                },
            },
            None => {
                return Err(ToolError::Argument(owned("Missing from_token")));
            },
        };
        let to = match to_token {
            Some(t) => match parse_address(t) {
                Some(a) => a,
                None => {
                    return Err(ToolError::Argument(owned("Invalid to_token")));
                },
            },
            None => {
                return Err(ToolError::Argument(owned("Missing to_token")));
            },
        };
        let amount = match amount {
            Some(a) => {
                if !is_decimal(a) {
                    return Err(ToolError::Argument(owned("Invalid amount")));
                }
                owned(a)
            },
            None => {
                return Err(ToolError::Argument(owned("Missing amount")));
            },
        };
        let slippage = match slippage_percent {
            Some(s) => s,
            None => Self::default_slippage(),
        };
        Ok(
            SwapPlan {
                from_token: from,
                to_token: to,
                amount,
                fee: Self::fee_tier(fee),
                slippage_percent: slippage,
            },
        )
    }

    /// The swap's figures from the quote: a decoded quote gives the estimate
    /// and the minimum output after slippage; an undecodable one does not
    /// fail the tool but gives zero figures and the decoding failure.
    pub fn figures(quote: Quote, slippage_percent: Dec) -> (r: Result<SwapFigures, ToolError>)
        requires
            slippage_percent.wf(),
        ensures
            quote matches Quote::Undecodable(m) ==> r matches Ok(f) && f.estimated_output == 0
                && f.minimum_output == 0 && f.gas_estimate == 0 && f.decode_error == Some(m),
            quote is Decoded && !slippage_out_of_range(slippage_percent) ==> (r is Ok <==> (quote matches Quote::Decoded {
                amount_out,
                gas_estimate,
            } && slippage_floor_spec(
                amount_out as nat,
                slippage_percent.signed(),
                slippage_percent.scale as nat,
            ) <= u128::MAX)),
            quote matches Quote::Decoded { amount_out, gas_estimate } ==> (r matches Ok(f)
                ==> f.estimated_output == amount_out && f.gas_estimate == gas_estimate
                && f.decode_error is None && f.minimum_output == slippage_floor_spec(
                amount_out as nat,
                slippage_percent.signed(),
                slippage_percent.scale as nat,
            )),
            quote is Decoded && slippage_out_of_range(slippage_percent) ==> (r matches Err(e)
                && e is Argument),
            quote is Decoded && !slippage_out_of_range(slippage_percent) ==> (r matches Err(e)
                ==> e is Decode),
    {
        match quote {
            Quote::Undecodable(m) => Ok(
                SwapFigures {
                    estimated_output: 0,
                    minimum_output: 0,
                    gas_estimate: 0,
                    decode_error: Some(m),
                },
            ),
            Quote::Decoded { amount_out, gas_estimate } => {
                match slippage_floor(amount_out, slippage_percent) {
                    Ok(minimum) => Ok(
                        SwapFigures {
                            estimated_output: amount_out,
                            minimum_output: minimum,
                            gas_estimate,
                            decode_error: None,
                        },
                    ),
                    Err(e) => Err(numeric_failure(e)),
                }
            },
        }
    }
}

} // verus!
