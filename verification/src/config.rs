//! Run configuration assembled from the raw text of environment variables.
//! Required variables must be present and parse; optional ones fall back to
//! fixed defaults, but if present they too must parse.

use vstd::prelude::*;
use crate::address::{address_bytes, parse_address, valid_address_str, Address};
use crate::amount::{u256_bound, Uint256};
use crate::digits::{all_dec_digits, dec_val, parse_u64_dec};
use crate::units::{parse_units18, units18_val, units18_valid};

verus! {

/// Default input amount when `AMOUNT_IN_MON` is unset: 0.1 token in units.
pub const DEFAULT_AMOUNT_IN_UNITS: u64 = 100000000000000000;

/// Default slippage tolerance in basis points (1%).
pub const DEFAULT_SLIPPAGE_BPS: u64 = 100;

/// Default deadline offset in seconds.
pub const DEFAULT_DEADLINE_SECS: u64 = 600;

/// Default settlement wait in seconds.
pub const DEFAULT_SETTLEMENT_WAIT_SECS: u64 = 30;

/// Why configuration loading failed.
#[derive(Clone, Copy, PartialEq, Eq, Structural, Debug)]
pub enum ConfigError {
    MissingRpcUrl,
    MissingPrivateKey,
    MissingTokenAddress,
    InvalidAmount,
    InvalidTokenAddress,
    InvalidRecipientAddress,
    InvalidSlippage,
    InvalidDeadline,
    InvalidSettlementWait,
}

/// The run's immutable configuration.
pub struct AppConfig {
    pub rpc_url: String,
    pub private_key: String,
    pub token: Address,
    pub amount_in: Uint256,
    pub slippage_bps: u64,
    pub recipient: Option<Address>,
    pub deadline_secs_from_now: u64,
    pub settlement_wait_secs: u64,
}

impl AppConfig {
    pub open spec fn wf(&self) -> bool {
        self.token.wf() && match self.recipient {
            Some(r) => r.wf(),
            None => true,
        }
    }
}

/// The text is a decimal numeral whose value fits in 64 bits.
pub open spec fn valid_u64_str(s: Seq<char>) -> bool {
    s.len() > 0 && all_dec_digits(s) && dec_val(s) < 0x10000000000000000
}

/// An optional amount text parses (an unset one falls back to the default).
pub open spec fn amount_text_ok(a: Option<&str>) -> bool {
    match a {
        None => true,
        Some(s) => units18_valid(s@) && units18_val(s@) < u256_bound(),
    }
}

/// An optional address text parses (an unset one is allowed).
pub open spec fn opt_addr_ok(a: Option<&str>) -> bool {
    match a {
        None => true,
        Some(s) => valid_address_str(s@),
    }
}

/// An optional numeral text parses (an unset one falls back to a default).
pub open spec fn opt_u64_ok(v: Option<&str>) -> bool {
    match v {
        None => true,
        Some(s) => valid_u64_str(s@),
    }
}

/// Builds the configuration from the raw values of the environment
/// variables, `None` standing for an unset variable.  Returns the first
/// error in a fixed order: missing required values, then unparsable fields.
pub fn from_values(
    rpc_url: Option<String>,
    private_key: Option<String>,
    token_address: Option<&str>,
    amount_in_mon: Option<&str>,
    recipient_address: Option<&str>,
    slippage_bps: Option<&str>,
    deadline_secs: Option<&str>,
    settlement_wait_secs: Option<&str>,
) -> (r: Result<AppConfig, ConfigError>)
    ensures
        rpc_url is None ==> r == Result::<AppConfig, ConfigError>::Err(ConfigError::MissingRpcUrl),
        rpc_url is Some && private_key is None ==> r == Result::<
            AppConfig,
            ConfigError,
        >::Err(ConfigError::MissingPrivateKey),
        rpc_url is Some && private_key is Some && token_address is None ==> r == Result::<
            AppConfig,
            ConfigError,
        >::Err(ConfigError::MissingTokenAddress),
        rpc_url is Some && private_key is Some && token_address is Some && !amount_text_ok(
            amount_in_mon,
        ) ==> r == Result::<AppConfig, ConfigError>::Err(ConfigError::InvalidAmount),
        rpc_url is Some && private_key is Some && token_address is Some && amount_text_ok(
            amount_in_mon,
        ) && !valid_address_str(token_address.unwrap()@) ==> r == Result::<
            AppConfig,
            ConfigError,
        >::Err(ConfigError::InvalidTokenAddress),
        rpc_url is Some && private_key is Some && token_address is Some && amount_text_ok(
            amount_in_mon,
        ) && valid_address_str(token_address.unwrap()@) && !opt_addr_ok(recipient_address) ==> r
            == Result::<AppConfig, ConfigError>::Err(ConfigError::InvalidRecipientAddress),
        rpc_url is Some && private_key is Some && token_address is Some && amount_text_ok(
            amount_in_mon,
        ) && valid_address_str(token_address.unwrap()@) && opt_addr_ok(recipient_address)
            && !opt_u64_ok(slippage_bps) ==> r == Result::<
            AppConfig,
            ConfigError,
        >::Err(ConfigError::InvalidSlippage),
        rpc_url is Some && private_key is Some && token_address is Some && amount_text_ok(
            amount_in_mon,
        ) && valid_address_str(token_address.unwrap()@) && opt_addr_ok(recipient_address)
            && opt_u64_ok(slippage_bps) && !opt_u64_ok(deadline_secs) ==> r == Result::<
            AppConfig,
            ConfigError,
        >::Err(ConfigError::InvalidDeadline),
        rpc_url is Some && private_key is Some && token_address is Some && amount_text_ok(
            amount_in_mon,
        ) && valid_address_str(token_address.unwrap()@) && opt_addr_ok(recipient_address)
            && opt_u64_ok(slippage_bps) && opt_u64_ok(deadline_secs) && !opt_u64_ok(
            settlement_wait_secs,
        ) ==> r == Result::<AppConfig, ConfigError>::Err(ConfigError::InvalidSettlementWait),
        r is Ok ==> {
            let cfg = r.unwrap();
            &&& rpc_url is Some && private_key is Some && token_address is Some
            &&& amount_text_ok(amount_in_mon)
            &&& valid_address_str(token_address.unwrap()@)
            &&& opt_addr_ok(recipient_address)
            &&& opt_u64_ok(slippage_bps)
            &&& opt_u64_ok(deadline_secs)
            &&& opt_u64_ok(settlement_wait_secs)
            &&& cfg.wf()
            &&& cfg.rpc_url@ == rpc_url.unwrap()@
            &&& cfg.private_key@ == private_key.unwrap()@
            &&& cfg.token@ == address_bytes(token_address.unwrap()@)
            &&& cfg.amount_in.as_nat() == match amount_in_mon {
                Some(a) => units18_val(a@),
                None => DEFAULT_AMOUNT_IN_UNITS as nat,
            }
            &&& cfg.slippage_bps as nat == match slippage_bps {
                Some(v) => dec_val(v@),
                None => DEFAULT_SLIPPAGE_BPS as nat,
            }
            &&& match recipient_address {
                Some(s) => cfg.recipient is Some && cfg.recipient.unwrap()@ == address_bytes(s@),
                None => cfg.recipient is None,
            }
            &&& cfg.deadline_secs_from_now as nat == match deadline_secs {
                Some(v) => dec_val(v@),
                None => DEFAULT_DEADLINE_SECS as nat,
            }
            &&& cfg.settlement_wait_secs as nat == match settlement_wait_secs {
                Some(v) => dec_val(v@),
                None => DEFAULT_SETTLEMENT_WAIT_SECS as nat,
            }
        },
        r is Err <==> !(rpc_url is Some && private_key is Some && token_address is Some
            && amount_text_ok(amount_in_mon) && valid_address_str(token_address.unwrap()@)
            && opt_addr_ok(recipient_address) && opt_u64_ok(slippage_bps) && opt_u64_ok(
            deadline_secs,
        ) && opt_u64_ok(settlement_wait_secs)),
{
    let rpc_url = match rpc_url {
        Some(v) => v,
        None => {
            return Err(ConfigError::MissingRpcUrl);
        },
    };
    let private_key = match private_key {
        Some(v) => v,
        None => {
            return Err(ConfigError::MissingPrivateKey);
        },
    };
    let token_text = match token_address {
        Some(v) => v,
        None => {
            return Err(ConfigError::MissingTokenAddress);
        },
    };
    let amount_in = match amount_in_mon {
        Some(a) => match parse_units18(a) {
            Some(v) => v,
            None => {
                return Err(ConfigError::InvalidAmount);
            },
        },
        None => Uint256::from_u64(DEFAULT_AMOUNT_IN_UNITS),
    };
    let token = match parse_address(token_text) {
        Some(a) => a,
        None => {
            return Err(ConfigError::InvalidTokenAddress);
        },
    };
    let recipient = match recipient_address {
        Some(s) => match parse_address(s) {
            Some(a) => Some(a),
            None => {
                return Err(ConfigError::InvalidRecipientAddress);
            },
        },
        None => None,
    };
    let slippage_bps = match slippage_bps {
        Some(s) => match parse_u64_dec(s) {
            Some(v) => v,
            None => {
                return Err(ConfigError::InvalidSlippage);
            },
        },
        None => DEFAULT_SLIPPAGE_BPS,
    };
    let deadline_secs_from_now = match deadline_secs {
        Some(s) => match parse_u64_dec(s) {
            Some(v) => v,
            None => {
                return Err(ConfigError::InvalidDeadline);
            },
        },
        None => DEFAULT_DEADLINE_SECS,
    };
    let settlement_wait_secs = match settlement_wait_secs {
        Some(s) => match parse_u64_dec(s) {
            Some(v) => v,
            None => {
                return Err(ConfigError::InvalidSettlementWait);
            },
        },
        None => DEFAULT_SETTLEMENT_WAIT_SECS,
    };
    Ok(
        AppConfig {
            rpc_url,
            private_key,
            token,
            amount_in,
            slippage_bps,
            recipient,
            deadline_secs_from_now,
            settlement_wait_secs,
        },
    )
}

} // verus!
