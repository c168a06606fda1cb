//! The trade's state machine: one buy for a fixed input amount, a settlement
//! wait, a balance check, then a sell of the whole balance with no minimum
//! output — or an abort when nothing was received.

use vstd::prelude::*;
use crate::address::Address;
use crate::amount::{min_out_spec, apply_slippage, u256_bound, Uint256, BASIS_POINTS};
use crate::config::AppConfig;

verus! {

/// Where the trade stands.
#[derive(Clone, Copy, PartialEq, Eq, Structural, Debug)]
pub enum Phase {
    Quoting,
    Buying,
    Settling,
    Selling,
    Done,
    Aborted,
}

/// A swap order: spend `amount_in`, demand at least `amount_out_min`, pay out
/// to `recipient`, void after `deadline` (unix seconds).
pub struct Order {
    pub amount_in: Uint256,
    pub amount_out_min: Uint256,
    pub recipient: Address,
    pub deadline: u64,
}

/// What to do once the post-buy balance is known.
pub enum SellDecision {
    /// Sell the whole balance.
    Sell(Order),
    /// The buy yielded nothing: stop without selling.
    AbortZeroBalance,
}

/// Drives one buy-then-sell trade.  Methods accept events in the fixed
/// order of the pipeline; each names the phase it expects.
pub struct TradeEngine {
    pub token: Address,
    pub amount_in: Uint256,
    pub slippage_bps: u64,
    pub recipient: Address,
    pub deadline: u64,
    pub settlement_wait_secs: u64,
    pub phase: Phase,
}

impl TradeEngine {
    pub open spec fn wf(&self) -> bool {
        self.token.wf() && self.recipient.wf() && self.slippage_bps <= 10000
    }

    /// Starts a trade: the recipient is the configured one, or the signer's
    /// own address when none was configured; the deadline is `now` plus the
    /// configured offset.
    pub fn new(cfg: &AppConfig, signer: &Address, now: u64) -> (e: TradeEngine)
        requires
            cfg.wf(),
            signer.wf(),
            cfg.slippage_bps <= 10000,
            now + cfg.deadline_secs_from_now <= u64::MAX,
        ensures
            e.wf(),
            e.phase == Phase::Quoting,
            e.token@ == cfg.token@,
            e.amount_in == cfg.amount_in,
            e.slippage_bps == cfg.slippage_bps,
            e.deadline == now + cfg.deadline_secs_from_now,
            e.settlement_wait_secs == cfg.settlement_wait_secs,
            match cfg.recipient {
                Some(rc) => e.recipient@ == rc@,
                None => e.recipient@ == signer@,
            },
    {
        let recipient = match &cfg.recipient {
            Some(rc) => rc.clone_addr(),
            None => signer.clone_addr(),
        };
        TradeEngine {
            token: cfg.token.clone_addr(),
            amount_in: cfg.amount_in,
            slippage_bps: cfg.slippage_bps,
            recipient,
            deadline: now + cfg.deadline_secs_from_now,
            settlement_wait_secs: cfg.settlement_wait_secs,
            phase: Phase::Quoting,
        }
    }

    /// Takes the quoted output and plans the buy: the same input amount, a
    /// minimum output reduced by the slippage tolerance, the resolved
    /// recipient and the deadline.  `None` exactly when the reduced minimum
    /// does not fit in 256 bits; the trade is then aborted.
    pub fn on_quote(&mut self, quoted_out: &Uint256) -> (o: Option<Order>)
        requires
            old(self).wf(),
            old(self).phase == Phase::Quoting,
        ensures
            final(self).wf(),
            final(self).token == old(self).token,
            final(self).amount_in == old(self).amount_in,
            final(self).slippage_bps == old(self).slippage_bps,
            final(self).recipient == old(self).recipient,
            final(self).deadline == old(self).deadline,
            final(self).settlement_wait_secs == old(self).settlement_wait_secs,
            o is Some <==> quoted_out.as_nat() * ((10000 - old(self).slippage_bps) as nat)
                < u256_bound(),
            match o {
                Some(ord) => {
                    &&& final(self).phase == Phase::Buying
                    &&& ord.amount_in == old(self).amount_in
                    &&& ord.amount_out_min.as_nat() == min_out_spec(
                        quoted_out.as_nat(),
                        old(self).slippage_bps as nat,
                    )
                    &&& ord.recipient@ == old(self).recipient@
                    &&& ord.deadline == old(self).deadline
                },
                None => final(self).phase == Phase::Aborted,
            },
    {
        let factor: u64 = BASIS_POINTS - self.slippage_bps;
        let prod = quoted_out.checked_mul_u64(factor);
        match prod {
            Some(_) => {
                let amount_out_min = apply_slippage(quoted_out, self.slippage_bps);
                self.phase = Phase::Buying;
                Some(
                    Order {
                        amount_in: self.amount_in,
                        amount_out_min,
                        recipient: self.recipient.clone_addr(),
                        deadline: self.deadline,
                    },
                )
            },
            None => {
                self.phase = Phase::Aborted;
                None
            },
        }
    }

    /// Notes that the buy was submitted; returns how many seconds to wait
    /// for settlement before checking the balance.
    pub fn on_buy_submitted(&mut self) -> (wait_secs: u64)
        requires
            old(self).wf(),
            old(self).phase == Phase::Buying,
        ensures
            *final(self) == (TradeEngine { phase: Phase::Settling, ..*old(self) }),
            wait_secs == old(self).settlement_wait_secs,
    {
        self.phase = Phase::Settling;
        self.settlement_wait_secs
    }

    /// Decides from the post-buy balance: a zero balance aborts the trade
    /// before any sell; otherwise the whole balance is sold with a minimum
    /// output of zero, to the same recipient and deadline.
    pub fn on_balance(&mut self, balance: &Uint256) -> (d: SellDecision)
        requires
            old(self).wf(),
            old(self).phase == Phase::Settling,
        ensures
            final(self).wf(),
            final(self).token == old(self).token,
            final(self).amount_in == old(self).amount_in,
            final(self).slippage_bps == old(self).slippage_bps,
            final(self).recipient == old(self).recipient,
            final(self).deadline == old(self).deadline,
            final(self).settlement_wait_secs == old(self).settlement_wait_secs,
            balance.as_nat() == 0 <==> d is AbortZeroBalance,
            d is AbortZeroBalance ==> final(self).phase == Phase::Aborted,
            d matches SellDecision::Sell(ord) ==> {
                &&& final(self).phase == Phase::Selling
                &&& balance.as_nat() != 0
                &&& ord.amount_in == *balance
                &&& ord.amount_out_min.as_nat() == 0
                &&& ord.recipient@ == old(self).recipient@
                &&& ord.deadline == old(self).deadline
            },
    {
        if balance.is_zero() {
            self.phase = Phase::Aborted;
            SellDecision::AbortZeroBalance
        } else {
            self.phase = Phase::Selling;
            SellDecision::Sell(
                Order {
                    amount_in: *balance,
                    amount_out_min: Uint256::zero(),
                    recipient: self.recipient.clone_addr(),
                    deadline: self.deadline,
                },
            )
        }
    }

    /// Notes that the sell was submitted: the trade is complete.
    pub fn on_sell_submitted(&mut self)
        requires
            old(self).wf(),
            old(self).phase == Phase::Selling,
        ensures
            *final(self) == (TradeEngine { phase: Phase::Done, ..*old(self) }),
    {
        self.phase = Phase::Done;
    }
}

} // verus!
