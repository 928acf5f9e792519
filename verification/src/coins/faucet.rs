//! Scheduled coin issuance.
use vstd::prelude::*;

use super::ops::{add_spec, div_spec, mul_spec};
use super::traits::Symbol;
use super::{Amount, Coin, Decimal};
use crate::error::{coins_error, fails_with, Error, Result};
use core::marker::PhantomData;

verus! {

/// A faucet for minting coins of a specific symbol over time.
///
/// The coins are spread over a number of periods of equal length; each
/// period mints the previous period's amount times the decay, and within a
/// period coins are minted in proportion to the time elapsed.
#[derive(Debug)]
pub struct Faucet<S: Symbol> {
    /// Phantom data to hold the symbol type.
    pub symbol: PhantomData<S>,
    /// Whether the faucet has been configured.
    pub configured: bool,
    /// Total amount of coins minted so far.
    pub amount_minted: Amount,
    /// Start time of the faucet in unix seconds.
    pub start_seconds: i64,
    /// Sum of all period multipliers.
    pub multiplier_total: Decimal,
    /// Total amount of coins to be minted.
    pub total_to_mint: Amount,
    /// Decay rate between periods.
    pub period_decay: Decimal,
    /// Duration of each period in seconds.
    pub seconds_per_period: u64,
    /// Number of minting periods.
    pub num_periods: u32,
}

/// Options for configuring a [Faucet].
#[derive(Debug)]
pub struct FaucetOptions {
    /// Number of minting periods.
    pub num_periods: u32,
    /// Duration of each period, in seconds.
    pub period_length: u64,
    /// Total amount of coins to be minted.
    pub total_coins: Amount,
    /// Decay rate between periods.
    pub period_decay: Decimal,
    /// Start time of the faucet in unix seconds.
    pub start_seconds: i64,
}

/// The sum of the multipliers of `n` more periods, starting from the running
/// multiplier `rm` with the total so far `total`: each step multiplies the
/// running multiplier by the decay and adds it to the total.
pub open spec fn multiplier_sum(total: Decimal, rm: Decimal, decay: Decimal, n: nat) -> Result<Decimal>
    decreases n,
{
    if n == 0 {
        Ok(total)
    } else {
        match mul_spec(rm, decay) {
            Err(e) => Err(e),
            Ok(rm2) => match add_spec(total, rm2) {
                Err(e) => Err(e),
                Ok(t2) => multiplier_sum(t2, rm2, decay, (n - 1) as nat),
            },
        }
    }
}

/// The decimal total a faucet should have minted `secs` seconds after its
/// start, walking the periods from `i` with the total so far `total` and the
/// running multiplier `rm`: a finished period adds its whole share, the
/// period in progress adds its share in proportion to the time elapsed in
/// it.
pub open spec fn target_from<S: Symbol>(f: Faucet<S>, secs: int, i: int, total: Decimal, rm: Decimal) -> Result<Decimal>
    decreases f.num_periods - i,
{
    if i < 0 || i >= f.num_periods {
        Ok(total)
    } else {
        let this_period = match mul_spec(Decimal::from_u64_spec(f.total_to_mint.value), rm) {
            Err(e) => Err(e),
            Ok(m) => div_spec(m, f.multiplier_total),
        };
        match this_period {
            Err(e) => Err(e),
            Ok(t) => if secs > (i + 1) * f.seconds_per_period {
                match add_spec(total, t) {
                    Err(e) => Err(e),
                    Ok(total2) => match mul_spec(rm, f.period_decay) {
                        Err(e) => Err(e),
                        Ok(rm2) => target_from(f, secs, i + 1, total2, rm2),
                    },
                }
            } else {
                let seconds_into_period = secs - i * f.seconds_per_period;
                match div_spec(
                    Decimal::from_u64_spec(seconds_into_period as u64),
                    Decimal::from_u64_spec(f.seconds_per_period),
                ) {
                    Err(e) => Err(e),
                    Ok(fraction) => match mul_spec(fraction, t) {
                        Err(e) => Err(e),
                        Ok(p) => add_spec(total, p),
                    },
                }
            },
        }
    }
}

impl<S: Symbol> Faucet<S> {
    /// The decimals are well-formed, and the period arithmetic fits in an
    /// `i64`.
    pub open spec fn wf(&self) -> bool {
        &&& self.multiplier_total.wf()
        &&& self.period_decay.wf()
        &&& (self.num_periods + 1) * self.seconds_per_period <= i64::MAX
    }

    /// An unconfigured faucet.
    pub fn new() -> (r: Self)
        ensures
            r.wf(),
            !r.configured,
            r.amount_minted.value == 0,
    {
        Faucet {
            symbol: PhantomData,
            configured: false,
            amount_minted: Amount::new(0),
            start_seconds: 0,
            multiplier_total: Decimal::zero(),
            total_to_mint: Amount::new(0),
            period_decay: Decimal::zero(),
            seconds_per_period: 0,
            num_periods: 0,
        }
    }

    /// Initializes the faucet with the given options: the multiplier total is
    /// the sum of the decaying multipliers of all periods, starting from one.
    pub fn configure(&mut self, opts: FaucetOptions) -> (r: Result<()>)
        requires
            old(self).wf(),
            opts.num_periods >= 1,
            opts.period_decay.wf(),
            (opts.num_periods + 1) * opts.period_length <= i64::MAX,
        ensures
            final(self).wf(),
            multiplier_sum(
                Decimal::from_u64_spec(1),
                Decimal::from_u64_spec(1),
                opts.period_decay,
                (opts.num_periods - 1) as nat,
            ) matches Err(e) ==> r == Err::<(), Error>(e) && *final(self) == *old(self),
            multiplier_sum(
                Decimal::from_u64_spec(1),
                Decimal::from_u64_spec(1),
                opts.period_decay,
                (opts.num_periods - 1) as nat,
            ) matches Ok(total) ==> {
                &&& r is Ok
                &&& final(self).configured
                &&& final(self).multiplier_total == total
                &&& final(self).total_to_mint == opts.total_coins
                &&& final(self).num_periods == opts.num_periods
                &&& final(self).period_decay == opts.period_decay
                &&& final(self).start_seconds == opts.start_seconds
                &&& final(self).seconds_per_period == opts.period_length
                &&& final(self).amount_minted == old(self).amount_minted
            },
    {
        let mut multiplier_total = Decimal::from_u64(1);
        let mut running_multiplier = Decimal::from_u64(1);
        let num_periods = opts.num_periods;
        let period_decay = opts.period_decay;
        let n = num_periods - 1;
        let mut i: u32 = 0;
        while i < n
            invariant
                old(self).wf(),
                *self == *old(self),
                i <= n,
                n == opts.num_periods - 1,
                period_decay == opts.period_decay,
                period_decay.wf(),
                multiplier_total.wf(),
                running_multiplier.wf(),
                multiplier_sum(
                    Decimal::from_u64_spec(1),
                    Decimal::from_u64_spec(1),
                    period_decay,
                    n as nat,
                ) == multiplier_sum(multiplier_total, running_multiplier, period_decay, (n - i) as nat),
            decreases n - i,
        {
            running_multiplier = running_multiplier.checked_mul(period_decay)?;
            multiplier_total = multiplier_total.checked_add(running_multiplier)?;
            i = i + 1;
        }
        self.total_to_mint = opts.total_coins;
        self.configured = true;
        self.num_periods = num_periods;
        self.period_decay = opts.period_decay;
        self.start_seconds = opts.start_seconds;
        self.multiplier_total = multiplier_total;
        self.seconds_per_period = opts.period_length;
        Ok(())
    }

    /// Calculates the target amount of coins that should have been minted
    /// `seconds_since_start` seconds after the start.
    pub fn target_amount_minted(&self, seconds_since_start: i64) -> (r: Result<Amount>)
        requires
            self.wf(),
            seconds_since_start > 0,
        ensures
            match target_from(
                *self,
                seconds_since_start as int,
                0,
                Decimal::from_u64_spec(0),
                Decimal::from_u64_spec(1),
            ) {
                Ok(d) => d.amount_post(r),
                Err(e) => r == Err::<Amount, Error>(e),
            },
    {
        let mut total = Decimal::from_u64(0);
        let mut running_multiplier = Decimal::from_u64(1);
        let mut i: u32 = 0;
        proof {
            let np = self.num_periods as int;
            let sp = self.seconds_per_period as int;
            assert(sp <= (np + 1) * sp) by (nonlinear_arith)
                requires
                    np >= 0,
                    sp >= 0,
            ;
        }
        let spp = self.seconds_per_period as i64;
        while i < self.num_periods
            invariant
                self.wf(),
                i <= self.num_periods,
                spp == self.seconds_per_period,
                seconds_since_start > 0,
                total.wf(),
                running_multiplier.wf(),
                i > 0 ==> seconds_since_start > i * self.seconds_per_period,
                target_from(
                    *self,
                    seconds_since_start as int,
                    0,
                    Decimal::from_u64_spec(0),
                    Decimal::from_u64_spec(1),
                ) == target_from(*self, seconds_since_start as int, i as int, total, running_multiplier),
            decreases self.num_periods - i,
        {
            let m = Decimal::from_amount(self.total_to_mint).checked_mul(running_multiplier)?;
            let total_to_mint_this_period = m.checked_div(self.multiplier_total)?;
            proof {
                let np = self.num_periods as int;
                let sp = self.seconds_per_period as int;
                let ii = i as int;
                assert((ii + 1) * sp <= (np + 1) * sp) by (nonlinear_arith)
                    requires
                        ii < np,
                        sp >= 0,
                ;
                assert(ii * sp <= (ii + 1) * sp) by (nonlinear_arith)
                    requires
                        sp >= 0,
                ;
            }
            let end = (i as i64 + 1) * spp;
            if seconds_since_start > end {
                total = total.checked_add(total_to_mint_this_period)?;
                running_multiplier = running_multiplier.checked_mul(self.period_decay)?;
            } else {
                let seconds_into_period = seconds_since_start - (i as i64) * spp;
                let period_fraction = Decimal::from_amount(Amount::new(seconds_into_period as u64)).checked_div(
                    Decimal::from_amount(Amount::new(self.seconds_per_period)),
                )?;
                let part = period_fraction.checked_mul(total_to_mint_this_period)?;
                let sum = total.checked_add(part)?;
                return sum.amount();
            }
            i = i + 1;
        }
        total.amount()
    }

    /// Mints the coins due at `now`: the difference between the target
    /// amount for the time elapsed since the start and the amount minted so
    /// far (none before the start, or when the target is not above it).
    pub fn mint(&mut self, now: i64) -> (r: Result<Coin<S>>)
        requires
            old(self).wf(),
            i64::MIN <= now - old(self).start_seconds <= i64::MAX,
        ensures
            final(self).wf(),
            !old(self).configured ==> fails_with(r, "Faucet must be configured before minting"@)
                && *final(self) == *old(self),
            old(self).configured && now - old(self).start_seconds <= 0 ==> (r matches Ok(c)
                && c.amount.value == 0) && *final(self) == *old(self),
            old(self).configured && now - old(self).start_seconds > 0 ==> match target_from(
                *old(self),
                now - old(self).start_seconds,
                0,
                Decimal::from_u64_spec(0),
                Decimal::from_u64_spec(1),
            ) {
                Err(e) => r == Err::<Coin<S>, Error>(e) && *final(self) == *old(self),
                Ok(d) => match d.amount_spec() {
                    None => r is Err && *final(self) == *old(self),
                    Some(target) => if target.value > old(self).amount_minted.value {
                        &&& r matches Ok(c) && c.amount.value == target.value - old(
                            self,
                        ).amount_minted.value
                        &&& final(self).amount_minted == target
                        &&& *final(self) == (Faucet { amount_minted: target, ..*old(self) })
                    } else {
                        (r matches Ok(c) && c.amount.value == 0) && *final(self) == *old(self)
                    },
                },
            },
    {
        if !self.configured {
            return Err(coins_error("Faucet must be configured before minting"));
        }
        let seconds_since_start = now - self.start_seconds;
        if seconds_since_start <= 0 {
            return Ok(S::mint(Amount::new(0)));
        }
        let target = self.target_amount_minted(seconds_since_start)?;
        if target.value > self.amount_minted.value {
            let delta = target.value - self.amount_minted.value;
            self.amount_minted = target;
            Ok(S::mint(Amount::new(delta)))
        } else {
            Ok(S::mint(Amount::new(0)))
        }
    }
}

} // verus!
