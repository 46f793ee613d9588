//! Fee tiers: derived from governance token holdings or from the market's fee
//! type, and the taker, maker and referral fees of each tier.
use vstd::prelude::*;
use crate::error::DexError;
use crate::fixed_point::{fp32_div, fp32_div_spec, fp32_mul, fp32_mul_spec, FP_32_ONE};
use crate::codec::le_at;
use crate::state::{DexState, Pubkey, MSRM_MINT, SRM_MINT};
use crate::token::{token_record_ok, unpack_token_account, TokenAccountFields};

verus! {

/// Bit of an encoded fee tier byte that marks a referred trade.
pub const REFERRAL_MASK: u8 = 0x80;

/// Smallest unit count of one governance token (six decimals).
pub const ONE_SRM: u64 = 1_000_000;

/// The fee policy of a market.
#[derive(Clone, Copy, Debug, PartialEq, Eq, Structural)]
pub enum MarketFeeType {
    Default,
    Stable,
}

impl MarketFeeType {
    /// The number that stands for the fee type in a market record.
    pub open spec fn value(self) -> u8 {
        match self {
            MarketFeeType::Default => 0,
            MarketFeeType::Stable => 1,
        }
    }

    /// The number that stands for the fee type in a market record.
    pub fn to_u8(self) -> (r: u8)
        ensures
            r == self.value(),
    {
        match self {
            MarketFeeType::Default => 0,
            MarketFeeType::Stable => 1,
        }
    }
}

/// A discount level, from `Base` (no discount) up to `Stable`.
#[derive(Clone, Copy, Debug, PartialEq, Eq, Structural)]
pub enum FeeTier {
    Base,
    Srm2,
    Srm3,
    Srm4,
    Srm5,
    Srm6,
    MSrm,
    Stable,
}

/// What the matching engine hands back with a fill: the user account and
/// its encoded fee tier byte.
#[derive(Clone, Copy, Debug)]
pub struct CallBackInfo {
    pub user_account: Pubkey,
    pub fee_tier: u8,
}

/// The tier that a market with fee type `fee_type` gives to a holder of
/// `srm_held` and `msrm_held` units.
pub open spec fn tier_of(fee_type: u8, srm_held: u64, msrm_held: u64) -> FeeTier {
    if fee_type == MarketFeeType::Stable.value() {
        FeeTier::Stable
    } else if msrm_held >= 1 {
        FeeTier::MSrm
    } else if srm_held >= 1_000_000_000_000 {
        FeeTier::Srm6
    } else if srm_held >= 100_000_000_000 {
        FeeTier::Srm5
    } else if srm_held >= 10_000_000_000 {
        FeeTier::Srm4
    } else if srm_held >= 1_000_000_000 {
        FeeTier::Srm3
    } else if srm_held >= 100_000_000 {
        FeeTier::Srm2
    } else {
        FeeTier::Base
    }
}

/// The tier that the low seven bits of an encoded byte stand for.
pub open spec fn tier_of_code(code: u8) -> FeeTier
    recommends
        code <= 5,
{
    if code == 0 {
        FeeTier::Base
    } else if code == 1 {
        FeeTier::Srm2
    } else if code == 2 {
        FeeTier::Srm3
    } else if code == 3 {
        FeeTier::Srm4
    } else if code == 4 {
        FeeTier::Srm5
    } else {
        FeeTier::Srm6
    }
}

/// The tier that a token account with mint `mint`, owner `owner` and
/// balance `amount` gives on a market with fee type `fee_type`, for a user
/// whose wallet is `expected_owner`.
pub open spec fn token_tier(
    fee_type: u8,
    mint: Seq<u8>,
    owner: Seq<u8>,
    amount: u64,
    expected_owner: Seq<u8>,
) -> Result<FeeTier, DexError> {
    if owner != expected_owner {
        Err(DexError::InvalidArgument)
    } else if mint == MSRM_MINT@ {
        Ok(tier_of(fee_type, 0, amount))
    } else if mint == SRM_MINT@ {
        Ok(tier_of(fee_type, amount, 0))
    } else {
        Err(DexError::InvalidArgument)
    }
}

impl FeeTier {
    /// Position of the tier in the discount order: `Base` lowest, `Stable` highest.
    pub open spec fn rank(self) -> int {
        match self {
            FeeTier::Base => 0,
            FeeTier::Srm2 => 1,
            FeeTier::Srm3 => 2,
            FeeTier::Srm4 => 3,
            FeeTier::Srm5 => 4,
            FeeTier::Srm6 => 5,
            FeeTier::MSrm => 6,
            FeeTier::Stable => 7,
        }
    }

    /// Taker fee rate in 32.32 fixed point: hundred-thousandths of the quote
    /// amount, rounded up so that the fee is never below its exact value.
    pub open spec fn taker_rate_spec(self) -> u64 {
        match self {
            FeeTier::Base => ((40 * 0x1_0000_0000 + 99_999) / 100_000) as u64,
            FeeTier::Srm2 => ((39 * 0x1_0000_0000 + 99_999) / 100_000) as u64,
            FeeTier::Srm3 => ((38 * 0x1_0000_0000 + 99_999) / 100_000) as u64,
            FeeTier::Srm4 => ((36 * 0x1_0000_0000 + 99_999) / 100_000) as u64,
            FeeTier::Srm5 => ((34 * 0x1_0000_0000 + 99_999) / 100_000) as u64,
            FeeTier::Srm6 => ((32 * 0x1_0000_0000 + 99_999) / 100_000) as u64,
            FeeTier::MSrm => ((30 * 0x1_0000_0000 + 99_999) / 100_000) as u64,
            FeeTier::Stable => ((10 * 0x1_0000_0000 + 99_999) / 100_000) as u64,
        }
    }

    /// Maker fee rate: zero for every tier.
    pub open spec fn maker_rate_spec(self) -> u64 {
        0
    }

    /// Referral rate: a fifth of what the taker rate exceeds the base maker rate by.
    pub open spec fn referral_rate_spec(self) -> u64 {
        (self.taker_rate_spec().saturating_sub(FeeTier::Base.maker_rate_spec()) / 5) as u64
    }

    /// The fee-exclusive amount of a fee-inclusive quote amount.
    pub open spec fn remove_taker_fee_spec(self, quote_qty: u64) -> int {
        fp32_div_spec(quote_qty, (FP_32_ONE + self.taker_rate_spec()) as u64)
    }

    /// The taker fee on a quote amount.
    pub open spec fn taker_fee_spec(self, quote_qty: u64) -> int {
        fp32_mul_spec(quote_qty, self.taker_rate_spec())
    }

    /// The referral fee on a quote amount.
    pub open spec fn referral_fee_spec(self, quote_qty: u64) -> int {
        fp32_mul_spec(quote_qty, self.referral_rate_spec())
    }

    /// The tier of a holder of `srm_held` and `msrm_held` units on the market
    /// `dex_state`; a stable market gives `Stable` whatever the holdings.
    pub fn from_srm_and_msrm_balances(dex_state: &DexState, srm_held: u64, msrm_held: u64) -> (r:
        FeeTier)
        ensures
            r == tier_of(dex_state.fee_type, srm_held, msrm_held),
    {
        let one_srm = ONE_SRM;
        if dex_state.fee_type == MarketFeeType::Stable.to_u8() {
            return FeeTier::Stable;
        }
        if msrm_held >= 1 {
            FeeTier::MSrm
        } else if srm_held >= one_srm * 1_000_000 {
            FeeTier::Srm6
        } else if srm_held >= one_srm * 100_000 {
            FeeTier::Srm5
        } else if srm_held >= one_srm * 10_000 {
            FeeTier::Srm4
        } else if srm_held >= one_srm * 1_000 {
            FeeTier::Srm3
        } else if srm_held >= one_srm * 100 {
            FeeTier::Srm2
        } else {
            FeeTier::Base
        }
    }

    /// The tier that the discount token account `account` gives its owner,
    /// who must be `expected_owner`; the account's mint must be one of the two
    /// discount mints.
    pub fn from_token_account(
        dex_state: &DexState,
        account: &TokenAccountFields,
        expected_owner: &Pubkey,
    ) -> (r: Result<FeeTier, DexError>)
        ensures
            r == token_tier(
                dex_state.fee_type,
                account.mint@,
                account.owner@,
                account.amount,
                expected_owner@,
            ),
    {
        if !account.owner.equals(expected_owner) {
            return Err(DexError::InvalidArgument);
        }
        let msrm = Pubkey { bytes: MSRM_MINT };
        let srm = Pubkey { bytes: SRM_MINT };
        if account.mint.equals(&msrm) {
            Ok(FeeTier::from_srm_and_msrm_balances(dex_state, 0, account.amount))
        } else if account.mint.equals(&srm) {
            Ok(FeeTier::from_srm_and_msrm_balances(dex_state, account.amount, 0))
        } else {
            Err(DexError::InvalidArgument)
        }
    }

    /// The tier that the discount token account stored in `token_account_data`
    /// gives its owner. A record that the token program does not accept
    /// (see `token_record_ok`) gives `InvalidAccountData`; an owner other than `expected_owner` or a mint
    /// other than the two discount mints gives `InvalidArgument`.
    pub fn get(dex_state: &DexState, token_account_data: &[u8], expected_owner: &Pubkey) -> (r:
        Result<FeeTier, DexError>)
        ensures
            !token_record_ok(token_account_data@) ==> r == Err::<FeeTier, DexError>(
                DexError::InvalidAccountData,
            ),
            token_record_ok(token_account_data@) ==> r == token_tier(
                dex_state.fee_type,
                token_account_data@.subrange(0, 32),
                token_account_data@.subrange(32, 64),
                le_at(token_account_data@, 64, 8) as u64,
                expected_owner@,
            ),
    {
        match unpack_token_account(token_account_data) {
            Ok(account) => FeeTier::from_token_account(dex_state, &account, expected_owner),
            Err(_) => Err(DexError::InvalidAccountData),
        }
    }

    /// Decodes a fee tier byte: the tier in the low seven bits, the referral
    /// flag in the high bit.
    pub fn from_u8(tag: u8) -> (r: (FeeTier, bool))
        requires
            tag & !REFERRAL_MASK <= 5,
        ensures
            r.0 == tier_of_code(tag & !REFERRAL_MASK),
            r.1 == (tag & REFERRAL_MASK != 0),
    {
        let is_referred = (tag & REFERRAL_MASK) != 0;
        let code = tag & (!REFERRAL_MASK);
        let fee_tier = if code == 0 {
            FeeTier::Base
        } else if code == 1 {
            FeeTier::Srm2
        } else if code == 2 {
            FeeTier::Srm3
        } else if code == 3 {
            FeeTier::Srm4
        } else if code == 4 {
            FeeTier::Srm5
        } else {
            FeeTier::Srm6
        };
        (fee_tier, is_referred)
    }

    /// Taker fee rate in 32.32 fixed point.
    pub fn taker_rate(self) -> (r: u64)
        ensures
            r == self.taker_rate_spec(),
            r < FP_32_ONE,
    {
        match self {
            FeeTier::Base => (40 * FP_32_ONE + 99_999) / 100_000,
            FeeTier::Srm2 => (39 * FP_32_ONE + 99_999) / 100_000,
            FeeTier::Srm3 => (38 * FP_32_ONE + 99_999) / 100_000,
            FeeTier::Srm4 => (36 * FP_32_ONE + 99_999) / 100_000,
            FeeTier::Srm5 => (34 * FP_32_ONE + 99_999) / 100_000,
            FeeTier::Srm6 => (32 * FP_32_ONE + 99_999) / 100_000,
            FeeTier::MSrm => (30 * FP_32_ONE + 99_999) / 100_000,
            FeeTier::Stable => (10 * FP_32_ONE + 99_999) / 100_000,
        }
    }

    /// Maker fee rate: zero, kept as a function of the tier.
    pub fn maker_rate(self) -> (r: u64)
        ensures
            r == self.maker_rate_spec(),
    {
        0
    }

    /// Maker rebate on a quote amount: zero, kept as a function of the tier.
    pub fn maker_rebate(self, _quote_qty: u64) -> (r: u64)
        ensures
            r == 0,
    {
        0
    }

    /// The fee-exclusive amount of the fee-inclusive quote amount `quote_qty`.
    pub fn remove_taker_fee(self, quote_qty: u64) -> (r: u64)
        ensures
            r == self.remove_taker_fee_spec(quote_qty),
            r <= quote_qty,
    {
        let rate = self.taker_rate();
        let divisor = FP_32_ONE + rate;
        proof {
            lemma_div_by_at_least_one(quote_qty, divisor);
        }
        match fp32_div(quote_qty, divisor) {
            Some(v) => v,
            None => 0,
        }
    }

    /// The taker fee on the quote amount `quote_qty`.
    pub fn taker_fee(self, quote_qty: u64) -> (r: u64)
        ensures
            r == self.taker_fee_spec(quote_qty),
    {
        let rate = self.taker_rate();
        proof {
            lemma_mul_by_fraction(quote_qty, rate);
        }
        match fp32_mul(quote_qty, rate) {
            Some(v) => v,
            None => 0,
        }
    }

    /// Referral rate in 32.32 fixed point.
    pub fn referral_rate(self) -> (r: u64)
        ensures
            r == self.referral_rate_spec(),
    {
        let taker_rate = self.taker_rate();
        let min_maker_rebate = FeeTier::Base.maker_rate();
        taker_rate.saturating_sub(min_maker_rebate) / 5
    }

    /// The referral fee on the quote amount `quote_qty`.
    pub fn referral_fee(self, quote_qty: u64) -> (r: u64)
        ensures
            r == self.referral_fee_spec(quote_qty),
    {
        let rate = self.referral_rate();
        proof {
            lemma_mul_by_fraction(quote_qty, rate);
        }
        match fp32_mul(quote_qty, rate) {
            Some(v) => v,
            None => 0,
        }
    }
}

/// Holding more of the governance token, and no MSRM, never lowers the tier.
pub proof fn lemma_tier_monotone_in_srm(fee_type: u8, srm_low: u64, srm_high: u64)
    requires
        srm_low <= srm_high,
    ensures
        tier_of(fee_type, srm_low, 0).rank() <= tier_of(fee_type, srm_high, 0).rank(),
{
}

/// A higher tier never has a higher taker rate, and a strictly higher tier
/// has a strictly lower one.
pub proof fn lemma_taker_rate_decreases_with_rank(low: FeeTier, high: FeeTier)
    requires
        low.rank() <= high.rank(),
    ensures
        low.taker_rate_spec() >= high.taker_rate_spec(),
        low.rank() < high.rank() ==> low.taker_rate_spec() > high.taker_rate_spec(),
{
}

/// Removing the taker fee from a fee-inclusive amount and then adding the
/// taker fee on the result never gives more than the amount, and falls short
/// of it by at most two units.
pub proof fn lemma_fee_round_trip(tier: FeeTier, quote_qty: u64)
    ensures
        tier.remove_taker_fee_spec(quote_qty) + tier.taker_fee_spec(
            tier.remove_taker_fee_spec(quote_qty) as u64,
        ) <= quote_qty,
        tier.remove_taker_fee_spec(quote_qty) + tier.taker_fee_spec(
            tier.remove_taker_fee_spec(quote_qty) as u64,
        ) >= quote_qty - 2,
{
    let one: int = 0x1_0000_0000;
    let r = tier.taker_rate_spec() as int;
    let b = one + r;
    let q = quote_qty as int;
    assert(0 < r < one);
    lemma_div_by_at_least_one(quote_qty, (FP_32_ONE + tier.taker_rate_spec()) as u64);
    let x = tier.remove_taker_fee_spec(quote_qty);
    assert(x == (q * one) / b);
    vstd::arithmetic::div_mod::lemma_fundamental_div_mod(q * one, b);
    vstd::arithmetic::div_mod::lemma_mod_pos_bound(q * one, b);
    let m = (q * one) % b;
    assert(q * one == b * x + m);
    let fee = tier.taker_fee_spec(x as u64);
    assert(fee == (x * r) / one);
    assert(0 <= x * r) by (nonlinear_arith)
        requires
            0 <= x,
            0 < r,
    ;
    vstd::arithmetic::div_mod::lemma_fundamental_div_mod(x * r, one);
    vstd::arithmetic::div_mod::lemma_mod_pos_bound(x * r, one);
    let m2 = (x * r) % one;
    assert(x * r == one * fee + m2);
    assert(x + fee <= q && x + fee >= q - 2) by (nonlinear_arith)
        requires
            q * one == b * x + m,
            0 <= m < b,
            x * r == one * fee + m2,
            0 <= m2 < one,
            b == one + r,
            0 < r < one,
            one == 0x1_0000_0000,
    ;
}

/// A fraction below one scales an amount down: the product fits.
proof fn lemma_mul_by_fraction(a: u64, b_fp32: u64)
    requires
        b_fp32 < 0x1_0000_0000,
    ensures
        0 <= fp32_mul_spec(a, b_fp32) <= a,
{
    let p = a as int * b_fp32 as int;
    assert(0 <= p <= a as int * 0x1_0000_0000) by (nonlinear_arith)
        requires
            p == a as int * b_fp32 as int,
            0 <= b_fp32 < 0x1_0000_0000,
            0 <= a,
    ;
    vstd::arithmetic::div_mod::lemma_div_is_ordered(p, a as int * 0x1_0000_0000, 0x1_0000_0000);
    vstd::arithmetic::div_mod::lemma_div_multiples_vanish(a as int, 0x1_0000_0000);
    vstd::arithmetic::div_mod::lemma_div_pos_is_pos(p, 0x1_0000_0000);
}

/// Dividing by a fraction of at least one scales an amount down.
proof fn lemma_div_by_at_least_one(a: u64, b_fp32: u64)
    requires
        b_fp32 >= 0x1_0000_0000,
    ensures
        0 <= fp32_div_spec(a, b_fp32) <= a,
{
    let x = a as int * 0x1_0000_0000;
    let d = x / b_fp32 as int;
    vstd::arithmetic::div_mod::lemma_fundamental_div_mod(x, b_fp32 as int);
    vstd::arithmetic::div_mod::lemma_mod_pos_bound(x, b_fp32 as int);
    vstd::arithmetic::div_mod::lemma_div_pos_is_pos(x, b_fp32 as int);
    assert(d <= a) by (nonlinear_arith)
        requires
            x == b_fp32 as int * d + x % b_fp32 as int,
            0 <= x % b_fp32 as int,
            x == a as int * 0x1_0000_0000,
            b_fp32 >= 0x1_0000_0000,
            d >= 0,
    ;
}

} // verus!
