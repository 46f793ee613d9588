use dex_state::error::DexError;
use dex_state::fee::{FeeTier, MarketFeeType};
use dex_state::fixed_point::{fp32_div, fp32_mul, FP_32_ONE};
use dex_state::state::{DexState, Pubkey, MSRM_MINT, SRM_MINT};

fn key(b: u8) -> Pubkey {
    Pubkey { bytes: [b; 32] }
}

fn market(fee_type: u8) -> DexState {
    DexState {
        tag: 1,
        base_mint: key(1),
        quote_mint: key(2),
        base_vault: key(3),
        quote_vault: key(4),
        orderbook: key(5),
        admin: key(6),
        creation_timestamp: -5,
        base_volume: 0,
        quote_volume: 0,
        accumulated_fees: 0,
        min_base_order_size: 1,
        royalties_bps: 0,
        accumulated_royalties: 0,
        base_currency_multiplier: 1,
        quote_currency_multiplier: 1,
        signer_nonce: 254,
        fee_type,
        _padding: [0; 6],
    }
}

fn token_account(mint: [u8; 32], owner: &Pubkey, amount: u64, state: u8) -> Vec<u8> {
    let mut data = vec![0u8; 165];
    data[0..32].copy_from_slice(&mint);
    data[32..64].copy_from_slice(&owner.bytes);
    data[64..72].copy_from_slice(&amount.to_le_bytes());
    data[108] = state;
    data
}

#[test]
fn fixed_point_multiply_and_divide() {
    assert_eq!(fp32_mul(10, FP_32_ONE / 2), Some(5));
    assert_eq!(fp32_mul(u64::MAX, 2 * FP_32_ONE), None);
    assert_eq!(fp32_div(10, 2 * FP_32_ONE), Some(5));
    assert_eq!(fp32_div(10, 0), None);
    assert_eq!(fp32_div(u64::MAX, FP_32_ONE / 2), None);
}

#[test]
fn stable_market_gives_stable_tier() {
    let m = market(MarketFeeType::Stable.to_u8());
    assert_eq!(FeeTier::from_srm_and_msrm_balances(&m, 0, 0), FeeTier::Stable);
    assert_eq!(FeeTier::from_srm_and_msrm_balances(&m, 2_000_000_000_000, 7), FeeTier::Stable);
    assert_eq!(FeeTier::Stable.taker_rate(), 429_497);
    assert_eq!(FeeTier::Stable.taker_fee(1_000_000), 100);
}

#[test]
fn srm_holdings_pick_tier() {
    let m = market(MarketFeeType::Default.to_u8());
    assert_eq!(FeeTier::from_srm_and_msrm_balances(&m, 150_000_000_000, 0), FeeTier::Srm5);
    assert_eq!(FeeTier::Srm5.taker_rate(), 1_460_289);
    assert_eq!(FeeTier::Srm5.taker_fee(1_000_000), 340);
    assert_eq!(FeeTier::from_srm_and_msrm_balances(&m, 0, 1), FeeTier::MSrm);
    assert_eq!(FeeTier::from_srm_and_msrm_balances(&m, 99_999_999, 0), FeeTier::Base);
    assert_eq!(FeeTier::from_srm_and_msrm_balances(&m, 100_000_000, 0), FeeTier::Srm2);
    assert_eq!(FeeTier::from_srm_and_msrm_balances(&m, 1_000_000_000, 0), FeeTier::Srm3);
    assert_eq!(FeeTier::from_srm_and_msrm_balances(&m, 10_000_000_000, 0), FeeTier::Srm4);
    assert_eq!(FeeTier::from_srm_and_msrm_balances(&m, 1_000_000_000_000, 0), FeeTier::Srm6);
}

#[test]
fn tiers_never_drop_as_holdings_grow() {
    let m = market(0);
    let rank = |t: FeeTier| t as u8;
    let mut last = 0u8;
    for srm in [0u64, 1, 99_999_999, 100_000_000, 999_999_999, 1_000_000_000, 10_000_000_000,
        100_000_000_000, 1_000_000_000_000, u64::MAX]
    {
        let r = rank(FeeTier::from_srm_and_msrm_balances(&m, srm, 0));
        assert!(r >= last);
        last = r;
    }
    let tiers = [FeeTier::Base, FeeTier::Srm2, FeeTier::Srm3, FeeTier::Srm4, FeeTier::Srm5,
        FeeTier::Srm6, FeeTier::MSrm, FeeTier::Stable];
    for w in tiers.windows(2) {
        assert!(w[0].taker_rate() > w[1].taker_rate());
    }
}

#[test]
fn decode_fee_tier_byte() {
    assert_eq!(FeeTier::from_u8(0), (FeeTier::Base, false));
    assert_eq!(FeeTier::from_u8(5), (FeeTier::Srm6, false));
    assert_eq!(FeeTier::from_u8(0x83), (FeeTier::Srm4, true));
    assert_eq!(FeeTier::from_u8(0x81), (FeeTier::Srm2, true));
}

#[test]
fn maker_side_is_free_and_referral_is_a_fifth() {
    assert_eq!(FeeTier::Srm3.maker_rate(), 0);
    assert_eq!(FeeTier::Srm3.maker_rebate(1_000_000), 0);
    assert_eq!(FeeTier::Base.referral_rate(), 1_717_987 / 5);
    assert_eq!(FeeTier::Base.referral_fee(1_000_000), 79);
    assert_eq!(FeeTier::Stable.referral_fee(1_000_000), 19);
}

#[test]
fn remove_then_add_taker_fee() {
    assert_eq!(FeeTier::Base.remove_taker_fee(1_000_000), 999_600);
    assert_eq!(FeeTier::Stable.remove_taker_fee(1_000_000), 999_900);
    // Both truncations can lose almost a unit each.
    assert_eq!(FeeTier::Base.remove_taker_fee(2501), 2499);
    assert_eq!(FeeTier::Base.taker_fee(2499), 0);
    for tier in [FeeTier::Base, FeeTier::Srm4, FeeTier::MSrm, FeeTier::Stable] {
        for q in [0u64, 1, 999, 1_000_000, 123_456_789_012, u64::MAX] {
            let x = tier.remove_taker_fee(q);
            let total = x as u128 + tier.taker_fee(x) as u128;
            assert!(total <= q as u128);
            assert!(total + 2 >= q as u128);
        }
    }
}

#[test]
fn discount_account_lookup() {
    let m = market(0);
    let owner = key(9);
    let srm = token_account(SRM_MINT, &owner, 150_000_000_000, 1);
    assert_eq!(FeeTier::get(&m, &srm, &owner), Ok(FeeTier::Srm5));
    let msrm = token_account(MSRM_MINT, &owner, 1, 1);
    assert_eq!(FeeTier::get(&m, &msrm, &owner), Ok(FeeTier::MSrm));
    assert_eq!(FeeTier::get(&m, &srm, &key(8)), Err(DexError::InvalidArgument));
    let other = token_account([7; 32], &owner, 1, 1);
    assert_eq!(FeeTier::get(&m, &other, &owner), Err(DexError::InvalidArgument));
    let uninitialized = token_account(SRM_MINT, &owner, 1, 0);
    assert_eq!(FeeTier::get(&m, &uninitialized, &owner), Err(DexError::InvalidAccountData));
    assert_eq!(FeeTier::get(&m, &srm[..100], &owner), Err(DexError::InvalidAccountData));
    let frozen = token_account(SRM_MINT, &owner, 100_000_000, 2);
    assert_eq!(FeeTier::get(&m, &frozen, &owner), Ok(FeeTier::Srm2));
    let bad_state = token_account(SRM_MINT, &owner, 1, 3);
    assert_eq!(FeeTier::get(&m, &bad_state, &owner), Err(DexError::InvalidAccountData));
    let mut bad_tag = token_account(SRM_MINT, &owner, 1, 1);
    bad_tag[72] = 2;
    assert_eq!(FeeTier::get(&m, &bad_tag, &owner), Err(DexError::InvalidAccountData));
}
