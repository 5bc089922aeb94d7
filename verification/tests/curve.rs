use meme_sandwich::meme::{
    calc_actual_buy, calc_buy, calc_fee, calc_max_buy, calc_sell, post_buy_update_status,
    TokenInfo, ETHER, GWEI,
};
use meme_sandwich::uint::U256;

fn u(x: u128) -> U256 {
    U256::from_u128(x)
}

fn big(s: &str) -> U256 {
    let w: alloy::primitives::U256 = s.parse().unwrap();
    U256::from_limbs(w.into_limbs())
}

const E18: u128 = 1_000_000_000_000_000_000;

fn launch_curve() -> TokenInfo {
    TokenInfo { k: u(8 * 1_000_000_000 * E18), t: u(1_060_000_000 * E18), offer: u(800_000_000 * E18), ether: u(0) }
}

fn small_curve() -> TokenInfo {
    TokenInfo { k: u(10), t: u(100), offer: u(50), ether: u(0) }
}

#[test]
fn constants_are_ether_and_gwei() {
    assert_eq!(ETHER(), u(E18));
    assert_eq!(GWEI(), u(1_000_000_000));
}

#[test]
fn fee_is_rate_share_of_amount() {
    assert_eq!(calc_fee(u(1_000_000), u(100), u(5)), u(10_000));
}

#[test]
fn fee_never_below_minimum() {
    assert_eq!(calc_fee(u(100), u(100), u(5)), u(5));
    assert_eq!(calc_fee(u(0), u(0), u(7)), u(7));
}

#[test]
fn fee_product_wraps_in_256_bits() {
    // fee_rate * ether = 2^256 + 20000 wraps to 20000
    let half = big("57896044618658097711785492504343953926634992332820282019728792003956564819968");
    let r = calc_fee(u(2), half, u(0));
    assert_eq!(r, u(0));
    let r = calc_fee(big("57896044618658097711785492504343953926634992332820282019728792003956564829968"), u(2), u(0));
    assert_eq!(r, u(2));
}

#[test]
fn max_buy_small_curve() {
    assert_eq!(calc_max_buy(&small_curve()), Some(u(100_000_000_000_000_000)));
}

#[test]
fn max_buy_launch_curve() {
    assert_eq!(calc_max_buy(&launch_curve()), Some(u(23222060957910014514)));
}

#[test]
fn max_buy_none_when_nothing_on_offer() {
    let tok = TokenInfo { k: u(10), t: u(100), offer: u(100), ether: u(0) };
    assert_eq!(calc_max_buy(&tok), None);
    let tok = TokenInfo { k: u(10), t: u(100), offer: u(200), ether: u(0) };
    assert_eq!(calc_max_buy(&tok), None);
}

#[test]
fn max_buy_is_cost_of_whole_offer() {
    let tok = launch_curve();
    assert_eq!(calc_max_buy(&tok), calc_buy(tok.offer, &tok));
}

#[test]
fn actual_buy_launch_curve() {
    assert_eq!(calc_actual_buy(u(E18), &launch_curve()), Some(u(124017660044150110000000000)));
}

#[test]
fn actual_buy_is_whole_gwei() {
    let r = calc_actual_buy(u(E18), &launch_curve()).unwrap();
    let limbs = r.into_limbs();
    let w = alloy::primitives::U256::from_limbs(limbs);
    assert_eq!(w % alloy::primitives::U256::from(1_000_000_000u64), alloy::primitives::U256::ZERO);
}

#[test]
fn actual_buy_rounds_down_to_zero() {
    assert_eq!(calc_actual_buy(u(100_000_000_000_000_000), &small_curve()), Some(u(0)));
}

#[test]
fn actual_buy_none_on_empty_curve() {
    let tok = TokenInfo { k: u(10), t: u(0), offer: u(0), ether: u(0) };
    assert_eq!(calc_actual_buy(u(E18), &tok), None);
}

#[test]
fn actual_buy_none_on_overflowing_sum() {
    let max = U256::max_value();
    assert_eq!(calc_actual_buy(max, &launch_curve()), None);
}

#[test]
fn buy_cost_of_received_tokens() {
    let tok = launch_curve();
    let got = calc_actual_buy(u(E18), &tok).unwrap();
    assert_eq!(calc_buy(got, &tok), Some(u(999999999999999997)));
}

#[test]
fn buy_none_when_buying_all_tokens() {
    let tok = small_curve();
    assert_eq!(calc_buy(u(100), &tok), None);
    assert_eq!(calc_buy(u(101), &tok), None);
}

#[test]
fn sell_launch_curve() {
    assert_eq!(calc_sell(u(100_000_000 * E18), &launch_curve()), Some(u(650618087182823682)));
}

#[test]
fn sell_small_curve() {
    assert_eq!(calc_sell(u(100), &small_curve()), Some(u(50_000_000_000_000_000)));
}

#[test]
fn sell_none_on_empty_curve() {
    let tok = TokenInfo { k: u(10), t: u(0), offer: u(0), ether: u(0) };
    assert_eq!(calc_sell(u(5), &tok), None);
}

#[test]
fn sell_wraps_in_256_bits() {
    let tok = launch_curve();
    // amount + t wraps around to 5
    let amount = big("115792089237316195423570985008687907853269984665639504039457584007913129639941");
    assert_eq!(
        calc_sell(amount, &tok),
        Some(big("115792089237316195423570985008686307853269984665640564039465131177724450394652"))
    );
    // amount + t wraps around to 0
    let amount = big("115792089237316195423570985008687907853269984665639504039457584007913129639936");
    assert_eq!(calc_sell(amount, &tok), None);
}

#[test]
fn post_buy_moves_curve() {
    let mut tok = small_curve();
    assert_eq!(post_buy_update_status(&mut tok, &u(30), &u(7)), Some(()));
    assert_eq!(tok.t, u(70));
    assert_eq!(tok.offer, u(20));
    assert_eq!(tok.ether, u(7));
    assert_eq!(tok.k, u(10));
}

#[test]
fn post_buy_fails_before_any_change() {
    let mut tok = small_curve();
    assert_eq!(post_buy_update_status(&mut tok, &u(101), &u(7)), None);
    assert_eq!(tok.t, u(100));
    assert_eq!(tok.offer, u(50));
    assert_eq!(tok.ether, u(0));
}

#[test]
fn post_buy_fails_after_lowering_t() {
    let mut tok = small_curve();
    assert_eq!(post_buy_update_status(&mut tok, &u(60), &u(7)), None);
    assert_eq!(tok.t, u(40));
    assert_eq!(tok.offer, u(50));
    assert_eq!(tok.ether, u(0));
}

#[test]
fn post_buy_ether_wraps() {
    let mut tok = small_curve();
    tok.ether = U256::max_value();
    assert_eq!(post_buy_update_status(&mut tok, &u(1), &u(2)), Some(()));
    assert_eq!(tok.ether, u(1));
}
