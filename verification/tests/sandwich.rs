use meme_sandwich::meme::{encode_purchase, Block, Buy, TokenInfo, Transaction, FOUR_MEME};
use meme_sandwich::meme::encode_sale;
use meme_sandwich::primitives::{Address, B256};
use meme_sandwich::search::{go, Context, Solution};
use meme_sandwich::strategy::{
    profitable_solution, Action, Config, Event, SignedOrUnsignedTx, Strategy, TxRequest,
};
use meme_sandwich::uint::U256;

const E18: u128 = 1_000_000_000_000_000_000;

fn u(x: u128) -> U256 {
    U256::from_u128(x)
}

fn addr(b: u8) -> Address {
    Address { bytes: [b; 20] }
}

fn launch_curve() -> TokenInfo {
    TokenInfo { k: u(8 * 1_000_000_000 * E18), t: u(1_060_000_000 * E18), offer: u(800_000_000 * E18), ether: u(0) }
}

fn context(amount: u128) -> Context {
    Context {
        token_info: launch_curve(),
        fee_rate: u(100),
        min_fee: u(1_000_000_000_000_000),
        buy: Buy { token: addr(0xcc), tx_value: u(amount + amount / 10), amount: u(amount), min_received: u(0) },
        token_balance: u(0),
    }
}

#[test]
fn search_one_ether_victim() {
    let s = go(context(E18)).unwrap();
    assert_eq!(s.profit, u(601647168828656669));
    assert_eq!(s.ether_spent, u(7818093856503038192));
    assert_eq!(s.token_bought, u(7740686986636671504));
    assert_eq!(s.token_sold, u(536708860782313137000000000));
}

#[test]
fn search_five_ether_victim() {
    let s = go(context(5 * E18)).unwrap();
    assert_eq!(s.profit, u(3760207911329947485));
    assert_eq!(s.ether_spent, u(7818093856503038192));
}

#[test]
fn search_needs_a_largest_buy() {
    let mut c = context(E18);
    c.token_info.offer = c.token_info.t;
    assert!(go(c).is_none());
}

#[test]
fn search_without_profit_gives_zero_solution() {
    let mut c = context(E18);
    c.buy.tx_value = u(0);
    let s = go(c).unwrap();
    assert_eq!(s.profit, u(0));
    assert_eq!(s.token_bought, u(0));
    assert!(profitable_solution(c).is_none());
}

#[test]
fn profitable_solution_keeps_profit() {
    let s = profitable_solution(context(E18)).unwrap();
    assert_eq!(s.profit, u(601647168828656669));
}

#[test]
fn default_solution_is_zero() {
    let s = Solution::default();
    assert!(s.profit.is_zero() && s.ether_spent.is_zero() && s.token_bought.is_zero() && s.token_sold.is_zero());
}

fn pending(from: Address, hash: u8, input: Vec<u8>) -> Transaction {
    Transaction { hash: B256 { bytes: [hash; 32] }, block_number: None, from, to: Some(FOUR_MEME()), value: u(E18), input }
}

fn strategy() -> Strategy {
    Strategy::new(Config { gas_price: 1_000_000_000 }, addr(0xee))
}

#[test]
fn new_strategy_state() {
    let s = strategy();
    assert_eq!(s.block_number(), None);
    assert_eq!(s.sender(), addr(0xee));
}

#[test]
fn transaction_seen_twice() {
    let mut s = strategy();
    let t = pending(addr(1), 3, vec![]);
    assert!(!s.tx_visited(&t));
    assert!(s.tx_visited(&t));
    assert!(!s.tx_visited(&pending(addr(1), 4, vec![])));
}

#[test]
fn oldest_hash_forgotten_after_a_thousand() {
    let mut s = strategy();
    let first = Transaction { hash: B256 { bytes: [0; 32] }, ..pending(addr(1), 0, vec![]) };
    assert!(!s.tx_visited(&first));
    for i in 1..=1000u32 {
        let mut bytes = [0u8; 32];
        bytes[28..32].copy_from_slice(&i.to_be_bytes());
        assert!(!s.tx_visited(&Transaction { hash: B256 { bytes }, ..pending(addr(1), 0, vec![]) }));
    }
    assert!(!s.tx_visited(&first));
}

#[test]
fn skips_own_mined_and_bot_transactions() {
    let mut s = strategy();
    assert!(s.should_skip_tx(&pending(addr(0xee), 1, vec![])));
    let mut mined = pending(addr(1), 1, vec![]);
    mined.block_number = Some(5);
    assert!(s.should_skip_tx(&mined));
    assert!(!s.should_skip_tx(&pending(addr(1), 1, vec![])));
    let block = Block {
        number: Some(9),
        transactions: Some(vec![
            pending(addr(1), 1, encode_purchase(&addr(0xcc), u(1), u(0))),
            pending(addr(1), 2, encode_sale(&addr(0xcc), u(1))),
        ]),
    };
    s.on_new_block(block);
    assert!(s.should_skip_tx(&pending(addr(1), 1, vec![])));
    assert_eq!(s.block_number(), Some(9));
}

#[test]
fn own_sender_never_becomes_a_bot() {
    let mut s = strategy();
    let block = Block {
        number: Some(10),
        transactions: Some(vec![
            pending(addr(0xee), 1, encode_purchase(&addr(0xcc), u(1), u(0))),
            pending(addr(0xee), 2, encode_sale(&addr(0xcc), u(1))),
        ]),
    };
    s.on_new_block(block);
    assert!(!s.should_skip_tx(&pending(addr(2), 3, vec![])));
    let mut mine = pending(addr(0xee), 3, vec![]);
    mine.block_number = None;
    assert!(s.should_skip_tx(&mine));
}

#[test]
fn handle_tx_finds_the_buy() {
    let mut s = strategy();
    let t = pending(addr(1), 1, encode_purchase(&addr(0xcc), u(E18), u(7)));
    let b = s.handle_tx(&t).unwrap();
    assert_eq!(b.amount, u(E18));
    assert_eq!(b.min_received, u(7));
    assert!(s.handle_tx(&pending(addr(1), 1, encode_sale(&addr(0xcc), u(1)))).is_none());
    assert!(s.handle_tx(&pending(addr(0xee), 1, encode_purchase(&addr(0xcc), u(E18), u(7)))).is_none());
}

#[test]
fn events_dispatch() {
    let mut s = strategy();
    let t = pending(addr(1), 1, vec![]);
    assert!(s.process_event(Event::PendingTx(t.clone())).is_some());
    assert!(s.process_event(Event::PendingTx(t)).is_none());
    assert!(s.process_event(Event::FullBlock(Block { number: Some(3), transactions: None })).is_none());
    assert_eq!(s.block_number(), Some(3));
}

#[test]
fn cost_is_gas_times_price() {
    let mut s = strategy();
    let buy = TxRequest::new().with_gas_limit(150000);
    let sell = TxRequest::new().with_gas_limit(130000);
    assert_eq!(s.calculate_cost(&buy, &sell, &None), u(280000 * 1_000_000_000));
    let approve = Some(TxRequest::new().with_gas_limit(50000));
    assert_eq!(s.calculate_cost(&buy, &sell, &approve), u(330000 * 1_000_000_000));
}

fn solution(profit: u128) -> Solution {
    Solution { profit: u(profit), ether_spent: u(2 * E18), token_bought: u(E18), token_sold: u(1000) }
}

fn ready_strategy() -> Strategy {
    let mut s = strategy();
    s.on_new_block(Block { number: Some(77), transactions: None });
    s
}

#[test]
fn unprofitable_after_gas_is_dropped() {
    let mut s = ready_strategy();
    let buy = Buy { token: addr(0xcc), tx_value: u(0), amount: u(0), min_received: u(0) };
    assert!(s.sandwich_action(vec![1, 2], &buy, &solution(279_999_999_999_999), u(1000)).is_none());
    assert!(s.sandwich_action(vec![1, 2], &buy, &solution(329_999_999_999_999), u(0)).is_none());
}

#[test]
fn bundle_without_approval() {
    let mut s = ready_strategy();
    let buy = Buy { token: addr(0xcc), tx_value: u(0), amount: u(0), min_received: u(0) };
    let Action::SendBundle(b) = s.sandwich_action(vec![1, 2], &buy, &solution(280_000_000_000_000), u(1000)).unwrap();
    assert_eq!(b.block, 77);
    assert_eq!(b.txs.len(), 3);
    match &b.txs[0] {
        SignedOrUnsignedTx::Unsigned(t) => {
            assert_eq!(t.from, Some(addr(0xee)));
            assert_eq!(t.to, Some(FOUR_MEME()));
            assert_eq!(t.value, Some(u(2 * E18)));
            assert_eq!(t.gas, Some(150000));
            assert_eq!(t.gas_price, Some(1_000_000_000));
            assert_eq!(t.input, Some(encode_purchase(&addr(0xcc), u(E18), u(0))));
        },
        _ => panic!("buy first"),
    }
    match &b.txs[1] {
        SignedOrUnsignedTx::Signed(raw) => assert_eq!(raw, &vec![1, 2]),
        _ => panic!("victim second"),
    }
    match &b.txs[2] {
        SignedOrUnsignedTx::Unsigned(t) => {
            assert_eq!(t.input, Some(encode_sale(&addr(0xcc), u(1000))));
            assert_eq!(t.gas, Some(130000));
            assert_eq!(t.value, None);
        },
        _ => panic!("sell last"),
    }
}

#[test]
fn bundle_with_approval() {
    let mut s = ready_strategy();
    let buy = Buy { token: addr(0xcc), tx_value: u(0), amount: u(0), min_received: u(0) };
    let Action::SendBundle(b) = s.sandwich_action(vec![9], &buy, &solution(330_000_000_000_000), u(999)).unwrap();
    assert_eq!(b.txs.len(), 4);
    match &b.txs[2] {
        SignedOrUnsignedTx::Unsigned(t) => {
            assert_eq!(t.to, Some(addr(0xcc)));
            assert_eq!(t.gas, Some(50000));
            assert_eq!(t.input, Some(meme_sandwich::meme::encode_approve(&FOUR_MEME(), U256::max_value())));
        },
        _ => panic!("approval third"),
    }
}
