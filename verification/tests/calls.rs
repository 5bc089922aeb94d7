use meme_sandwich::meme::{
    encode_approve, encode_purchase, encode_sale, find_sandwich_bot, Block, Buy, Sell,
    Transaction, FOUR_MEME,
};
use meme_sandwich::primitives::{Address, B256};
use meme_sandwich::uint::U256;

fn addr(b: u8) -> Address {
    Address { bytes: [b; 20] }
}

fn tx(from: Address, to: Option<Address>, value: u128, input: Vec<u8>) -> Transaction {
    Transaction { hash: B256 { bytes: [7; 32] }, block_number: None, from, to, value: U256::from_u128(value), input }
}

fn hex(s: &str) -> Vec<u8> {
    (0..s.len()).step_by(2).map(|i| u8::from_str_radix(&s[i..i + 2], 16).unwrap()).collect()
}

#[test]
fn four_meme_address() {
    assert_eq!(FOUR_MEME().bytes.to_vec(), hex("ec4549cadce5da21df6e6422d448034b5233bfbc"));
}

#[test]
fn purchase_calldata_layout() {
    let data = encode_purchase(&addr(0xaa), U256::from_u64(5), U256::from_u64(0x0102));
    let mut want = hex("3deec419");
    want.extend(vec![0u8; 12]);
    want.extend(vec![0xaa; 20]);
    want.extend(vec![0u8; 31]);
    want.push(5);
    want.extend(vec![0u8; 30]);
    want.extend([1, 2]);
    assert_eq!(data, want);
}

#[test]
fn sale_and_approve_calldata_layout() {
    let data = encode_sale(&addr(0xbb), U256::from_u64(9));
    assert_eq!(data.len(), 68);
    assert_eq!(&data[0..4], &hex("9b911b5e")[..]);
    assert_eq!(&data[16..36], &[0xbb; 20][..]);
    assert_eq!(data[67], 9);
    let data = encode_approve(&FOUR_MEME(), U256::max_value());
    assert_eq!(&data[0..4], &hex("095ea7b3")[..]);
    assert_eq!(&data[16..36], &FOUR_MEME().bytes[..]);
    assert_eq!(&data[36..68], &[0xff; 32][..]);
}

#[test]
fn buy_read_back_from_its_calldata() {
    let amount = U256::from_u128(123_456_789_000_000_000_000);
    let min = U256::from_u64(42);
    let t = tx(addr(1), Some(FOUR_MEME()), 77, encode_purchase(&addr(0xcc), amount, min));
    let buy = Buy::try_from(&t).unwrap();
    assert_eq!(buy, Buy { token: addr(0xcc), tx_value: U256::from_u64(77), amount, min_received: min });
}

#[test]
fn buy_of_a_real_calldata() {
    let mut input = hex("3deec419");
    input.extend(hex("000000000000000000000000d1e2a5b0c1f5a2b3c4d5e6f708192a3b4c5d6e7f"));
    input.extend(hex("0000000000000000000000000000000000000000000000000de0b6b3a7640000"));
    input.extend(hex("00000000000000000000000000000000000000000052b7d2dcc80cd2e4000000"));
    let t = tx(addr(1), Some(FOUR_MEME()), 1_000_000_000_000_000_000, input);
    let buy = Buy::try_from(&t).unwrap();
    assert_eq!(buy.token.bytes.to_vec(), hex("d1e2a5b0c1f5a2b3c4d5e6f708192a3b4c5d6e7f"));
    assert_eq!(buy.amount, U256::from_u128(1_000_000_000_000_000_000));
    assert_eq!(buy.min_received, U256::from_u128(100_000_000_000_000_000_000_000_000));
}

#[test]
fn buy_refused_for_other_contract() {
    let input = encode_purchase(&addr(0xcc), U256::from_u64(1), U256::from_u64(1));
    assert_eq!(Buy::try_from(&tx(addr(1), Some(addr(2)), 0, input.clone())), Err(()));
    assert_eq!(Buy::try_from(&tx(addr(1), None, 0, input)), Err(()));
}

#[test]
fn buy_refused_for_other_selector_or_length() {
    let mut input = encode_purchase(&addr(0xcc), U256::from_u64(1), U256::from_u64(1));
    input.push(0);
    assert_eq!(Buy::try_from(&tx(addr(1), Some(FOUR_MEME()), 0, input)), Err(()));
    let input = encode_sale(&addr(0xcc), U256::from_u64(1));
    assert_eq!(Buy::try_from(&tx(addr(1), Some(FOUR_MEME()), 0, input)), Err(()));
    let mut input = encode_purchase(&addr(0xcc), U256::from_u64(1), U256::from_u64(1));
    input[0] = 0;
    assert_eq!(Buy::try_from(&tx(addr(1), Some(FOUR_MEME()), 0, input)), Err(()));
    assert_eq!(Buy::try_from(&tx(addr(1), Some(FOUR_MEME()), 0, vec![])), Err(()));
}

#[test]
fn sell_read_back_from_its_calldata() {
    let amount = U256::from_u128(5_000_000_000_000_000_000_000);
    let t = tx(addr(3), Some(FOUR_MEME()), 0, encode_sale(&addr(0xdd), amount));
    assert_eq!(Sell::try_from(&t).unwrap(), Sell { token: addr(0xdd), amount });
}

#[test]
fn sell_refused_for_buy_or_other_contract() {
    let input = encode_purchase(&addr(0xcc), U256::from_u64(1), U256::from_u64(1));
    assert_eq!(Sell::try_from(&tx(addr(1), Some(FOUR_MEME()), 0, input)), Err(()));
    let input = encode_sale(&addr(0xcc), U256::from_u64(1));
    assert_eq!(Sell::try_from(&tx(addr(1), Some(addr(9)), 0, input)), Err(()));
}

fn buy_tx(from: u8, token: u8) -> Transaction {
    tx(addr(from), Some(FOUR_MEME()), 1, encode_purchase(&addr(token), U256::from_u64(1), U256::from_u64(0)))
}

fn sell_tx(from: u8, token: u8) -> Transaction {
    tx(addr(from), Some(FOUR_MEME()), 0, encode_sale(&addr(token), U256::from_u64(1)))
}

#[test]
fn bot_buys_and_sells_same_token() {
    let block = Block {
        number: Some(1),
        transactions: Some(vec![buy_tx(1, 0xa0), buy_tx(2, 0xa0), sell_tx(1, 0xa0), sell_tx(3, 0xa0)]),
    };
    assert_eq!(find_sandwich_bot(&block), vec![addr(1)]);
}

#[test]
fn other_token_is_no_sandwich() {
    let block = Block { number: Some(1), transactions: Some(vec![buy_tx(1, 0xa0), sell_tx(1, 0xa1)]) };
    assert_eq!(find_sandwich_bot(&block), Vec::<Address>::new());
}

#[test]
fn bot_listed_once_per_token() {
    let block = Block {
        number: Some(1),
        transactions: Some(vec![sell_tx(1, 0xa1), buy_tx(1, 0xa0), buy_tx(1, 0xa1), sell_tx(1, 0xa0)]),
    };
    assert_eq!(find_sandwich_bot(&block), vec![addr(1), addr(1)]);
}

#[test]
fn repeated_trades_of_one_token_listed_once() {
    let block = Block {
        number: Some(1),
        transactions: Some(vec![buy_tx(1, 0xa0), buy_tx(1, 0xa0), sell_tx(1, 0xa0), sell_tx(1, 0xa0)]),
    };
    assert_eq!(find_sandwich_bot(&block), vec![addr(1)]);
}

#[test]
fn block_without_transactions_has_no_bots() {
    assert_eq!(find_sandwich_bot(&Block { number: Some(1), transactions: None }), Vec::<Address>::new());
}

#[test]
fn hash_key_is_big_endian_limbs() {
    let mut bytes = [0u8; 32];
    bytes[31] = 1;
    bytes[0] = 2;
    let key = B256 { bytes }.to_key();
    assert_eq!(key, (1, 0, 0, 0x0200_0000_0000_0000));
}

#[test]
fn address_equality() {
    assert!(addr(1).equals(&addr(1)));
    assert!(!addr(1).equals(&addr(2)));
}
