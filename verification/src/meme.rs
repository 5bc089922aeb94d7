//! The FOUR.MEME launchpad: its calls as they appear in transactions, and the
//! bonding-curve arithmetic that prices a buy or a sell.
use vstd::prelude::*;
use vstd::slice::slice_subrange;
use crate::primitives::{Address, B256, holds_address};
use crate::uint::{
    U256, add_checked, add_wrapping, be_bytes, be_value, div_checked, div_floor, from_be_slice,
    lemma_be_word_roundtrip, max, mul_wrapping, opt_value, sub_checked, sub_wrapping, to_be_bytes,
    word_modulus, wrap_sub,
};
use vstd::arithmetic::div_mod::{lemma_div_is_ordered_by_denominator, lemma_fundamental_div_mod};

verus! {

/// The bytes of the FOUR.MEME contract address, 0xec4549cadce5da21df6e6422d448034b5233bfbc.
pub open spec fn four_meme_bytes() -> Seq<u8> {
    seq![
        0xecu8, 0x45, 0x49, 0xca, 0xdc, 0xe5, 0xda, 0x21, 0xdf, 0x6e, 0x64, 0x22, 0xd4, 0x48, 0x03,
        0x4b, 0x52, 0x33, 0xbf, 0xbc,
    ]
}

/// The FOUR.MEME contract address.
#[allow(non_snake_case)]
pub fn FOUR_MEME() -> (r: Address)
    ensures
        r@ == four_meme_bytes(),
{
    let r = Address {
        bytes: [
            0xec, 0x45, 0x49, 0xca, 0xdc, 0xe5, 0xda, 0x21, 0xdf, 0x6e, 0x64, 0x22, 0xd4, 0x48, 0x03,
            0x4b, 0x52, 0x33, 0xbf, 0xbc,
        ],
    };
    assert(r@ =~= four_meme_bytes());
    r
}

/// Selector of `purchaseTokenAMAP(address,uint256,uint256)`.
pub open spec fn purchase_selector() -> Seq<u8> {
    seq![0x3du8, 0xee, 0xc4, 0x19]
}

/// Selector of `saleToken(address,uint256)`.
pub open spec fn sale_selector() -> Seq<u8> {
    seq![0x9bu8, 0x91, 0x1b, 0x5e]
}

/// Selector of the ERC-20 `approve(address,uint256)`.
pub open spec fn approve_selector() -> Seq<u8> {
    seq![0x09u8, 0x5e, 0xa7, 0xb3]
}

/// Storage slot of the fee rate in the FOUR.MEME contract.
pub const FEE_RATE_SLOT: u64 = 0x163;

/// Storage slot of the minimum fee in the FOUR.MEME contract.
pub const MIN_FEE_SLOT: u64 = 0x164;

/// A transaction as the search reads it.
#[derive(Clone, Debug)]
pub struct Transaction {
    pub hash: B256,
    pub block_number: Option<u64>,
    pub from: Address,
    pub to: Option<Address>,
    pub value: U256,
    pub input: Vec<u8>,
}

/// A block: its number and, when the block came with them, its full transactions.
#[derive(Clone, Debug)]
pub struct Block {
    pub number: Option<u64>,
    pub transactions: Option<Vec<Transaction>>,
}

/// A buy on FOUR.MEME (`purchaseTokenAMAP`) found in a transaction.
#[derive(Clone, Copy, Debug, PartialEq, Eq, Hash)]
pub struct Buy {
    pub token: Address,
    pub tx_value: U256,
    pub amount: U256,
    pub min_received: U256,
}

pub ghost struct BuyModel {
    pub token: Seq<u8>,
    pub tx_value: nat,
    pub amount: nat,
    pub min_received: nat,
}

impl View for Buy {
    type V = BuyModel;

    open spec fn view(&self) -> BuyModel {
        BuyModel {
            token: self.token@,
            tx_value: self.tx_value.value(),
            amount: self.amount.value(),
            min_received: self.min_received.value(),
        }
    }
}

/// A sell on FOUR.MEME (`saleToken`) found in a transaction.
#[derive(Debug, PartialEq, Eq, Hash)]
pub struct Sell {
    pub token: Address,
    pub amount: U256,
}

pub ghost struct SellModel {
    pub token: Seq<u8>,
    pub amount: nat,
}

impl View for Sell {
    type V = SellModel;

    open spec fn view(&self) -> SellModel {
        SellModel { token: self.token@, amount: self.amount.value() }
    }
}

/// The transaction is sent to the FOUR.MEME contract.
pub open spec fn calls_four_meme(tx: Transaction) -> bool {
    tx.to matches Some(to) && to@ == four_meme_bytes()
}

/// What a transaction is as a buy: a call of FOUR.MEME with the buy selector and
/// exactly three 32-byte arguments; the token is read from the low 20 bytes of the
/// first argument.
pub open spec fn spec_buy(tx: Transaction) -> Option<BuyModel> {
    let input = tx.input@;
    if calls_four_meme(tx) && input.len() == 4 + 32 * 3 && input.subrange(0, 4)
        == purchase_selector() {
        Some(
            BuyModel {
                token: input.subrange(16, 36),
                tx_value: tx.value.value(),
                amount: be_value(input.subrange(36, 68)),
                min_received: be_value(input.subrange(68, 100)),
            },
        )
    } else {
        None
    }
}

/// What a transaction is as a sell: a call of FOUR.MEME with the sell selector and
/// exactly two 32-byte arguments.
pub open spec fn spec_sell(tx: Transaction) -> Option<SellModel> {
    let input = tx.input@;
    if calls_four_meme(tx) && input.len() == 4 + 32 * 2 && input.subrange(0, 4)
        == sale_selector() {
        Some(SellModel { token: input.subrange(16, 36), amount: be_value(input.subrange(36, 68)) })
    } else {
        None
    }
}

/// Whether `input` starts with the four bytes of `selector`.
fn has_selector(input: &Vec<u8>, selector: [u8; 4]) -> (r: bool)
    requires
        input@.len() >= 4,
    ensures
        r == (input@.subrange(0, 4) == selector@),
{
    let r = input[0] == selector[0] && input[1] == selector[1] && input[2] == selector[2]
        && input[3] == selector[3];
    proof {
        if r {
            assert(input@.subrange(0, 4) =~= selector@);
        } else if input@.subrange(0, 4) == selector@ {
            assert(input@.subrange(0, 4)[0] == selector@[0]);
            assert(input@.subrange(0, 4)[1] == selector@[1]);
            assert(input@.subrange(0, 4)[2] == selector@[2]);
            assert(input@.subrange(0, 4)[3] == selector@[3]);
        }
    }
    r
}

/// Whether the transaction is sent to FOUR.MEME.
fn is_to_four_meme(tx: &Transaction) -> (r: bool)
    ensures
        r == calls_four_meme(*tx),
{
    match &tx.to {
        Some(to) => to.equals(&FOUR_MEME()),
        None => false,
    }
}

impl Buy {
    /// Reads a buy out of a transaction; `Err(())` where it is no buy on FOUR.MEME.
    pub fn try_from(tx: &Transaction) -> (r: Result<Buy, ()>)
        ensures
            match r {
                Ok(b) => spec_buy(*tx) == Some(b@),
                Err(_) => spec_buy(*tx) is None,
            },
    {
        if !is_to_four_meme(tx) {
            return Err(());
        }
        if tx.input.len() != 4 + 32 * 3 {
            return Err(());
        }
        if !has_selector(&tx.input, [0x3d, 0xee, 0xc4, 0x19]) {
            assert([0x3du8, 0xee, 0xc4, 0x19]@ =~= purchase_selector());
            return Err(());
        }
        assert([0x3du8, 0xee, 0xc4, 0x19]@ =~= purchase_selector());
        let input = tx.input.as_slice();
        Ok(
            Buy {
                tx_value: tx.value,
                token: Address::from_slice(slice_subrange(input, 16, 36)),
                amount: from_be_slice(slice_subrange(input, 36, 68)),
                min_received: from_be_slice(slice_subrange(input, 68, 100)),
            },
        )
    }
}

impl Sell {
    /// Reads a sell out of a transaction; `Err(())` where it is no sell on FOUR.MEME.
    pub fn try_from(tx: &Transaction) -> (r: Result<Sell, ()>)
        ensures
            match r {
                Ok(s) => spec_sell(*tx) == Some(s@),
                Err(_) => spec_sell(*tx) is None,
            },
    {
        if !is_to_four_meme(tx) {
            return Err(());
        }
        if tx.input.len() != 4 + 32 * 2 {
            return Err(());
        }
        if !has_selector(&tx.input, [0x9b, 0x91, 0x1b, 0x5e]) {
            assert([0x9bu8, 0x91, 0x1b, 0x5e]@ =~= sale_selector());
            return Err(());
        }
        assert([0x9bu8, 0x91, 0x1b, 0x5e]@ =~= sale_selector());
        let input = tx.input.as_slice();
        Ok(
            Sell {
                token: Address::from_slice(slice_subrange(input, 16, 36)),
                amount: from_be_slice(slice_subrange(input, 36, 68)),
            },
        )
    }
}

/// The ABI encoding of an address argument: 12 zero bytes, then the address.
pub open spec fn abi_address(a: Seq<u8>) -> Seq<u8> {
    Seq::new(12, |i: int| 0u8) + a
}

/// Calldata of `purchaseTokenAMAP(tokenAddress, funds, minAmount)`.
pub open spec fn purchase_calldata(token: Seq<u8>, funds: nat, min_amount: nat) -> Seq<u8> {
    purchase_selector() + abi_address(token) + be_bytes(funds, 32) + be_bytes(min_amount, 32)
}

/// Calldata of `saleToken(tokenAddress, amount)`.
pub open spec fn sale_calldata(token: Seq<u8>, amount: nat) -> Seq<u8> {
    sale_selector() + abi_address(token) + be_bytes(amount, 32)
}

/// Calldata of the ERC-20 `approve(spender, allowance)`.
pub open spec fn approve_calldata(spender: Seq<u8>, allowance: nat) -> Seq<u8> {
    approve_selector() + abi_address(spender) + be_bytes(allowance, 32)
}

/// Appends the bytes of `s` to `out`.
fn extend_bytes(out: &mut Vec<u8>, s: &[u8])
    ensures
        final(out)@ == old(out)@ + s@,
{
    let mut i: usize = 0;
    while i < s.len()
        invariant
            i <= s@.len(),
            out@ == old(out)@ + s@.subrange(0, i as int),
        decreases s@.len() - i,
    {
        out.push(s[i]);
        i = i + 1;
        assert(out@ =~= old(out)@ + s@.subrange(0, i as int));
    }
    assert(s@.subrange(0, s@.len() as int) =~= s@);
}

/// Appends a 4-byte selector, then an address argument.
fn start_call(selector: [u8; 4], a: &Address) -> (r: Vec<u8>)
    ensures
        r@ == selector@ + abi_address(a@),
{
    let mut out: Vec<u8> = Vec::new();
    extend_bytes(&mut out, selector.as_slice());
    let zeros: [u8; 12] = [0, 0, 0, 0, 0, 0, 0, 0, 0, 0, 0, 0];
    assert(zeros@ =~= Seq::new(12, |i: int| 0u8));
    extend_bytes(&mut out, zeros.as_slice());
    extend_bytes(&mut out, a.bytes.as_slice());
    assert(out@ =~= selector@ + abi_address(a@));
    out
}

/// Encodes a call of `purchaseTokenAMAP(tokenAddress, funds, minAmount)`.
pub fn encode_purchase(token: &Address, funds: U256, min_amount: U256) -> (r: Vec<u8>)
    ensures
        r@ == purchase_calldata(token@, funds.value(), min_amount.value()),
{
    let mut out = start_call([0x3d, 0xee, 0xc4, 0x19], token);
    let f = to_be_bytes(funds);
    let m = to_be_bytes(min_amount);
    extend_bytes(&mut out, f.as_slice());
    extend_bytes(&mut out, m.as_slice());
    assert([0x3du8, 0xee, 0xc4, 0x19]@ =~= purchase_selector());
    out
}

/// Encodes a call of `saleToken(tokenAddress, amount)`.
pub fn encode_sale(token: &Address, amount: U256) -> (r: Vec<u8>)
    ensures
        r@ == sale_calldata(token@, amount.value()),
{
    let mut out = start_call([0x9b, 0x91, 0x1b, 0x5e], token);
    let a = to_be_bytes(amount);
    extend_bytes(&mut out, a.as_slice());
    assert([0x9bu8, 0x91, 0x1b, 0x5e]@ =~= sale_selector());
    out
}

/// Encodes a call of the ERC-20 `approve(spender, allowance)`.
pub fn encode_approve(spender: &Address, allowance: U256) -> (r: Vec<u8>)
    ensures
        r@ == approve_calldata(spender@, allowance.value()),
{
    let mut out = start_call([0x09, 0x5e, 0xa7, 0xb3], spender);
    let a = to_be_bytes(allowance);
    extend_bytes(&mut out, a.as_slice());
    assert([0x09u8, 0x5e, 0xa7, 0xb3]@ =~= approve_selector());
    out
}

/// A buy that this library encodes is read back as the same buy: for a transaction
/// to FOUR.MEME whose calldata is `purchase_calldata(token, funds, min_amount)`,
/// the buy found in it has that token, `funds` as amount, `min_amount` as minimum
/// received, and the transaction's value.
pub proof fn lemma_purchase_roundtrip(tx: Transaction, token: Address, funds: U256, min_amount: U256)
    requires
        calls_four_meme(tx),
        tx.input@ == purchase_calldata(token@, funds.value(), min_amount.value()),
    ensures
        spec_buy(tx) == Some(
            BuyModel {
                token: token@,
                tx_value: tx.value.value(),
                amount: funds.value(),
                min_received: min_amount.value(),
            },
        ),
{
    lemma_be_word_roundtrip(funds);
    lemma_be_word_roundtrip(min_amount);
    let input = tx.input@;
    assert(input.subrange(0, 4) =~= purchase_selector());
    assert(input.subrange(16, 36) =~= token@);
    assert(input.subrange(36, 68) =~= be_bytes(funds.value(), 32));
    assert(input.subrange(68, 100) =~= be_bytes(min_amount.value(), 32));
}

/// A sell that this library encodes is read back as the same sell.
pub proof fn lemma_sale_roundtrip(tx: Transaction, token: Address, amount: U256)
    requires
        calls_four_meme(tx),
        tx.input@ == sale_calldata(token@, amount.value()),
    ensures
        spec_sell(tx) == Some(SellModel { token: token@, amount: amount.value() }),
{
    lemma_be_word_roundtrip(amount);
    let input = tx.input@;
    assert(input.subrange(0, 4) =~= sale_selector());
    assert(input.subrange(16, 36) =~= token@);
    assert(input.subrange(36, 68) =~= be_bytes(amount.value(), 32));
}

/// 10^18 wei.
pub open spec fn ether_value() -> nat {
    1_000_000_000_000_000_000
}

/// 10^9 wei.
pub open spec fn gwei_value() -> nat {
    1_000_000_000
}

/// One ether, 10^18 wei.
#[allow(non_snake_case)]
pub fn ETHER() -> (r: U256)
    ensures
        r.value() == ether_value(),
{
    U256::from_u64(1_000_000_000_000_000_000)
}

/// One gwei, 10^9 wei.
#[allow(non_snake_case)]
pub fn GWEI() -> (r: U256)
    ensures
        r.value() == gwei_value(),
{
    U256::from_u64(1_000_000_000)
}

/// The bonding-curve state of a token: `k` the curve constant, `t` the tokens the
/// curve holds, `offer` the tokens still offered, `ether` the ether it took in.
#[derive(Clone, Copy, Debug)]
pub struct TokenInfo {
    pub k: U256,
    pub t: U256,
    pub offer: U256,
    pub ether: U256,
}

pub ghost struct TokenModel {
    pub k: nat,
    pub t: nat,
    pub offer: nat,
    pub ether: nat,
}

impl View for TokenInfo {
    type V = TokenModel;

    open spec fn view(&self) -> TokenModel {
        TokenModel {
            k: self.k.value(),
            t: self.t.value(),
            offer: self.offer.value(),
            ether: self.ether.value(),
        }
    }
}

/// `k * ETHER` as the contract computes it in 256-bit words (wrapping).
pub open spec fn curve_product(tok: TokenModel) -> nat {
    (tok.k * ether_value()) % word_modulus()
}

/// The ether it takes to buy all the tokens still offered:
/// `K/(t - offer) - K/t` with `K = k * ETHER`, where `offer < t`.
pub open spec fn spec_calc_max_buy(tok: TokenModel) -> Option<nat> {
    if tok.offer < tok.t {
        Some(
            (curve_product(tok) / (tok.t - tok.offer) as nat - curve_product(tok) / tok.t) as nat,
        )
    } else {
        None
    }
}

/// The tokens received for `expect_buy` ether, `t - K/(expect_buy + K/t)`, rounded
/// down to a whole gwei; `None` where `t` is 0, where the sum overflows 256 bits or is 0,
/// or where `K/(expect_buy + K/t)` exceeds `t`.
pub open spec fn spec_calc_actual_buy(expect_buy: nat, tok: TokenModel) -> Option<nat> {
    if tok.t == 0 {
        None
    } else {
        let v0 = curve_product(tok) / tok.t;
        let sum = expect_buy + v0;
        if sum >= word_modulus() || sum == 0 {
            None
        } else {
            let v1 = curve_product(tok) / sum;
            if v1 > tok.t {
                None
            } else {
                Some((((tok.t - v1) as nat) / gwei_value()) * gwei_value())
            }
        }
    }
}

/// The ether it costs to buy `actual_buy` tokens: `K/(t - actual_buy) - K/t`,
/// where `actual_buy < t`.
pub open spec fn spec_calc_buy(actual_buy: nat, tok: TokenModel) -> Option<nat> {
    if actual_buy < tok.t {
        Some(
            (curve_product(tok) / (tok.t - actual_buy) as nat - curve_product(tok) / tok.t) as nat,
        )
    } else {
        None
    }
}

/// The ether received for selling `token_amount` tokens: `K/t - K/(token_amount + t)`,
/// both the sum and the difference taken modulo 2^256; `None` where `t` or the
/// wrapped sum is 0.
pub open spec fn spec_calc_sell(token_amount: nat, tok: TokenModel) -> Option<nat> {
    let sum = (token_amount + tok.t) % word_modulus();
    if tok.t == 0 || sum == 0 {
        None
    } else {
        Some(wrap_sub(curve_product(tok) / tok.t, curve_product(tok) / sum))
    }
}

/// The fee on `ether`: `fee_rate * ether / 10000` (the product taken modulo 2^256),
/// and never less than `min_fee`.
pub open spec fn spec_calc_fee(ether: nat, fee_rate: nat, min_fee: nat) -> nat {
    let fee = ((fee_rate * ether) % word_modulus()) / 10000;
    if fee >= min_fee {
        fee
    } else {
        min_fee
    }
}

/// The curve after a buy of `actual_buy` tokens for `buy_cost` ether, and whether
/// the update went through: `t` and `offer` both drop by `actual_buy` and `ether`
/// grows by `buy_cost` (modulo 2^256). Where `t < actual_buy` nothing changes;
/// where only `offer < actual_buy`, `t` has already dropped and the rest stays.
pub open spec fn spec_post_buy(tok: TokenModel, actual_buy: nat, buy_cost: nat) -> (bool, TokenModel) {
    if tok.t < actual_buy {
        (false, tok)
    } else if tok.offer < actual_buy {
        (false, TokenModel { t: (tok.t - actual_buy) as nat, ..tok })
    } else {
        (
            true,
            TokenModel {
                k: tok.k,
                t: (tok.t - actual_buy) as nat,
                offer: (tok.offer - actual_buy) as nat,
                ether: (tok.ether + buy_cost) % word_modulus(),
            },
        )
    }
}

fn curve_constant(token: &TokenInfo) -> (r: U256)
    ensures
        r.value() == curve_product(token@),
{
    mul_wrapping(token.k, ETHER())
}

/// The ether it takes to buy all the tokens still offered.
pub fn calc_max_buy(token: &TokenInfo) -> (r: Option<U256>)
    ensures
        opt_value(r) == spec_calc_max_buy(token@),
{
    let kk = curve_constant(token);
    let d = sub_checked(token.t, token.offer)?;
    let q1 = div_checked(kk, d)?;
    let q2 = div_checked(curve_constant(token), token.t)?;
    proof {
        lemma_div_is_ordered_by_denominator(kk.value() as int, d.value() as int, token.t.value() as int);
    }
    sub_checked(q1, q2)
}

/// The tokens received for `expect_buy` ether, in whole gwei.
pub fn calc_actual_buy(expect_buy: U256, token: &TokenInfo) -> (r: Option<U256>)
    ensures
        opt_value(r) == spec_calc_actual_buy(expect_buy.value(), token@),
{
    let v0 = div_checked(curve_constant(token), token.t)?;
    let sum = add_checked(expect_buy, v0)?;
    let v1 = div_checked(curve_constant(token), sum)?;
    let rest = sub_checked(token.t, v1)?;
    let whole = div_floor(rest, GWEI());
    proof {
        lemma_fundamental_div_mod(rest.value() as int, gwei_value() as int);
        assert(whole.value() * gwei_value() <= rest.value());
        vstd::arithmetic::div_mod::lemma_small_mod(whole.value() * gwei_value(), word_modulus());
    }
    Some(mul_wrapping(whole, GWEI()))
}

/// The ether it costs to buy `actual_buy` tokens.
pub fn calc_buy(actual_buy: U256, token: &TokenInfo) -> (r: Option<U256>)
    ensures
        opt_value(r) == spec_calc_buy(actual_buy.value(), token@),
{
    let d = sub_checked(token.t, actual_buy)?;
    let v0 = div_checked(curve_constant(token), d)?;
    let v1 = div_checked(curve_constant(token), token.t)?;
    proof {
        lemma_div_is_ordered_by_denominator(
            curve_product(token@) as int,
            d.value() as int,
            token.t.value() as int,
        );
        vstd::arithmetic::div_mod::lemma_small_mod((v0.value() - v1.value()) as nat, word_modulus());
    }
    Some(sub_wrapping(v0, v1))
}

/// The ether received for selling `token_amount` tokens.
pub fn calc_sell(token_amount: U256, token: &TokenInfo) -> (r: Option<U256>)
    ensures
        opt_value(r) == spec_calc_sell(token_amount.value(), token@),
{
    let v0 = div_checked(curve_constant(token), token.t)?;
    let v1 = div_checked(curve_constant(token), add_wrapping(token_amount, token.t))?;
    Some(sub_wrapping(v0, v1))
}

/// The fee on `ether`, at least `min_fee`. The fee rate is read from storage slot
/// 0x163 and the minimum fee from slot 0x164.
pub fn calc_fee(ether: U256, fee_rate: U256, min_fee: U256) -> (r: U256)
    ensures
        r.value() == spec_calc_fee(ether.value(), fee_rate.value(), min_fee.value()),
{
    let fee = div_floor(mul_wrapping(fee_rate, ether), U256::from_u64(10000));
    max(fee, min_fee)
}

/// Applies a buy of `actual_buy` tokens for `buy_cost` ether to the curve;
/// `None` where the curve cannot sell that many tokens.
pub fn post_buy_update_status(token_info: &mut TokenInfo, actual_buy: &U256, buy_cost: &U256) -> (r: Option<()>)
    ensures
        r is Some == spec_post_buy(old(token_info)@, actual_buy.value(), buy_cost.value()).0,
        final(token_info)@ == spec_post_buy(old(token_info)@, actual_buy.value(), buy_cost.value()).1,
{
    token_info.t = sub_checked(token_info.t, *actual_buy)?;
    token_info.offer = sub_checked(token_info.offer, *actual_buy)?;
    token_info.ether = add_wrapping(token_info.ether, *buy_cost);
    Some(())
}

/// In `txs`, transaction `i` buys and transaction `j` sells the same token, and both
/// are sent by the same account.
pub open spec fn sandwich_pair(txs: Seq<Transaction>, i: int, j: int) -> bool {
    &&& 0 <= i < txs.len()
    &&& 0 <= j < txs.len()
    &&& txs[i].from@ == txs[j].from@
    &&& spec_buy(txs[i]) is Some
    &&& spec_sell(txs[j]) is Some
    &&& spec_buy(txs[i]).unwrap().token == spec_sell(txs[j]).unwrap().token
}

/// The account `user` both buys and sells some token within `txs`.
pub open spec fn is_sandwich_bot(txs: Seq<Transaction>, user: Seq<u8>) -> bool {
    exists|i: int, j: int| #[trigger] sandwich_pair(txs, i, j) && txs[i].from@ == user
}

/// In `txs`, the account `user` buys `token` in one transaction and sells it in another.
pub open spec fn bot_token(txs: Seq<Transaction>, user: Seq<u8>, token: Seq<u8>) -> bool {
    exists|i: int, j: int|
        #[trigger] sandwich_pair(txs, i, j) && txs[i].from@ == user && spec_buy(txs[i]).unwrap().token
            == token
}

/// Entry `n` of `users` is paired with `tokens[n]`, and the pair `(user, token)` is among them.
pub open spec fn pair_listed(users: Seq<Address>, tokens: Seq<Address>, user: Seq<u8>, token: Seq<u8>) -> bool {
    exists|n: int| 0 <= n < users.len() && #[trigger] users[n]@ == user && tokens[n]@ == token
}

/// `users` lists each account once for every token it both buys and sells in `txs`:
/// paired with `tokens`, each entry is such an (account, token) pair, no pair is listed
/// twice, and every such pair is listed.
pub open spec fn lists_bot_tokens(txs: Seq<Transaction>, users: Seq<Address>, tokens: Seq<Address>) -> bool {
    &&& tokens.len() == users.len()
    &&& forall|n: int| 0 <= n < users.len() ==> bot_token(txs, (#[trigger] users[n])@, tokens[n]@)
    &&& forall|m: int, n: int|
        0 <= m < n < users.len() ==> !((#[trigger] users[m])@ == (#[trigger] users[n])@ && tokens[m]@
            == tokens[n]@)
    &&& forall|user: Seq<u8>, token: Seq<u8>|
        #[trigger] bot_token(txs, user, token) ==> pair_listed(users, tokens, user, token)
}

/// Whether `(user, token)` is among the pairs of `users` and `tokens`.
fn contains_pair(users: &Vec<Address>, tokens: &Vec<Address>, user: &Address, token: &Address) -> (r: bool)
    requires
        users@.len() == tokens@.len(),
    ensures
        r == pair_listed(users@, tokens@, user@, token@),
{
    let mut n: usize = 0;
    while n < users.len()
        invariant
            n <= users@.len(),
            users@.len() == tokens@.len(),
            forall|m: int| 0 <= m < n ==> !((#[trigger] users@[m])@ == user@ && tokens@[m]@ == token@),
        decreases users@.len() - n,
    {
        if users[n].equals(user) && tokens[n].equals(token) {
            return true;
        }
        n = n + 1;
    }
    false
}

/// The accounts that buy and sell the same token within one block, each listed once
/// for every such token (so an account that does it with two tokens is listed twice);
/// none when the block came without its transactions.
pub fn find_sandwich_bot(block: &Block) -> (r: Vec<Address>)
    ensures
        block.transactions is None ==> r@.len() == 0,
        block.transactions matches Some(txs) ==> {
            &&& exists|tokens: Seq<Address>| #[trigger] lists_bot_tokens(txs@, r@, tokens)
            &&& forall|k: int| 0 <= k < r@.len() ==> is_sandwich_bot(txs@, #[trigger] r@[k]@)
            &&& forall|i: int, j: int| #[trigger] sandwich_pair(txs@, i, j) ==> holds_address(r@, txs@[i].from@)
        },
{
    let txs = match &block.transactions {
        None => return Vec::new(),
        Some(txs) => txs,
    };
    let n = txs.len();
    let mut out: Vec<Address> = Vec::new();
    let mut tokens: Vec<Address> = Vec::new();
    let mut i: usize = 0;
    while i < n
        invariant
            n == txs@.len(),
            i <= n,
            tokens@.len() == out@.len(),
            forall|k: int| 0 <= k < out@.len() ==> bot_token(txs@, (#[trigger] out@[k])@, tokens@[k]@),
            forall|m: int, k: int|
                0 <= m < k < out@.len() ==> !((#[trigger] out@[m])@ == (#[trigger] out@[k])@ && tokens@[m]@
                    == tokens@[k]@),
            forall|a: int, b: int| 0 <= a < i && #[trigger] sandwich_pair(txs@, a, b)
                ==> pair_listed(out@, tokens@, txs@[a].from@, spec_buy(txs@[a]).unwrap().token),
        decreases n - i,
    {
        let buy = Buy::try_from(&txs[i]);
        let mut j: usize = 0;
        while j < n
            invariant
                n == txs@.len(),
                i < n,
                j <= n,
                match buy {
                    Ok(b) => spec_buy(txs@[i as int]) == Some(b@),
                    Err(_) => spec_buy(txs@[i as int]) is None,
                },
                tokens@.len() == out@.len(),
                forall|k: int| 0 <= k < out@.len() ==> bot_token(txs@, (#[trigger] out@[k])@, tokens@[k]@),
                forall|m: int, k: int|
                    0 <= m < k < out@.len() ==> !((#[trigger] out@[m])@ == (#[trigger] out@[k])@ && tokens@[m]@
                        == tokens@[k]@),
                forall|a: int, b: int| 0 <= a < i && #[trigger] sandwich_pair(txs@, a, b)
                    ==> pair_listed(out@, tokens@, txs@[a].from@, spec_buy(txs@[a]).unwrap().token),
                forall|b: int| 0 <= b < j && #[trigger] sandwich_pair(txs@, i as int, b)
                    ==> pair_listed(out@, tokens@, txs@[i as int].from@, spec_buy(txs@[i as int]).unwrap().token),
            decreases n - j,
        {
            if let Ok(b) = &buy {
                let sell = Sell::try_from(&txs[j]);
                if let Ok(s) = sell {
                    let user = txs[i].from;
                    if user.equals(&txs[j].from) && b.token.equals(&s.token) {
                        assert(sandwich_pair(txs@, i as int, j as int));
                        if !contains_pair(&out, &tokens, &user, &b.token) {
                            let ghost old_out = out@;
                            let ghost old_tokens = tokens@;
                            out.push(user);
                            tokens.push(b.token);
                            assert forall|k: int| 0 <= k < out@.len() implies bot_token(txs@, (#[trigger] out@[k])@, tokens@[k]@) by {
                                if k < old_out.len() {
                                    assert(old_out[k] == out@[k]);
                                    assert(old_tokens[k] == tokens@[k]);
                                } else {
                                    assert(sandwich_pair(txs@, i as int, j as int));
                                }
                            }
                            assert forall|m: int, k: int|
                                0 <= m < k < out@.len() implies !((#[trigger] out@[m])@ == (#[trigger] out@[k])@ && tokens@[m]@
                                    == tokens@[k]@) by {
                                assert(old_out[m] == out@[m]);
                                assert(old_tokens[m] == tokens@[m]);
                                if k < old_out.len() {
                                    assert(old_out[k] == out@[k]);
                                    assert(old_tokens[k] == tokens@[k]);
                                }
                            }
                            assert forall|a: int, c: int| 0 <= a < i && #[trigger] sandwich_pair(txs@, a, c)
                                implies pair_listed(out@, tokens@, txs@[a].from@, spec_buy(txs@[a]).unwrap().token) by {
                                let k = choose|k: int| 0 <= k < old_out.len() && #[trigger] old_out[k]@ == txs@[a].from@
                                    && old_tokens[k]@ == spec_buy(txs@[a]).unwrap().token;
                                assert(out@[k] == old_out[k]);
                                assert(tokens@[k] == old_tokens[k]);
                            }
                            assert forall|c: int| 0 <= c < j + 1 && #[trigger] sandwich_pair(txs@, i as int, c)
                                implies pair_listed(out@, tokens@, txs@[i as int].from@, spec_buy(txs@[i as int]).unwrap().token) by {
                                if c < j {
                                    let k = choose|k: int| 0 <= k < old_out.len() && #[trigger] old_out[k]@ == txs@[i as int].from@
                                        && old_tokens[k]@ == spec_buy(txs@[i as int]).unwrap().token;
                                    assert(out@[k] == old_out[k]);
                                    assert(tokens@[k] == old_tokens[k]);
                                } else {
                                    assert(out@[old_out.len() as int]@ == txs@[i as int].from@);
                                }
                            }
                        }
                    }
                }
            }
            j = j + 1;
        }
        i = i + 1;
    }
    proof {
        assert forall|user: Seq<u8>, token: Seq<u8>| #[trigger] bot_token(txs@, user, token)
            implies pair_listed(out@, tokens@, user, token) by {
            let (a, b) = choose|a: int, b: int|
                #[trigger] sandwich_pair(txs@, a, b) && txs@[a].from@ == user && spec_buy(txs@[a]).unwrap().token == token;
        }
        assert(lists_bot_tokens(txs@, out@, tokens@));
        assert forall|k: int| 0 <= k < out@.len() implies is_sandwich_bot(txs@, #[trigger] out@[k]@) by {
            assert(bot_token(txs@, out@[k]@, tokens@[k]@));
        }
        assert forall|a: int, b: int| #[trigger] sandwich_pair(txs@, a, b) implies holds_address(out@, txs@[a].from@) by {
            let k = choose|k: int| 0 <= k < out@.len() && #[trigger] out@[k]@ == txs@[a].from@
                && tokens@[k]@ == spec_buy(txs@[a]).unwrap().token;
        }
    }
    out
}

/// An account that buys and sells two different tokens in a block is listed at two
/// different places; a listing holds each (account, token) pair at one place only.
pub proof fn lemma_listed_once_per_token(
    txs: Seq<Transaction>,
    users: Seq<Address>,
    tokens: Seq<Address>,
    user: Seq<u8>,
    token1: Seq<u8>,
    token2: Seq<u8>,
)
    requires
        lists_bot_tokens(txs, users, tokens),
        bot_token(txs, user, token1),
        bot_token(txs, user, token2),
        token1 != token2,
    ensures
        exists|m: int, n: int|
            0 <= m < users.len() && 0 <= n < users.len() && m != n && #[trigger] users[m]@ == user
                && #[trigger] users[n]@ == user,
        forall|m: int, n: int|
            0 <= m < users.len() && 0 <= n < users.len() && #[trigger] users[m]@ == #[trigger] users[n]@
                && tokens[m]@ == tokens[n]@ ==> m == n,
{
    assert(pair_listed(users, tokens, user, token1));
    assert(pair_listed(users, tokens, user, token2));
    let m = choose|m: int| 0 <= m < users.len() && #[trigger] users[m]@ == user && tokens[m]@ == token1;
    let n = choose|n: int| 0 <= n < users.len() && #[trigger] users[n]@ == user && tokens[n]@ == token2;
    assert(m != n);
    assert forall|m: int, n: int|
        0 <= m < users.len() && 0 <= n < users.len() && #[trigger] users[m]@ == #[trigger] users[n]@
            && tokens[m]@ == tokens[n]@ implies m == n by {
        if m < n {
        } else if n < m {
        }
    }
}

/// Only a call of FOUR.MEME whose calldata is 68 bytes starting with the `saleToken`
/// selector 0x9b911b5e is read as a sell; any other call, such as an `approve` with
/// two arguments, is none.
pub proof fn lemma_sell_needs_sale_selector(tx: Transaction)
    ensures
        spec_sell(tx) is Some ==> {
            &&& calls_four_meme(tx)
            &&& tx.input@.len() == 68
            &&& tx.input@[0] == 0x9b && tx.input@[1] == 0x91 && tx.input@[2] == 0x1b
                && tx.input@[3] == 0x5e
        },
        (tx.input@.len() < 4 || tx.input@[0] != 0x9b || tx.input@[1] != 0x91 || tx.input@[2] != 0x1b
            || tx.input@[3] != 0x5e) ==> spec_sell(tx) is None,
{
    if spec_sell(tx) is Some {
        assert(tx.input@.subrange(0, 4)[0] == tx.input@[0]);
        assert(tx.input@.subrange(0, 4)[1] == tx.input@[1]);
        assert(tx.input@.subrange(0, 4)[2] == tx.input@[2]);
        assert(tx.input@.subrange(0, 4)[3] == tx.input@[3]);
    }
}

/// Only a call of FOUR.MEME whose calldata is 100 bytes starting with the
/// `purchaseTokenAMAP` selector 0x3deec419 is read as a buy.
pub proof fn lemma_buy_needs_purchase_selector(tx: Transaction)
    ensures
        spec_buy(tx) is Some ==> {
            &&& calls_four_meme(tx)
            &&& tx.input@.len() == 100
            &&& tx.input@[0] == 0x3d && tx.input@[1] == 0xee && tx.input@[2] == 0xc4
                && tx.input@[3] == 0x19
        },
        (tx.input@.len() < 4 || tx.input@[0] != 0x3d || tx.input@[1] != 0xee || tx.input@[2] != 0xc4
            || tx.input@[3] != 0x19) ==> spec_buy(tx) is None,
{
    if spec_buy(tx) is Some {
        assert(tx.input@.subrange(0, 4)[0] == tx.input@[0]);
        assert(tx.input@.subrange(0, 4)[1] == tx.input@[1]);
        assert(tx.input@.subrange(0, 4)[2] == tx.input@[2]);
        assert(tx.input@.subrange(0, 4)[3] == tx.input@[3]);
    }
}

/// A transaction from an account that never sends a sell (a call of FOUR.MEME starting
/// with 0x9b911b5e) does not make that account a bot.
pub proof fn lemma_bot_needs_sale_call(txs: Seq<Transaction>, user: Seq<u8>)
    requires
        forall|j: int| 0 <= j < txs.len() && #[trigger] txs[j].from@ == user ==> !(
            calls_four_meme(txs[j]) && txs[j].input@.len() == 68 && txs[j].input@[0] == 0x9b
                && txs[j].input@[1] == 0x91 && txs[j].input@[2] == 0x1b && txs[j].input@[3] == 0x5e),
    ensures
        !is_sandwich_bot(txs, user),
{
    if is_sandwich_bot(txs, user) {
        let (i, j) = choose|i: int, j: int| #[trigger] sandwich_pair(txs, i, j) && txs[i].from@ == user;
        lemma_sell_needs_sale_selector(txs[j]);
        assert(txs[j].from@ == user);
    }
}

/// The largest buy is the cost of buying everything still on offer.
pub proof fn lemma_max_buy_is_cost_of_offer(tok: TokenModel)
    ensures
        spec_calc_max_buy(tok) == spec_calc_buy(tok.offer, tok),
{
}

/// Buying more tokens never costs less.
pub proof fn lemma_buy_cost_monotone(tok: TokenModel, a1: nat, a2: nat)
    requires
        a1 <= a2 < tok.t,
    ensures
        spec_calc_buy(a1, tok).unwrap() <= spec_calc_buy(a2, tok).unwrap(),
{
    lemma_div_is_ordered_by_denominator(
        curve_product(tok) as int,
        (tok.t - a2) as int,
        (tok.t - a1) as int,
    );
    lemma_div_is_ordered_by_denominator(curve_product(tok) as int, (tok.t - a1) as int, tok.t as int);
    lemma_div_is_ordered_by_denominator(curve_product(tok) as int, (tok.t - a2) as int, tok.t as int);
}

/// The fee is never below the minimum fee, nor below the rate's share of the amount.
pub proof fn lemma_fee_at_least_min(ether: nat, fee_rate: nat, min_fee: nat)
    ensures
        spec_calc_fee(ether, fee_rate, min_fee) >= min_fee,
        spec_calc_fee(ether, fee_rate, min_fee) >= ((fee_rate * ether) % word_modulus()) / 10000,
{
}

/// The tokens received for a buy are a whole number of gwei.
pub proof fn lemma_actual_buy_whole_gwei(expect_buy: nat, tok: TokenModel)
    requires
        spec_calc_actual_buy(expect_buy, tok) is Some,
    ensures
        spec_calc_actual_buy(expect_buy, tok).unwrap() % gwei_value() == 0,
        spec_calc_actual_buy(expect_buy, tok).unwrap() <= tok.t,
{
    let v1 = curve_product(tok) / (expect_buy + curve_product(tok) / tok.t);
    let rest = (tok.t - v1) as nat;
    vstd::arithmetic::div_mod::lemma_mod_multiples_basic((rest / gwei_value()) as int, gwei_value() as int);
    lemma_fundamental_div_mod(rest as int, gwei_value() as int);
}

/// A buy that goes through takes the same number of tokens from `t` and from
/// `offer`, so the tokens held back from sale (`t - offer`) and `k` stay the same.
pub proof fn lemma_post_buy_keeps_reserve(tok: TokenModel, actual_buy: nat, buy_cost: nat)
    requires
        spec_post_buy(tok, actual_buy, buy_cost).0,
    ensures
        spec_post_buy(tok, actual_buy, buy_cost).1.t - spec_post_buy(tok, actual_buy, buy_cost).1.offer
            == tok.t - tok.offer,
        spec_post_buy(tok, actual_buy, buy_cost).1.k == tok.k,
{
}

/// A buy that does not go through leaves `offer`, `k` and `ether` as they were.
pub proof fn lemma_post_buy_failure_keeps_offer(tok: TokenModel, actual_buy: nat, buy_cost: nat)
    requires
        !spec_post_buy(tok, actual_buy, buy_cost).0,
    ensures
        spec_post_buy(tok, actual_buy, buy_cost).1.offer == tok.offer,
        spec_post_buy(tok, actual_buy, buy_cost).1.k == tok.k,
        spec_post_buy(tok, actual_buy, buy_cost).1.ether == tok.ether,
{
}

} // verus!
