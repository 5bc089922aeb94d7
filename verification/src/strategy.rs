//! The decisions of the sandwich strategy: which events to act on, which
//! transactions to skip, which accounts are bots, and the bundle to send for a
//! solution. Fetching state and sending bundles is left to the caller.
use vstd::prelude::*;
use crate::meme::{
    Block, Buy, FOUR_MEME, Transaction, approve_calldata, encode_approve, encode_purchase,
    encode_sale, find_sandwich_bot, four_meme_bytes, is_sandwich_bot, purchase_calldata,
    sale_calldata, spec_buy, spec_sell, calls_four_meme, purchase_selector, sale_selector, BuyModel,
    SellModel,
};
use crate::uint::{be_bytes, lemma_be_bytes_len, lemma_be_value_of_bytes, lemma_word_bytes};
use crate::primitives::{Address, contains_address, distinct_addresses, hash_key, holds_address};
use crate::search::{Context, Solution, SolutionModel, go, opt_solution, spec_go};
use crate::tx_cache::{
    TxKey, cache_capacity, cache_contains, cache_new, cache_push, cached_keys, keys_wf,
    lemma_push_keeps_wf, pushed_keys,
};
use crate::uint::{U256, lt, mul_wrapping, word_modulus};
use lru::LruCache;

verus! {

/// Settings of the strategy.
#[derive(Clone, Copy, Debug)]
pub struct Config {
    /// Gas price in wei.
    pub gas_price: u128,
}

/// A transaction request before signing, as the strategy fills it in.
#[derive(Clone, Debug)]
pub struct TxRequest {
    pub from: Option<Address>,
    pub to: Option<Address>,
    pub input: Option<Vec<u8>>,
    pub value: Option<U256>,
    pub gas: Option<u128>,
    pub gas_price: Option<u128>,
}

pub ghost struct TxRequestModel {
    pub from: Option<Seq<u8>>,
    pub to: Option<Seq<u8>>,
    pub input: Option<Seq<u8>>,
    pub value: Option<nat>,
    pub gas: Option<u128>,
    pub gas_price: Option<u128>,
}

pub open spec fn opt_bytes(a: Option<Address>) -> Option<Seq<u8>> {
    match a {
        Some(a) => Some(a@),
        None => None,
    }
}

impl View for TxRequest {
    type V = TxRequestModel;

    open spec fn view(&self) -> TxRequestModel {
        TxRequestModel {
            from: opt_bytes(self.from),
            to: opt_bytes(self.to),
            input: match self.input {
                Some(v) => Some(v@),
                None => None,
            },
            value: match self.value {
                Some(v) => Some(v.value()),
                None => None,
            },
            gas: self.gas,
            gas_price: self.gas_price,
        }
    }
}

/// The request with nothing filled in.
pub open spec fn empty_request() -> TxRequestModel {
    TxRequestModel { from: None, to: None, input: None, value: None, gas: None, gas_price: None }
}

impl TxRequest {
    /// A request with nothing filled in.
    pub fn new() -> (r: TxRequest)
        ensures
            r@ == empty_request(),
    {
        TxRequest { from: None, to: None, input: None, value: None, gas: None, gas_price: None }
    }

    pub fn with_from(self, from: Address) -> (r: TxRequest)
        ensures
            r@ == (TxRequestModel { from: Some(from@), ..self@ }),
    {
        TxRequest { from: Some(from), ..self }
    }

    pub fn with_to(self, to: Address) -> (r: TxRequest)
        ensures
            r@ == (TxRequestModel { to: Some(to@), ..self@ }),
    {
        TxRequest { to: Some(to), ..self }
    }

    pub fn with_input(self, input: Vec<u8>) -> (r: TxRequest)
        ensures
            r@ == (TxRequestModel { input: Some(input@), ..self@ }),
    {
        TxRequest { input: Some(input), ..self }
    }

    pub fn with_value(self, value: U256) -> (r: TxRequest)
        ensures
            r@ == (TxRequestModel { value: Some(value.value()), ..self@ }),
    {
        TxRequest { value: Some(value), ..self }
    }

    pub fn with_gas_limit(self, gas: u128) -> (r: TxRequest)
        ensures
            r@ == (TxRequestModel { gas: Some(gas), ..self@ }),
    {
        TxRequest { gas: Some(gas), ..self }
    }

    pub fn with_gas_price(self, gas_price: u128) -> (r: TxRequest)
        ensures
            r@ == (TxRequestModel { gas_price: Some(gas_price), ..self@ }),
    {
        TxRequest { gas_price: Some(gas_price), ..self }
    }
}

/// A transaction of a bundle: a request we sign, or a raw signed transaction.
#[derive(Clone, Debug)]
pub enum SignedOrUnsignedTx {
    Unsigned(TxRequest),
    Signed(Vec<u8>),
}

pub ghost enum BundleTxModel {
    Unsigned(TxRequestModel),
    Signed(Seq<u8>),
}

impl View for SignedOrUnsignedTx {
    type V = BundleTxModel;

    open spec fn view(&self) -> BundleTxModel {
        match self {
            SignedOrUnsignedTx::Unsigned(t) => BundleTxModel::Unsigned(t@),
            SignedOrUnsignedTx::Signed(b) => BundleTxModel::Signed(b@),
        }
    }
}

/// Transactions to be included, in this order, in block `block`.
#[derive(Clone, Debug)]
pub struct Bundle {
    pub txs: Vec<SignedOrUnsignedTx>,
    pub block: u64,
}

pub ghost struct BundleModel {
    pub txs: Seq<BundleTxModel>,
    pub block: u64,
}

impl View for Bundle {
    type V = BundleModel;

    open spec fn view(&self) -> BundleModel {
        BundleModel { txs: self.txs@.map_values(|t: SignedOrUnsignedTx| t@), block: self.block }
    }
}

/// What the strategy asks to be done.
#[derive(Clone, Debug)]
pub enum Action {
    SendBundle(Bundle),
}

/// What the strategy is told of.
#[derive(Clone, Debug)]
pub enum Event {
    FullBlock(Block),
    PendingTx(Transaction),
}

/// The number of transaction hashes remembered.
pub open spec fn visited_capacity() -> nat {
    1000
}

/// The strategy's state.
pub struct Strategy {
    sender: Address,
    config: Config,
    /// Number of the current block.
    block_number: Option<u64>,
    bots: Vec<Address>,
    visited_tx: LruCache<TxKey, ()>,
}

pub ghost struct StrategyModel {
    pub sender: Seq<u8>,
    pub gas_price: u128,
    pub block_number: Option<u64>,
    pub bots: Seq<Address>,
    pub visited: Seq<TxKey>,
    pub capacity: nat,
}

impl View for Strategy {
    type V = StrategyModel;

    closed spec fn view(&self) -> StrategyModel {
        StrategyModel {
            sender: self.sender@,
            gas_price: self.config.gas_price,
            block_number: self.block_number,
            bots: self.bots@,
            visited: cached_keys(self.visited_tx),
            capacity: cache_capacity(self.visited_tx),
        }
    }
}

/// The known bots are listed once each and never include our own sender; the cache
/// of seen transactions holds at most 1000 keys, none twice.
pub open spec fn strategy_wf(m: StrategyModel) -> bool {
    &&& distinct_addresses(m.bots)
    &&& !holds_address(m.bots, m.sender)
    &&& m.capacity == visited_capacity()
    &&& keys_wf(m.visited, m.capacity)
}

/// Skipped: a transaction already in a block, one of our own, or one of a known bot.
pub open spec fn skips(m: StrategyModel, tx: Transaction) -> bool {
    tx.block_number is Some || tx.from@ == m.sender || holds_address(m.bots, tx.from@)
}

/// The block came with its transactions, and `user` buys and sells the same token in them.
pub open spec fn block_shows_bot(block: Block, user: Seq<u8>) -> bool {
    block.transactions matches Some(txs) && is_sandwich_bot(txs@, user)
}

/// The bots after a block: the known ones, then the new ones the block shows
/// (never our sender); see `Strategy::on_new_block`.
pub open spec fn bots_after_block(old_bots: Seq<Address>, new_bots: Seq<Address>, sender: Seq<u8>, block: Block) -> bool {
    &&& new_bots.subrange(0, old_bots.len() as int) =~= old_bots
    &&& old_bots.len() <= new_bots.len()
    &&& forall|k: int| old_bots.len() <= k < new_bots.len() ==> {
        &&& (#[trigger] new_bots[k])@ != sender
        &&& !holds_address(old_bots, new_bots[k]@)
        &&& block_shows_bot(block, new_bots[k]@)
    }
    &&& forall|u: Seq<u8>| #![trigger holds_address(new_bots, u)]
        block_shows_bot(block, u) && u != sender
            ==> holds_address(new_bots, u)
}

/// The gas limit of our buy.
pub open spec fn buy_gas() -> u128 {
    150000
}

/// The gas limit of our sell.
pub open spec fn sell_gas() -> u128 {
    130000
}

/// The gas limit of an approval.
pub open spec fn approve_gas() -> u128 {
    50000
}

/// Our buy: `purchaseTokenAMAP(token, token_bought, 0)` sent with `ether_spent` wei.
pub open spec fn buy_request(m: StrategyModel, token: Seq<u8>, s: SolutionModel) -> TxRequestModel {
    TxRequestModel {
        from: Some(m.sender),
        to: Some(four_meme_bytes()),
        input: Some(purchase_calldata(token, s.token_bought, 0)),
        value: Some(s.ether_spent),
        gas: Some(buy_gas()),
        gas_price: Some(m.gas_price),
    }
}

/// Our sell: `saleToken(token, token_sold)`.
pub open spec fn sell_request(m: StrategyModel, token: Seq<u8>, s: SolutionModel) -> TxRequestModel {
    TxRequestModel {
        from: Some(m.sender),
        to: Some(four_meme_bytes()),
        input: Some(sale_calldata(token, s.token_sold)),
        value: None,
        gas: Some(sell_gas()),
        gas_price: Some(m.gas_price),
    }
}

/// The approval of FOUR.MEME to spend all of our `token`.
pub open spec fn approve_request(m: StrategyModel, token: Seq<u8>) -> TxRequestModel {
    TxRequestModel {
        from: Some(m.sender),
        to: Some(token),
        input: Some(approve_calldata(four_meme_bytes(), (word_modulus() - 1) as nat)),
        value: None,
        gas: Some(approve_gas()),
        gas_price: Some(m.gas_price),
    }
}

/// What the sandwich costs in gas: the gas of its requests times the gas price.
pub open spec fn sandwich_cost(gas_price: u128, approve: bool) -> nat {
    ((buy_gas() + (if approve { approve_gas() } else { 0 }) + sell_gas()) * gas_price) as nat
}

/// The bundle for a solution: our buy, the victim's raw transaction, the approval
/// where the allowance is below the tokens to sell, and our sell.
pub open spec fn sandwich_bundle(m: StrategyModel, raw_tx: Seq<u8>, token: Seq<u8>, s: SolutionModel, approve: bool) -> BundleModel {
    let head = seq![
        BundleTxModel::Unsigned(buy_request(m, token, s)),
        BundleTxModel::Signed(raw_tx),
    ];
    let middle = if approve {
        seq![BundleTxModel::Unsigned(approve_request(m, token))]
    } else {
        Seq::empty()
    };
    BundleModel {
        txs: head + middle + seq![BundleTxModel::Unsigned(sell_request(m, token, s))],
        block: m.block_number.unwrap(),
    }
}

/// The total gas of the requests, `buy + approve (or 0) + sell`.
pub open spec fn total_gas(buy_tx: TxRequestModel, sell_tx: TxRequestModel, approve_tx: Option<TxRequestModel>) -> int {
    buy_tx.gas.unwrap() + (match approve_tx {
        Some(t) => match t.gas {
            Some(g) => g as int,
            None => 0,
        },
        None => 0,
    }) + sell_tx.gas.unwrap()
}

pub open spec fn opt_request(t: Option<TxRequest>) -> Option<TxRequestModel> {
    match t {
        Some(t) => Some(t@),
        None => None,
    }
}

impl Strategy {
    pub open spec fn wf(&self) -> bool {
        strategy_wf(self@)
    }

    /// A strategy for `sender` with no bots known, no block yet, and room for 1000
    /// transaction hashes.
    pub fn new(config: Config, sender: Address) -> (r: Strategy)
        ensures
            r.wf(),
            r@ == (StrategyModel {
                sender: sender@,
                gas_price: config.gas_price,
                block_number: None,
                bots: Seq::empty(),
                visited: Seq::empty(),
                capacity: visited_capacity(),
            }),
    {
        Strategy {
            sender,
            config,
            block_number: None,
            bots: Vec::new(),
            visited_tx: cache_new(1000),
        }
    }

    /// The number of the current block.
    pub fn block_number(&self) -> (r: Option<u64>)
        ensures
            r == self@.block_number,
    {
        self.block_number
    }

    /// The account whose transactions are our own.
    pub fn sender(&self) -> (r: Address)
        ensures
            r@ == self@.sender,
    {
        self.sender
    }

    /// Whether the transaction was seen before; a transaction not seen before is
    /// remembered from now on.
    pub fn tx_visited(&mut self, tx: &Transaction) -> (r: bool)
        requires
            old(self).wf(),
        ensures
            final(self).wf(),
            r == old(self)@.visited.contains(hash_key(tx.hash@)),
            final(self)@ == (if r {
                old(self)@
            } else {
                StrategyModel {
                    visited: pushed_keys(old(self)@.visited, old(self)@.capacity, hash_key(tx.hash@)),
                    ..old(self)@
                }
            }),
    {
        let key = tx.hash.to_key();
        if cache_contains(&self.visited_tx, &key) {
            return true;
        }
        proof {
            lemma_push_keeps_wf(cached_keys(self.visited_tx), cache_capacity(self.visited_tx), key);
        }
        cache_push(&mut self.visited_tx, key);
        false
    }

    /// Whether to leave the transaction alone.
    pub fn should_skip_tx(&mut self, tx: &Transaction) -> (r: bool)
        requires
            old(self).wf(),
        ensures
            final(self)@ == old(self)@,
            final(self).wf(),
            r == skips(old(self)@, *tx),
    {
        if tx.block_number.is_some() || tx.from.equals(&self.sender) {
            return true;
        }
        if contains_address(&self.bots, &tx.from) {
            return true;
        }
        false
    }

    /// The buy to sandwich in a pending transaction, if it is one and is not skipped.
    pub fn handle_tx(&mut self, tx: &Transaction) -> (r: Option<Buy>)
        requires
            old(self).wf(),
        ensures
            final(self)@ == old(self)@,
            final(self).wf(),
            match r {
                Some(b) => !skips(old(self)@, *tx) && spec_buy(*tx) == Some(b@),
                None => skips(old(self)@, *tx) || spec_buy(*tx) is None,
            },
    {
        if self.should_skip_tx(tx) {
            return None;
        }
        match Buy::try_from(tx) {
            Ok(buy) => Some(buy),
            Err(_) => None,
        }
    }

    /// Takes in a new block: the accounts that bought and sold the same token in it
    /// become known bots (our sender excepted), and it becomes the current block.
    pub fn on_new_block(&mut self, block: Block)
        requires
            old(self).wf(),
        ensures
            final(self).wf(),
            final(self)@ == (StrategyModel {
                bots: final(self)@.bots,
                block_number: block.number,
                ..old(self)@
            }),
            bots_after_block(old(self)@.bots, final(self)@.bots, old(self)@.sender, block),
    {
        let bots = find_sandwich_bot(&block);
        let ghost old_bots = self.bots@;
        self.block_number = block.number;
        let mut i: usize = 0;
        while i < bots.len()
            invariant
                i <= bots@.len(),
                self.sender == old(self).sender,
                self.config == old(self).config,
                self.block_number == block.number,
                self.visited_tx == old(self).visited_tx,
                old_bots == old(self).bots@,
                distinct_addresses(self.bots@),
                !holds_address(self.bots@, self.sender@),
                self.bots@.subrange(0, old_bots.len() as int) == old_bots,
                old_bots.len() <= self.bots@.len(),
                forall|k: int| old_bots.len() <= k < self.bots@.len() ==> {
                    &&& (#[trigger] self.bots@[k])@ != self.sender@
                    &&& !holds_address(old_bots, self.bots@[k]@)
                    &&& block_shows_bot(block, self.bots@[k]@)
                },
                forall|k: int| 0 <= k < i ==> (#[trigger] bots@[k])@ == self.sender@ || holds_address(self.bots@, bots@[k]@),
                block.transactions is None ==> bots@.len() == 0,
                block.transactions matches Some(txs) ==> forall|k: int| 0 <= k < bots@.len() ==> is_sandwich_bot(txs@, #[trigger] bots@[k]@),
            decreases bots@.len() - i,
        {
            let bot = bots[i];
            if bot.equals(&self.sender) {
                i = i + 1;
                continue;
            }
            if contains_address(&self.bots, &bot) {
                i = i + 1;
                continue;
            }
            let ghost before = self.bots@;
            self.bots.push(bot);
            proof {
                assert(self.bots@[before.len() as int] == bot);
                assert forall|k: int| 0 <= k < i + 1 implies (#[trigger] bots@[k])@ == self.sender@ || holds_address(self.bots@, bots@[k]@) by {
                    if k < i {
                        if bots@[k]@ != self.sender@ {
                            let j = choose|j: int| 0 <= j < before.len() && #[trigger] before[j]@ == bots@[k]@;
                            assert(self.bots@[j] == before[j]);
                        }
                    } else {
                        assert(self.bots@[before.len() as int]@ == bots@[k]@);
                    }
                }
                assert(self.bots@.subrange(0, old_bots.len() as int) =~= old_bots) by {
                    assert(self.bots@.subrange(0, before.len() as int) =~= before);
                }
                assert forall|k: int| old_bots.len() <= k < self.bots@.len() implies !holds_address(old_bots, (#[trigger] self.bots@[k])@) by {
                    if k < before.len() {
                        assert(self.bots@[k] == before[k]);
                    } else if holds_address(old_bots, self.bots@[k]@) {
                        let j = choose|j: int| 0 <= j < old_bots.len() && #[trigger] old_bots[j]@ == self.bots@[k]@;
                        assert(before[j] == old_bots[j]);
                    }
                }
                assert(!holds_address(self.bots@, self.sender@)) by {
                    if holds_address(self.bots@, self.sender@) {
                        let j = choose|j: int| 0 <= j < self.bots@.len() && #[trigger] self.bots@[j]@ == self.sender@;
                        if j < before.len() {
                            assert(before[j] == self.bots@[j]);
                        }
                    }
                }
                assert forall|a: int, b: int| 0 <= a < b < self.bots@.len() implies self.bots@[a]@ != self.bots@[b]@ by {
                    if b < before.len() {
                        assert(before[a] == self.bots@[a]);
                        assert(before[b] == self.bots@[b]);
                    } else {
                        assert(before[a] == self.bots@[a]);
                    }
                }
            }
            i = i + 1;
        }
        proof {
            assert forall|u: Seq<u8>| #![trigger holds_address(self.bots@, u)]
                block_shows_bot(block, u) && u != self.sender@
                    implies holds_address(self.bots@, u) by {
                let txs = block.transactions.unwrap();
                let (a, b) = choose|a: int, b: int| #[trigger] crate::meme::sandwich_pair(txs@, a, b) && txs@[a].from@ == u;
                assert(holds_address(bots@, txs@[a].from@));
                let k = choose|k: int| 0 <= k < bots@.len() && #[trigger] bots@[k]@ == txs@[a].from@;
                assert(bots@[k]@ == u);
            }
        }
    }

    /// Takes the latest block as the current one (no bots are looked for in it).
    pub fn sync_state(&mut self, block: Block)
        requires
            old(self).wf(),
        ensures
            final(self).wf(),
            final(self)@ == (StrategyModel { block_number: block.number, ..old(self)@ }),
    {
        self.block_number = block.number;
    }

    /// Handles an event: a new block is taken in; a pending transaction not seen
    /// before is handed back to be looked at (and remembered).
    pub fn process_event(&mut self, event: Event) -> (r: Option<Transaction>)
        requires
            old(self).wf(),
        ensures
            final(self).wf(),
            match event {
                Event::FullBlock(block) => {
                    &&& r is None
                    &&& final(self)@ == (StrategyModel {
                        bots: final(self)@.bots,
                        block_number: block.number,
                        ..old(self)@
                    })
                    &&& bots_after_block(old(self)@.bots, final(self)@.bots, old(self)@.sender, block)
                },
                Event::PendingTx(tx) => {
                    let key = hash_key(tx.hash@);
                    if old(self)@.visited.contains(key) {
                        r is None && final(self)@ == old(self)@
                    } else {
                        r == Some(tx) && final(self)@ == (StrategyModel {
                            visited: pushed_keys(old(self)@.visited, old(self)@.capacity, key),
                            ..old(self)@
                        })
                    }
                },
            },
    {
        match event {
            Event::FullBlock(block) => {
                self.on_new_block(block);
                None
            },
            Event::PendingTx(tx) => {
                if self.tx_visited(&tx) {
                    None
                } else {
                    Some(tx)
                }
            },
        }
    }

    /// The gas cost of the sandwich's requests: their total gas times the gas price.
    /// The buy and the sell carry a gas limit and the total fits in 128 bits (else the
    /// sum panics).
    pub fn calculate_cost(&mut self, buy_tx: &TxRequest, sell_tx: &TxRequest, approve_tx: &Option<TxRequest>) -> (r: U256)
        requires
            buy_tx.gas is Some,
            sell_tx.gas is Some,
            total_gas(buy_tx@, sell_tx@, opt_request(*approve_tx)) <= u128::MAX,
        ensures
            final(self)@ == old(self)@,
            r.value() == total_gas(buy_tx@, sell_tx@, opt_request(*approve_tx)) * old(self)@.gas_price,
    {
        let approve_gas: u128 = match approve_tx {
            Some(t) => match t.gas {
                Some(g) => g,
                None => 0,
            },
            None => 0,
        };
        let total_gas: u128 = buy_tx.gas.unwrap() + approve_gas + sell_tx.gas.unwrap();
        let a = U256::from_u128(total_gas);
        let b = U256::from_u128(self.config.gas_price);
        proof {
            let x = total_gas as nat;
            let y = self.config.gas_price as nat;
            assert(x * y < word_modulus()) by (nonlinear_arith)
                requires
                    x <= u128::MAX,
                    y <= u128::MAX,
                    word_modulus() == 0x1_0000_0000_0000_0000 * 0x1_0000_0000_0000_0000 * 0x1_0000_0000_0000_0000 * 0x1_0000_0000_0000_0000;
            vstd::arithmetic::div_mod::lemma_small_mod(x * y, word_modulus());
        }
        mul_wrapping(a, b)
    }

    /// The bundle: our buy, the victim's raw transaction, the approval if any, our
    /// sell, each request at our gas price, for the current block.
    pub fn build_bundle(&mut self, raw_tx: Vec<u8>, buy_tx: TxRequest, sell_tx: TxRequest, approve_tx: Option<TxRequest>) -> (r: Bundle)
        requires
            old(self)@.block_number is Some,
        ensures
            final(self)@ == old(self)@,
            r@ == (BundleModel {
                txs: seq![
                    BundleTxModel::Unsigned(TxRequestModel { gas_price: Some(old(self)@.gas_price), ..buy_tx@ }),
                    BundleTxModel::Signed(raw_tx@),
                ] + (match approve_tx {
                    Some(t) => seq![BundleTxModel::Unsigned(TxRequestModel { gas_price: Some(old(self)@.gas_price), ..t@ })],
                    None => Seq::empty(),
                }) + seq![BundleTxModel::Unsigned(TxRequestModel { gas_price: Some(old(self)@.gas_price), ..sell_tx@ })],
                block: old(self)@.block_number.unwrap(),
            }),
    {
        let gas_price = self.config.gas_price;
        let mut txs: Vec<SignedOrUnsignedTx> = Vec::new();
        txs.push(SignedOrUnsignedTx::Unsigned(buy_tx.with_gas_price(gas_price)));
        txs.push(SignedOrUnsignedTx::Signed(raw_tx));
        let mut bundle = Bundle { txs, block: self.block_number.unwrap() };
        if let Some(tx) = approve_tx {
            let tx = SignedOrUnsignedTx::Unsigned(tx.with_gas_price(gas_price));
            bundle.txs.push(tx);
        }
        bundle.txs.push(SignedOrUnsignedTx::Unsigned(sell_tx.with_gas_price(gas_price)));
        assert(bundle@.txs =~= (seq![
                    BundleTxModel::Unsigned(TxRequestModel { gas_price: Some(old(self)@.gas_price), ..buy_tx@ }),
                    BundleTxModel::Signed(raw_tx@),
                ] + (match approve_tx {
                    Some(t) => seq![BundleTxModel::Unsigned(TxRequestModel { gas_price: Some(old(self)@.gas_price), ..t@ })],
                    None => Seq::empty(),
                }) + seq![BundleTxModel::Unsigned(TxRequestModel { gas_price: Some(old(self)@.gas_price), ..sell_tx@ })]));
        bundle
    }
}

/// The search's solution where it makes a profit: `None` where the search finds
/// nothing or its best solution has zero profit.
pub fn profitable_solution(context: Context) -> (r: Option<Solution>)
    ensures
        opt_solution(r) == (match spec_go(context@) {
            Some(s) => if s.profit != 0 {
                Some(s)
            } else {
                None
            },
            None => None,
        }),
{
    match go(context) {
        Some(s) => {
            if !s.profit.is_zero() {
                Some(s)
            } else {
                None
            }
        },
        None => None,
    }
}

impl Strategy {
    /// Our buy request, see `buy_request`.
    fn buy_request(&self, token: &Address, solution: &Solution) -> (r: TxRequest)
        ensures
            r@ == buy_request(self@, token@, solution@),
    {
        TxRequest::new()
            .with_from(self.sender)
            .with_to(FOUR_MEME())
            .with_input(encode_purchase(token, solution.token_bought, U256::zero()))
            .with_value(solution.ether_spent)
            .with_gas_limit(150000)
            .with_gas_price(self.config.gas_price)
    }

    /// Our sell request, see `sell_request`.
    fn sell_request(&self, token: &Address, solution: &Solution) -> (r: TxRequest)
        ensures
            r@ == sell_request(self@, token@, solution@),
    {
        TxRequest::new()
            .with_from(self.sender)
            .with_to(FOUR_MEME())
            .with_input(encode_sale(token, solution.token_sold))
            .with_gas_limit(130000)
            .with_gas_price(self.config.gas_price)
    }

    /// The approval request, see `approve_request`.
    fn approve_request(&self, token: &Address) -> (r: TxRequest)
        ensures
            r@ == approve_request(self@, token@),
    {
        TxRequest::new()
            .with_from(self.sender)
            .with_to(*token)
            .with_input(encode_approve(&FOUR_MEME(), U256::max_value()))
            .with_gas_limit(50000)
            .with_gas_price(self.config.gas_price)
    }

    /// The action for a solution against the victim's `buy`, given our allowance of
    /// the token to FOUR.MEME: `None` where the profit does not cover the gas cost,
    /// else the bundle of `sandwich_bundle` (with an approval where the allowance is
    /// below the tokens to sell) for the current block.
    pub fn sandwich_action(&mut self, raw_tx: Vec<u8>, buy: &Buy, solution: &Solution, allowance: U256) -> (r: Option<Action>)
        requires
            old(self).wf(),
            old(self)@.block_number is Some,
        ensures
            final(self)@ == old(self)@,
            final(self).wf(),
            ({
                let approve = allowance.value() < solution.token_sold.value();
                match r {
                    None => solution.profit.value() < sandwich_cost(old(self)@.gas_price, approve),
                    Some(Action::SendBundle(b)) => {
                        &&& solution.profit.value() >= sandwich_cost(old(self)@.gas_price, approve)
                        &&& b@ == sandwich_bundle(old(self)@, raw_tx@, buy.token@, solution@, approve)
                    },
                }
            }),
    {
        let buy_tx = self.buy_request(&buy.token, solution);
        let sell_tx = self.sell_request(&buy.token, solution);
        let approve_tx = if lt(allowance, solution.token_sold) {
            Some(self.approve_request(&buy.token))
        } else {
            None
        };
        let cost = self.calculate_cost(&buy_tx, &sell_tx, &approve_tx);
        if lt(solution.profit, cost) {
            return None;
        }
        let ghost approve = allowance.value() < solution.token_sold.value();
        let ghost raw = raw_tx@;
        let ghost m = self@;
        let bundle = self.build_bundle(raw_tx, buy_tx, sell_tx, approve_tx);
        proof {
            let target = sandwich_bundle(m, raw, buy.token@, solution@, approve);
            assert(bundle@.block == target.block);
            assert(bundle@.txs[0] == target.txs[0]);
            assert(bundle@.txs[1] == target.txs[1]);
            assert(bundle@.txs.len() == target.txs.len());
            assert(bundle@.txs =~= target.txs);
        }
        Some(Action::SendBundle(bundle))
    }
}

/// The transaction `tx` is what the bundle entry `entry` asks to send: a request we
/// sign, to the same address and with the same calldata.
pub open spec fn sent_as(entry: BundleTxModel, tx: Transaction) -> bool {
    entry matches BundleTxModel::Unsigned(t) && t.to == opt_bytes(tx.to) && t.input == Some(tx.input@)
}

/// The requests of a sandwich bundle are what they are for: its first transaction is
/// read as a FOUR.MEME buy of `token` with `token_bought` and no minimum, and its last
/// is read as a FOUR.MEME sell of `token_sold` of `token`, so both go to FOUR.MEME.
pub proof fn lemma_bundle_requests_read_back(
    m: StrategyModel,
    raw_tx: Seq<u8>,
    token: Address,
    s: SolutionModel,
    approve: bool,
    buy_tx: Transaction,
    sell_tx: Transaction,
)
    requires
        m.block_number is Some,
        s.token_bought < word_modulus(),
        s.token_sold < word_modulus(),
        sent_as(sandwich_bundle(m, raw_tx, token@, s, approve).txs[0], buy_tx),
        sent_as(sandwich_bundle(m, raw_tx, token@, s, approve).txs.last(), sell_tx),
    ensures
        calls_four_meme(buy_tx),
        calls_four_meme(sell_tx),
        spec_buy(buy_tx) == Some(
            BuyModel { token: token@, tx_value: buy_tx.value.value(), amount: s.token_bought, min_received: 0 },
        ),
        spec_sell(sell_tx) == Some(SellModel { token: token@, amount: s.token_sold }),
{
    lemma_be_value_of_bytes(s.token_bought, 32);
    lemma_be_value_of_bytes(s.token_sold, 32);
    lemma_be_value_of_bytes(0, 32);
    lemma_word_bytes();
    vstd::arithmetic::div_mod::lemma_small_mod(s.token_bought, word_modulus());
    vstd::arithmetic::div_mod::lemma_small_mod(s.token_sold, word_modulus());
    vstd::arithmetic::div_mod::lemma_small_mod(0, word_modulus());
    lemma_be_bytes_len(s.token_bought, 32);
    lemma_be_bytes_len(s.token_sold, 32);
    lemma_be_bytes_len(0, 32);
    let b = sandwich_bundle(m, raw_tx, token@, s, approve);
    assert(b.txs[0] == BundleTxModel::Unsigned(buy_request(m, token@, s)));
    assert(b.txs.last() == BundleTxModel::Unsigned(sell_request(m, token@, s)));
    let bi = buy_tx.input@;
    assert(bi.subrange(0, 4) =~= purchase_selector());
    assert(bi.subrange(16, 36) =~= token@);
    assert(bi.subrange(36, 68) =~= be_bytes(s.token_bought, 32));
    assert(bi.subrange(68, 100) =~= be_bytes(0, 32));
    let si = sell_tx.input@;
    assert(si.subrange(0, 4) =~= sale_selector());
    assert(si.subrange(16, 36) =~= token@);
    assert(si.subrange(36, 68) =~= be_bytes(s.token_sold, 32));
}

/// The shape of a sandwich bundle: our buy first, carrying `ether_spent` wei; the
/// victim's raw transaction second, untouched; where an approval is due, a request to
/// the token contract letting FOUR.MEME spend 2^256 - 1 of it; our sell last. Every
/// request is sent from our sender at our gas price, and the bundle is for the
/// current block.
pub proof fn lemma_bundle_shape(m: StrategyModel, raw_tx: Seq<u8>, token: Seq<u8>, s: SolutionModel, approve: bool)
    requires
        m.block_number is Some,
    ensures
        ({
            let b = sandwich_bundle(m, raw_tx, token, s, approve);
            &&& b.txs.len() == if approve { 4int } else { 3int }
            &&& b.block == m.block_number.unwrap()
            &&& b.txs[1] == BundleTxModel::Signed(raw_tx)
            &&& b.txs[0] matches BundleTxModel::Unsigned(t) && t.value == Some(s.ether_spent)
            &&& forall|i: int| 0 <= i < b.txs.len() && i != 1 ==> (#[trigger] b.txs[i] matches BundleTxModel::Unsigned(t)
                && t.from == Some(m.sender) && t.gas_price == Some(m.gas_price))
            &&& approve ==> (b.txs[2] matches BundleTxModel::Unsigned(t) && t.to == Some(token)
                && t.input == Some(approve_calldata(four_meme_bytes(), (word_modulus() - 1) as nat)))
        }),
{
    let b = sandwich_bundle(m, raw_tx, token, s, approve);
    assert forall|i: int| 0 <= i < b.txs.len() && i != 1 implies (#[trigger] b.txs[i] matches BundleTxModel::Unsigned(t)
        && t.from == Some(m.sender) && t.gas_price == Some(m.gas_price)) by {
        if approve {
            assert(i == 0 || i == 2 || i == 3);
        } else {
            assert(i == 0 || i == 2);
        }
    }
}

/// The gas a sandwich pays for: 150000 for the buy, 130000 for the sell and 50000 for
/// an approval, all at our gas price.
pub proof fn lemma_sandwich_cost(gas_price: u128, approve: bool)
    ensures
        sandwich_cost(gas_price, approve) == if approve {
            330000 * gas_price
        } else {
            280000 * gas_price
        },
{
}

/// A transaction seen once is seen again: after `tx_visited` remembers a hash, the
/// cache holds it (whatever it had to evict to make room).
pub proof fn lemma_visited_is_remembered(keys: Seq<TxKey>, capacity: nat, k: TxKey)
    ensures
        pushed_keys(keys, capacity, k).contains(k),
{
    assert(pushed_keys(keys, capacity, k)[0] == k);
}

/// Our own transactions are never sandwiched.
pub proof fn lemma_own_tx_skipped(m: StrategyModel, tx: Transaction)
    requires
        tx.from@ == m.sender,
    ensures
        skips(m, tx),
{
}

/// Transactions of a known bot are never sandwiched.
pub proof fn lemma_bot_tx_skipped(m: StrategyModel, tx: Transaction)
    requires
        holds_address(m.bots, tx.from@),
    ensures
        skips(m, tx),
{
}

} // verus!
