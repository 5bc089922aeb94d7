//! The search for the buy that makes a sandwich around a victim's buy most
//! profitable: a ternary search over the amount of ether to spend.
use vstd::prelude::*;
use crate::meme::{
    Buy, BuyModel, TokenInfo, TokenModel, calc_actual_buy, calc_buy, calc_fee, calc_max_buy,
    calc_sell, ether_value, post_buy_update_status, spec_calc_actual_buy, spec_calc_buy,
    spec_calc_fee, spec_calc_max_buy, spec_calc_sell, spec_post_buy, ETHER,
    lemma_actual_buy_whole_gwei,
};
use crate::uint::{
    U256, add_wrapping, div_floor, le, lt, sub_checked, sub_wrapping, word_modulus,
    wrap_sub,
};

verus! {

/// A sandwich: the profit, the ether spent on our buy (fee included), the ether
/// amount bought with, and the tokens sold afterwards.
#[derive(Clone, Copy, Debug)]
pub struct Solution {
    pub profit: U256,
    pub ether_spent: U256,
    pub token_bought: U256,
    pub token_sold: U256,
}

pub ghost struct SolutionModel {
    pub profit: nat,
    pub ether_spent: nat,
    pub token_bought: nat,
    pub token_sold: nat,
}

impl View for Solution {
    type V = SolutionModel;

    open spec fn view(&self) -> SolutionModel {
        SolutionModel {
            profit: self.profit.value(),
            ether_spent: self.ether_spent.value(),
            token_bought: self.token_bought.value(),
            token_sold: self.token_sold.value(),
        }
    }
}

/// The solution with every amount zero.
pub open spec fn zero_solution() -> SolutionModel {
    SolutionModel { profit: 0, ether_spent: 0, token_bought: 0, token_sold: 0 }
}

impl Default for Solution {
    fn default() -> (r: Solution)
        ensures
            r@ == zero_solution(),
    {
        Solution {
            profit: U256::zero(),
            ether_spent: U256::zero(),
            token_bought: U256::zero(),
            token_sold: U256::zero(),
        }
    }
}

/// An optional solution, read through its model.
pub open spec fn opt_solution(o: Option<Solution>) -> Option<SolutionModel> {
    match o {
        Some(s) => Some(s@),
        None => None,
    }
}

/// What the search starts from: the curve, the fee rule, the victim's buy and the
/// tokens we already hold.
#[derive(Clone, Copy, Debug)]
pub struct Context {
    pub token_info: TokenInfo,
    pub fee_rate: U256,
    pub min_fee: U256,
    pub buy: Buy,
    pub token_balance: U256,
}

pub ghost struct ContextModel {
    pub token: TokenModel,
    pub fee_rate: nat,
    pub min_fee: nat,
    pub buy: BuyModel,
    pub token_balance: nat,
}

impl View for Context {
    type V = ContextModel;

    open spec fn view(&self) -> ContextModel {
        ContextModel {
            token: self.token_info@,
            fee_rate: self.fee_rate.value(),
            min_fee: self.min_fee.value(),
            buy: self.buy@,
            token_balance: self.token_balance.value(),
        }
    }
}

/// The fee the context's fee rule charges on `ether`.
pub open spec fn context_fee(c: ContextModel, ether: nat) -> nat {
    spec_calc_fee(ether, c.fee_rate, c.min_fee)
}

/// 10^9, the tokens kept back when selling.
pub open spec fn kept_back() -> nat {
    1_000_000_000
}

/// Our sell after the victim's buy: we sell what we bought plus what we held, less
/// 10^9 tokens (modulo 2^256); the sandwich stands where the ether received after
/// the fee exceeds what our buy cost with its fee.
pub open spec fn trial_sell(c: ContextModel, tok: TokenModel, to_buy: nat, my_received: nat, my_cost: nat) -> Option<SolutionModel> {
    let amount_sold = wrap_sub((my_received + c.token_balance) % word_modulus(), kept_back());
    match spec_calc_sell(amount_sold, tok) {
        None => None,
        Some(ether_sold) => {
            let sold_fee = context_fee(c, ether_sold);
            if ether_sold < sold_fee {
                None
            } else {
                let ether_received = (ether_sold - sold_fee) as nat;
                let ether_spent = (my_cost + context_fee(c, my_cost)) % word_modulus();
                if ether_received <= ether_spent {
                    None
                } else {
                    Some(
                        SolutionModel {
                            profit: (ether_received - ether_spent) as nat,
                            ether_spent,
                            token_bought: to_buy,
                            token_sold: amount_sold,
                        },
                    )
                }
            }
        },
    }
}

/// The victim's buy on the curve `tok` that our buy left: it must receive more than
/// its minimum, leave at least one ether's worth of tokens (10^18) on offer, and its
/// cost with fee must be within the ether it sent. Then our sell follows.
pub open spec fn trial_victim(c: ContextModel, tok: TokenModel, to_buy: nat, my_received: nat, my_cost: nat) -> (Option<SolutionModel>, TokenModel) {
    match spec_calc_actual_buy(c.buy.amount, tok) {
        None => (None, tok),
        Some(victim) => {
            if !(victim > c.buy.min_received && (victim + ether_value()) % word_modulus()
                <= tok.offer) {
                (None, tok)
            } else {
                match spec_calc_buy(victim, tok) {
                    None => (None, tok),
                    Some(victim_cost) => {
                        if (victim_cost + context_fee(c, victim_cost)) % word_modulus()
                            > c.buy.tx_value {
                            (None, tok)
                        } else {
                            let (ok, tok2) = spec_post_buy(tok, victim, victim_cost);
                            if !ok {
                                (None, tok2)
                            } else {
                                (trial_sell(c, tok2, to_buy, my_received, my_cost), tok2)
                            }
                        }
                    },
                }
            }
        },
    }
}

/// One trial of the search on the context's curve: we buy with `to_buy` ether, the
/// victim buys, we sell. Gives the sandwich where it stands, and the curve after the
/// buys that went through.
#[verifier::opaque]
pub open spec fn spec_trial(c: ContextModel, to_buy: nat) -> (Option<SolutionModel>, TokenModel) {
    let tok = c.token;
    match spec_calc_actual_buy(to_buy, tok) {
        None => (None, tok),
        Some(my_received) => match spec_calc_buy(my_received, tok) {
            None => (None, tok),
            Some(my_cost) => {
                let (ok, tok1) = spec_post_buy(tok, my_received, my_cost);
                if !ok {
                    (None, tok1)
                } else {
                    trial_victim(c, tok1, to_buy, my_received, my_cost)
                }
            },
        },
    }
}

/// The state of the ternary search between rounds.
pub ghost struct SearchState {
    pub token: TokenModel,
    pub lower: nat,
    pub upper: nat,
    pub best: SolutionModel,
}

pub open spec fn solution_or_zero(o: Option<SolutionModel>) -> SolutionModel {
    match o {
        Some(s) => s,
        None => zero_solution(),
    }
}

/// One round: trials at a third and at two thirds of `[lower, upper]` (all sums
/// modulo 2^256), on the curve as the trials before left it; the bracket keeps the
/// side of the better trial and the best solution so far is kept.
pub open spec fn search_round(c: ContextModel, s: SearchState) -> SearchState {
    let m = wrap_sub(s.upper, s.lower) / 3;
    let x1 = (s.lower + m) % word_modulus();
    let x2 = (x1 + m) % word_modulus();
    let (r1, tok1) = spec_trial(ContextModel { token: s.token, ..c }, x1);
    let s1 = solution_or_zero(r1);
    let (r2, tok2) = spec_trial(ContextModel { token: tok1, ..c }, x2);
    let s2 = solution_or_zero(r2);
    let lower = if s1.profit >= s2.profit { s.lower } else { x1 };
    let upper = if s1.profit >= s2.profit { x2 } else { s.upper };
    let best1 = if s1.profit > s.best.profit { s1 } else { s.best };
    let best2 = if s2.profit > best1.profit { s2 } else { best1 };
    SearchState { token: tok2, lower, upper, best: best2 }
}

/// The search state after `n` rounds from `start`.
pub open spec fn search_rounds(c: ContextModel, start: SearchState, n: nat) -> SearchState
    decreases n,
{
    if n == 0 {
        start
    } else {
        search_round(c, search_rounds(c, start, (n - 1) as nat))
    }
}

/// The number of rounds the search makes.
pub open spec fn round_count() -> nat {
    100
}

/// The search: `None` where the curve has no maximal buy, else the best solution of
/// 100 rounds started on the bracket `[10^9, max buy]`.
pub open spec fn spec_go(c: ContextModel) -> Option<SolutionModel> {
    match spec_calc_max_buy(c.token) {
        None => None,
        Some(upper) => Some(
            search_rounds(
                c,
                SearchState { token: c.token, lower: 1_000_000_000, upper, best: zero_solution() },
                round_count(),
            ).best,
        ),
    }
}

/// The sell half of a trial, on the curve both buys left.
fn trial_sell_exec(context: &Context, to_buy: U256, my_token_received: U256, my_buy_cost: U256) -> (r: Option<Solution>)
    ensures
        opt_solution(r) == trial_sell(
            context@,
            context.token_info@,
            to_buy.value(),
            my_token_received.value(),
            my_buy_cost.value(),
        ),
{
    let amount_sold = sub_wrapping(
        add_wrapping(my_token_received, context.token_balance),
        U256::from_u64(1_000_000_000),
    );
    let ether_sold = calc_sell(amount_sold, &context.token_info)?;
    let sold_fee = calc_fee(ether_sold, context.fee_rate, context.min_fee);
    let ether_received = sub_checked(ether_sold, sold_fee)?;
    let my_buy_fee = calc_fee(my_buy_cost, context.fee_rate, context.min_fee);
    let ether_spent = add_wrapping(my_buy_cost, my_buy_fee);
    if le(ether_received, ether_spent) {
        return None;
    }
    let profit = sub_wrapping(ether_received, ether_spent);
    proof {
        vstd::arithmetic::div_mod::lemma_small_mod(
            (ether_received.value() - ether_spent.value()) as nat,
            word_modulus(),
        );
    }
    Some(
        Solution {
            profit,
            ether_spent: add_wrapping(my_buy_cost, my_buy_fee),
            token_sold: amount_sold,
            token_bought: to_buy,
        },
    )
}

/// The victim's buy and our sell, on the curve our buy left.
fn trial_victim_exec(context: &mut Context, to_buy: U256, my_token_received: U256, my_buy_cost: U256) -> (r: Option<Solution>)
    ensures
        (opt_solution(r), final(context)@.token) == trial_victim(
            old(context)@,
            old(context).token_info@,
            to_buy.value(),
            my_token_received.value(),
            my_buy_cost.value(),
        ),
        final(context)@ == (ContextModel { token: final(context)@.token, ..old(context)@ }),
{
    let victim_actual_buy = calc_actual_buy(context.buy.amount, &context.token_info)?;
    let enough_value_to_buy = lt(context.buy.min_received, victim_actual_buy);
    let dont_over_buy = le(add_wrapping(victim_actual_buy, ETHER()), context.token_info.offer);
    if !(enough_value_to_buy && dont_over_buy) {
        return None;
    }
    let victim_buy_cost = calc_buy(victim_actual_buy, &context.token_info)?;
    let victim_buy_fee = calc_fee(victim_buy_cost, context.fee_rate, context.min_fee);
    if lt(context.buy.tx_value, add_wrapping(victim_buy_cost, victim_buy_fee)) {
        return None;
    }
    post_buy_update_status(&mut context.token_info, &victim_actual_buy, &victim_buy_cost)?;
    trial_sell_exec(context, to_buy, my_token_received, my_buy_cost)
}

/// One trial: we buy with `to_buy` ether, the victim buys, we sell. The buys that
/// go through are applied to `context.token_info`.
fn trial_ultimate(context: &mut Context, to_buy: U256) -> (r: Option<Solution>)
    ensures
        (opt_solution(r), final(context)@.token) == spec_trial(old(context)@, to_buy.value()),
        final(context)@ == (ContextModel { token: final(context)@.token, ..old(context)@ }),
{
    reveal(spec_trial);
    let my_token_received = calc_actual_buy(to_buy, &context.token_info)?;
    let my_buy_cost = calc_buy(my_token_received, &context.token_info)?;
    post_buy_update_status(&mut context.token_info, &my_token_received, &my_buy_cost)?;
    trial_victim_exec(context, to_buy, my_token_received, my_buy_cost)
}

/// A trial's solution, or the zero solution where it has none.
fn trial_or_zero(context: &mut Context, to_buy: U256) -> (r: Solution)
    ensures
        (r@, final(context)@.token) == ({
            let (o, tok) = spec_trial(old(context)@, to_buy.value());
            (solution_or_zero(o), tok)
        }),
        final(context)@ == (ContextModel { token: final(context)@.token, ..old(context)@ }),
{
    match trial_ultimate(context, to_buy) {
        Some(s) => s,
        None => Solution::default(),
    }
}

/// One round of the search, see `search_round`.
fn search_round_exec(context: &mut Context, lower_bound: &mut U256, upper_bound: &mut U256, solution: &mut Solution)
    ensures
        final(context)@ == (ContextModel { token: final(context)@.token, ..old(context)@ }),
        search_round(
            old(context)@,
            SearchState {
                token: old(context)@.token,
                lower: old(lower_bound).value(),
                upper: old(upper_bound).value(),
                best: old(solution)@,
            },
        ) == (SearchState {
            token: final(context)@.token,
            lower: final(lower_bound).value(),
            upper: final(upper_bound).value(),
            best: final(solution)@,
        }),
{
    let m = div_floor(sub_wrapping(*upper_bound, *lower_bound), U256::from_u64(3));
    let x1 = add_wrapping(*lower_bound, m);
    let x2 = add_wrapping(x1, m);
    let s1 = trial_or_zero(context, x1);
    let s2 = trial_or_zero(context, x2);
    if le(s2.profit, s1.profit) {
        *upper_bound = x2;
    } else {
        *lower_bound = x1;
    }
    if lt(solution.profit, s1.profit) {
        *solution = s1;
    }
    if lt(solution.profit, s2.profit) {
        *solution = s2;
    }
}

/// Searches the buy that makes the sandwich around the context's victim most
/// profitable; `None` where the curve has no maximal buy.
pub fn go(context: Context) -> (r: Option<Solution>)
    ensures
        opt_solution(r) == spec_go(context@),
{
    let mut context = context;
    let ghost c0 = context@;
    let mut upper_bound = calc_max_buy(&context.token_info)?;
    let mut lower_bound = U256::from_u64(1_000_000_000);
    let mut solution = Solution::default();
    let ghost start = SearchState {
        token: c0.token,
        lower: 1_000_000_000,
        upper: upper_bound.value(),
        best: zero_solution(),
    };
    let mut round: u64 = 0;
    while round < 100
        invariant
            round <= 100,
            context@ == (ContextModel { token: context@.token, ..c0 }),
            search_rounds(c0, start, round as nat) == (SearchState {
                token: context@.token,
                lower: lower_bound.value(),
                upper: upper_bound.value(),
                best: solution@,
            }),
        decreases 100 - round,
    {
        let ghost before = search_rounds(c0, start, round as nat);
        search_round_exec(&mut context, &mut lower_bound, &mut upper_bound, &mut solution);
        round = round + 1;
        assert(search_rounds(c0, start, round as nat) == search_round(c0, before));
    }
    Some(solution)
}

/// The best solution of the search never gets worse from one round to a later one.
pub proof fn lemma_best_profit_never_drops(c: ContextModel, start: SearchState, n1: nat, n2: nat)
    requires
        n1 <= n2,
    ensures
        search_rounds(c, start, n1).best.profit <= search_rounds(c, start, n2).best.profit,
    decreases n2,
{
    if n1 < n2 {
        lemma_best_profit_never_drops(c, start, n1, (n2 - 1) as nat);
    }
}

/// The search finds a solution exactly where the curve has a largest buy.
pub proof fn lemma_go_some_iff_max_buy(c: ContextModel)
    ensures
        spec_go(c) is Some <==> spec_calc_max_buy(c.token) is Some,
{
}

/// What a trial that finds a sandwich has checked, in terms of the curve formulas:
/// our buy with `to_buy` ether receives tokens and goes through on the curve; on the
/// curve it left, the victim's buy receives more than the victim's minimum, leaves at
/// least 10^18 tokens on offer, costs (with fee) no more than the victim sent, and goes
/// through; we then sell the tokens we bought plus the tokens we held, less 10^9
/// (modulo 2^256), on the curve both buys left. The solution records `to_buy`, that
/// sell amount, our buy's cost with fee, and a profit above zero that is what the sell
/// brings after its fee, less that cost. The curve handed back is the one both buys left.
pub proof fn lemma_trial_solution(c: ContextModel, to_buy: nat)
    requires
        spec_trial(c, to_buy).0 is Some,
    ensures
        ({
            let s = spec_trial(c, to_buy).0.unwrap();
            let ours = spec_calc_actual_buy(to_buy, c.token);
            let our_cost = spec_calc_buy(ours.unwrap(), c.token);
            let after_ours = spec_post_buy(c.token, ours.unwrap(), our_cost.unwrap());
            let victim = spec_calc_actual_buy(c.buy.amount, after_ours.1);
            let victim_cost = spec_calc_buy(victim.unwrap(), after_ours.1);
            let after_victim = spec_post_buy(after_ours.1, victim.unwrap(), victim_cost.unwrap());
            let sold = spec_calc_sell(s.token_sold, after_victim.1);
            &&& ours is Some
            &&& our_cost is Some
            &&& after_ours.0
            &&& victim is Some
            &&& victim.unwrap() > c.buy.min_received
            &&& (victim.unwrap() + 1_000_000_000_000_000_000) % word_modulus() <= after_ours.1.offer
            &&& victim_cost is Some
            &&& (victim_cost.unwrap() + spec_calc_fee(victim_cost.unwrap(), c.fee_rate, c.min_fee))
                % word_modulus() <= c.buy.tx_value
            &&& after_victim.0
            &&& s.token_bought == to_buy
            &&& s.token_sold == ((ours.unwrap() + c.token_balance) % word_modulus()
                + word_modulus() - 1_000_000_000) % (word_modulus() as int)
            &&& s.ether_spent == (our_cost.unwrap() + spec_calc_fee(our_cost.unwrap(), c.fee_rate, c.min_fee))
                % word_modulus()
            &&& sold is Some
            &&& s.profit > 0
            &&& s.profit + s.ether_spent + spec_calc_fee(sold.unwrap(), c.fee_rate, c.min_fee)
                == sold.unwrap()
            &&& spec_trial(c, to_buy).1 == after_victim.1
        }),
{
    reveal(spec_trial);
    let ours = spec_calc_actual_buy(to_buy, c.token).unwrap();
    let x = (ours + c.token_balance) % word_modulus();
    assert(((x - 1_000_000_000) % (word_modulus() as int)) == (x + word_modulus() - 1_000_000_000)
        % (word_modulus() as int)) by {
        vstd::arithmetic::div_mod::lemma_mod_add_multiples_vanish(
            x - 1_000_000_000,
            word_modulus() as int,
        );
    }
}

/// A trial only ever takes tokens from the curve: `t` never grows and `k` stays.
pub proof fn lemma_trial_curve(c: ContextModel, to_buy: nat)
    ensures
        spec_trial(c, to_buy).1.t <= c.token.t,
        spec_trial(c, to_buy).1.k == c.token.k,
{
    reveal(spec_trial);
}

/// The tokens a victim's buy receives on a curve our trial left are at most the
/// curve's `t` before the trial; so where the victim asks for at least that many, no
/// trial finds a sandwich.
pub proof fn lemma_trial_needs_victim_minimum(c: ContextModel, to_buy: nat)
    requires
        c.buy.min_received >= c.token.t,
    ensures
        spec_trial(c, to_buy).0 is None,
{
    if spec_trial(c, to_buy).0 is Some {
        lemma_trial_solution(c, to_buy);
        let ours = spec_calc_actual_buy(to_buy, c.token).unwrap();
        let our_cost = spec_calc_buy(ours, c.token).unwrap();
        let after_ours = spec_post_buy(c.token, ours, our_cost).1;
        lemma_actual_buy_whole_gwei(c.buy.amount, after_ours);
    }
}

/// Through the rounds of the search the curve only loses tokens, and the best
/// solution is the zero solution or the solution of a trial, buying with its
/// `token_bought`, on a curve with no more tokens than the starting one.
pub proof fn lemma_search_rounds_from_trials(c: ContextModel, start: SearchState, n: nat)
    requires
        start.token.t <= c.token.t,
        start.best == zero_solution(),
    ensures
        search_rounds(c, start, n).token.t <= c.token.t,
        search_rounds(c, start, n).best == zero_solution() || exists|tok: TokenModel|
            tok.t <= c.token.t && #[trigger] spec_trial(ContextModel { token: tok, ..c }, search_rounds(c, start, n).best.token_bought).0
                == Some(search_rounds(c, start, n).best),
    decreases n,
{
    if n > 0 {
        lemma_search_rounds_from_trials(c, start, (n - 1) as nat);
        let s = search_rounds(c, start, (n - 1) as nat);
        let m = wrap_sub(s.upper, s.lower) / 3;
        let x1 = (s.lower + m) % word_modulus();
        let x2 = (x1 + m) % word_modulus();
        let c1 = ContextModel { token: s.token, ..c };
        let (r1, tok1) = spec_trial(c1, x1);
        let c2 = ContextModel { token: tok1, ..c };
        let (r2, tok2) = spec_trial(c2, x2);
        lemma_trial_curve(c1, x1);
        lemma_trial_curve(c2, x2);
        if r1 is Some {
            lemma_trial_solution(c1, x1);
        }
        if r2 is Some {
            lemma_trial_solution(c2, x2);
        }
        let next = search_rounds(c, start, n);
        assert(next == search_round(c, s));
        if next.best != zero_solution() {
            let s1 = solution_or_zero(r1);
            let s2 = solution_or_zero(r2);
            let best1 = if s1.profit > s.best.profit { s1 } else { s.best };
            if s2.profit > best1.profit {
                assert(r2 is Some);
                assert(spec_trial(ContextModel { token: tok1, ..c }, next.best.token_bought).0 == Some(next.best));
            } else if s1.profit > s.best.profit {
                assert(r1 is Some);
                assert(spec_trial(ContextModel { token: s.token, ..c }, next.best.token_bought).0 == Some(next.best));
            } else {
                let tok = choose|tok: TokenModel|
                    tok.t <= c.token.t && #[trigger] spec_trial(ContextModel { token: tok, ..c }, s.best.token_bought).0
                        == Some(s.best);
                assert(spec_trial(ContextModel { token: tok, ..c }, next.best.token_bought).0 == Some(next.best));
            }
        }
    }
}

/// The search's solution is the zero solution, or the solution of a trial on a curve
/// with no more tokens than the context's, buying with the solution's `token_bought`.
pub proof fn lemma_go_solution_is_a_trial(c: ContextModel)
    requires
        spec_go(c) is Some,
    ensures
        spec_go(c).unwrap() == zero_solution() || exists|tok: TokenModel|
            tok.t <= c.token.t && #[trigger] spec_trial(ContextModel { token: tok, ..c }, spec_go(c).unwrap().token_bought).0
                == Some(spec_go(c).unwrap()),
{
    let start = SearchState {
        token: c.token,
        lower: 1_000_000_000,
        upper: spec_calc_max_buy(c.token).unwrap(),
        best: zero_solution(),
    };
    lemma_search_rounds_from_trials(c, start, round_count());
}

/// Where the victim asks for at least as many tokens as the curve holds, its buy would
/// fail whatever we do: the search finds no sandwich and hands back the zero solution.
pub proof fn lemma_go_no_sandwich_without_victim_buy(c: ContextModel)
    requires
        c.buy.min_received >= c.token.t,
        spec_go(c) is Some,
    ensures
        spec_go(c).unwrap() == zero_solution(),
{
    lemma_go_solution_is_a_trial(c);
    if spec_go(c).unwrap() != zero_solution() {
        let tok = choose|tok: TokenModel|
            tok.t <= c.token.t && #[trigger] spec_trial(ContextModel { token: tok, ..c }, spec_go(c).unwrap().token_bought).0
                == Some(spec_go(c).unwrap());
        lemma_trial_needs_victim_minimum(ContextModel { token: tok, ..c }, spec_go(c).unwrap().token_bought);
    }
}

} // verus!
