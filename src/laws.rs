use vstd::prelude::*;
use crate::allocator::{clamp_block, fold_seed, random_share, BLOCKS, MAX_BLOCK};
use crate::contract::{balance_of, deposit_into, refund_into};
use crate::envelope::{
    claim_step, claimed_by, envelope_ok, lemma_claim_keeps_invariant, paid, EnvelopeView,
};
use crate::error::LinkDropError;

verus! {

/// Successive claims on an envelope, the `i`-th by `accounts[i]` with entropy
/// `seeds[i]`: the envelope after all of them, or the first refusal.
pub open spec fn claim_run(e: EnvelopeView, accounts: Seq<Seq<char>>, seeds: Seq<Seq<u8>>) -> Result<
    EnvelopeView,
    LinkDropError,
>
    decreases accounts.len(),
{
    if accounts.len() == 0 {
        Ok(e)
    } else {
        match claim_step(e, accounts[0], seeds[0]) {
            Ok((e1, _)) => claim_run(e1, accounts.drop_first(), seeds.drop_first()),
            Err(x) => Err(x),
        }
    }
}

/// A first deposit of `deposit` under a fresh key leaves exactly
/// `deposit - fee` held there.
pub proof fn lemma_first_deposit(m: Map<Seq<char>, u128>, k: Seq<char>, deposit: u128, fee: u128)
    requires
        !m.contains_key(k),
        deposit > fee,
    ensures
        deposit_into(m, k, deposit, fee)[k] == deposit - fee,
{
}

/// Two deposits `d1` and `d2` under a fresh key add up: `d1 + d2 - 2 * fee`
/// is held there afterwards.
pub proof fn lemma_deposits_accumulate(
    m: Map<Seq<char>, u128>,
    k: Seq<char>,
    d1: u128,
    d2: u128,
    fee: u128,
)
    requires
        !m.contains_key(k),
        d1 > fee,
        d2 > fee,
        d1 + d2 - 2 * fee <= u128::MAX,
    ensures
        deposit_into(deposit_into(m, k, d1, fee), k, d2, fee)[k] == d1 + d2 - 2 * fee,
{
    assert(balance_of(deposit_into(m, k, d1, fee), k) == d1 - fee);
}

/// Putting back the whole deposit taken out under `k` restores the escrow
/// exactly as it was before it was taken.
pub proof fn lemma_refund_restores(m: Map<Seq<char>, u128>, k: Seq<char>)
    requires
        m.contains_key(k),
    ensures
        refund_into(m.remove(k), k, m[k]) == m,
{
    assert(refund_into(m.remove(k), k, m[k]) =~= m);
}

/// A random draw from a pool holding `r` lies in `[r / 255, 253 * (r / 255)]`,
/// and depends on `r` and the entropy alone.
pub proof fn lemma_random_share_bounds(r: u128, seed: Seq<u8>, seed2: Seq<u8>)
    ensures
        r / BLOCKS <= random_share(r, seed) <= MAX_BLOCK * (r / BLOCKS),
        random_share(r, seed) <= r,
        seed == seed2 ==> random_share(r, seed) == random_share(r, seed2),
{
    let b = r / 255;
    let c = clamp_block(fold_seed(seed));
    assert(b * 1 <= b * c <= b * 253) by (nonlinear_arith)
        requires
            1 <= c <= 253,
            b >= 0,
    ;
    assert(b * 255 <= r) by (nonlinear_arith)
        requires
            b == r / 255,
    ;
}

/// Successful claims keep the envelope's books: its invariant holds, the
/// payouts never exceed the deposit, and what is left never grows.
pub proof fn lemma_claims_keep_books(e: EnvelopeView, accounts: Seq<Seq<char>>, seeds: Seq<Seq<u8>>)
    requires
        envelope_ok(e),
    ensures
        claim_run(e, accounts, seeds) matches Ok(e2) ==> {
            &&& envelope_ok(e2)
            &&& paid(e2.claims) <= e2.balance
            &&& e2.balance == e.balance
            &&& e2.remaining <= e.remaining
            &&& e2.count == e.count
            &&& e2.claims.len() == e.claims.len() + accounts.len()
        },
    decreases accounts.len(),
{
    if accounts.len() > 0 {
        lemma_claim_keeps_invariant(e, accounts[0], seeds[0]);
        if let Ok((e1, _)) = claim_step(e, accounts[0], seeds[0]) {
            lemma_claims_keep_books(e1, accounts.drop_first(), seeds.drop_first());
        }
    }
}

/// An envelope made for `n` claimants refuses the next claim with
/// `Exhausted` once `n` claims have succeeded.
pub proof fn lemma_capacity_reached(
    e: EnvelopeView,
    accounts: Seq<Seq<char>>,
    seeds: Seq<Seq<u8>>,
    account: Seq<char>,
    seed: Seq<u8>,
)
    requires
        envelope_ok(e),
        e.claims.len() == 0,
        accounts.len() == e.count,
        claim_run(e, accounts, seeds) is Ok,
    ensures
        claim_step(claim_run(e, accounts, seeds)->Ok_0, account, seed) == Err::<
            (EnvelopeView, u128),
            LinkDropError,
        >(LinkDropError::Exhausted),
{
    lemma_claims_keep_books(e, accounts, seeds);
}

/// An account that has claimed from an envelope cannot claim from it again:
/// the second claim is refused, with `AlreadyClaimed` while claims remain.
pub proof fn lemma_no_second_claim(
    e: EnvelopeView,
    account: Seq<char>,
    seed: Seq<u8>,
    accounts: Seq<Seq<char>>,
    seeds: Seq<Seq<u8>>,
    seed2: Seq<u8>,
)
    requires
        envelope_ok(e),
        claim_step(e, account, seed) is Ok,
        claim_run(claim_step(e, account, seed)->Ok_0.0, accounts, seeds) is Ok,
    ensures
        ({
            let e2 = claim_run(claim_step(e, account, seed)->Ok_0.0, accounts, seeds)->Ok_0;
            &&& claim_step(e2, account, seed2) is Err
            &&& e2.claims.len() < e2.count ==> claim_step(e2, account, seed2) == Err::<
                (EnvelopeView, u128),
                LinkDropError,
            >(LinkDropError::AlreadyClaimed)
        }),
{
    let e1 = claim_step(e, account, seed)->Ok_0.0;
    lemma_claim_keeps_invariant(e, account, seed);
    lemma_claims_keep_books(e1, accounts, seeds);
    assert(e1.claims[e.claims.len() as int].0 == account);
    lemma_claim_stays_recorded(e1, account, accounts, seeds);
    let e2 = claim_run(e1, accounts, seeds)->Ok_0;
    assert(claimed_by(e2.claims, account));
}

/// A claim once recorded stays recorded through later claims.
proof fn lemma_claim_stays_recorded(
    e: EnvelopeView,
    account: Seq<char>,
    accounts: Seq<Seq<char>>,
    seeds: Seq<Seq<u8>>,
)
    requires
        claimed_by(e.claims, account),
    ensures
        claim_run(e, accounts, seeds) matches Ok(e2) ==> claimed_by(e2.claims, account),
    decreases accounts.len(),
{
    if accounts.len() > 0 {
        if let Ok((e1, _)) = claim_step(e, accounts[0], seeds[0]) {
            let i = choose|i: int| 0 <= i < e.claims.len() && #[trigger] e.claims[i].0 == account;
            assert(e1.claims[i] == e.claims[i]);
            lemma_claim_stays_recorded(e1, account, accounts.drop_first(), seeds.drop_first());
        }
    }
}

} // verus!
