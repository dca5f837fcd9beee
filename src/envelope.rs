use vstd::prelude::*;
use crate::allocator::{even_amount, even_share, random_amount, random_share};
use crate::error::LinkDropError;

verus! {

/// Splitting mode of an envelope in which every claimant gets an equal part
/// of what is left; any other mode draws a random part.
pub const EVEN_MODE: u8 = 0;

/// Splitting mode of an envelope whose parts are drawn at random.
pub const RANDOM_MODE: u8 = 1;

/// What an issuer set up when creating an envelope, and what is left of it.
pub struct RedInfo {
    pub mode: u8,
    pub count: u128,
    pub slogan: String,
    pub balance: u128,
    pub remaining_balance: u128,
}

/// One claimant's payout from an envelope.
pub struct ClaimRecord {
    pub account: String,
    pub amount: u128,
}

/// One entry of a claimant's history: what was paid, and from which envelope.
pub struct ReceivedRedInfo {
    pub amount: u128,
    pub redbag: String,
}

/// An envelope: who issued it, its settings and balances, and its claims in
/// the order they were made.
pub struct Envelope {
    pub issuer: String,
    pub info: RedInfo,
    pub claims: Vec<ClaimRecord>,
}

/// The mathematical content of an envelope; a claim is `(account, amount)`.
pub struct EnvelopeView {
    pub issuer: Seq<char>,
    pub mode: u8,
    pub count: u128,
    pub slogan: Seq<char>,
    pub balance: u128,
    pub remaining: u128,
    pub claims: Seq<(Seq<char>, u128)>,
}

impl View for Envelope {
    type V = EnvelopeView;

    open spec fn view(&self) -> EnvelopeView {
        EnvelopeView {
            issuer: self.issuer@,
            mode: self.info.mode,
            count: self.info.count,
            slogan: self.info.slogan@,
            balance: self.info.balance,
            remaining: self.info.remaining_balance,
            claims: self.claims@.map_values(|c: ClaimRecord| (c.account@, c.amount)),
        }
    }
}

/// The sum of the amounts paid by a list of claims.
pub open spec fn paid(claims: Seq<(Seq<char>, u128)>) -> int
    decreases claims.len(),
{
    if claims.len() == 0 {
        0
    } else {
        paid(claims.drop_last()) + claims.last().1
    }
}

/// Whether `account` already holds a claim in `claims`.
pub open spec fn claimed_by(claims: Seq<(Seq<char>, u128)>, account: Seq<char>) -> bool {
    exists|i: int| 0 <= i < claims.len() && #[trigger] claims[i].0 == account
}

/// The envelope's invariant: what was paid and what is left make up the
/// deposit, no more claims than its capacity, and one claim per account.
pub open spec fn envelope_ok(e: EnvelopeView) -> bool {
    &&& paid(e.claims) + e.remaining == e.balance
    &&& e.claims.len() <= e.count
    &&& forall|i: int, j: int|
        0 <= i < e.claims.len() && 0 <= j < e.claims.len() && #[trigger] e.claims[i].0
            == #[trigger] e.claims[j].0 ==> i == j
}

/// The payout of the next claim on `e`.
pub open spec fn payout(e: EnvelopeView, seed: Seq<u8>) -> int {
    if e.mode == EVEN_MODE {
        even_share(e.remaining, (e.count - e.claims.len()) as u128)
    } else {
        random_share(e.remaining, seed)
    }
}

/// A claim by `account` on `e` with entropy `seed`: the envelope after it and
/// the amount paid, or why it is refused.
pub open spec fn claim_step(e: EnvelopeView, account: Seq<char>, seed: Seq<u8>) -> Result<
    (EnvelopeView, u128),
    LinkDropError,
> {
    if e.claims.len() >= e.count {
        Err(LinkDropError::Exhausted)
    } else if claimed_by(e.claims, account) {
        Err(LinkDropError::AlreadyClaimed)
    } else {
        let amount = payout(e, seed) as u128;
        Ok(
            (
                EnvelopeView {
                    remaining: (e.remaining - amount) as u128,
                    claims: e.claims.push((account, amount)),
                    ..e
                },
                amount,
            ),
        )
    }
}

/// A fresh envelope holding `deposit` for up to `count` claimants.
pub open spec fn fresh_envelope(
    issuer: Seq<char>,
    mode: u8,
    count: u128,
    slogan: Seq<char>,
    deposit: u128,
) -> EnvelopeView {
    EnvelopeView {
        issuer,
        mode,
        count,
        slogan,
        balance: deposit,
        remaining: deposit,
        claims: Seq::empty(),
    }
}

/// The payout of a successful claim never exceeds what is left.
pub proof fn lemma_payout_bounded(e: EnvelopeView, seed: Seq<u8>)
    requires
        e.claims.len() < e.count,
    ensures
        0 <= payout(e, seed) <= e.remaining,
{
    if e.mode == EVEN_MODE {
        let n = (e.count - e.claims.len()) as u128;
        assert(e.remaining as int / n as int <= e.remaining) by (nonlinear_arith)
            requires
                n >= 1,
        ;
    } else {
        let b = e.remaining / 255;
        let c = crate::allocator::clamp_block(crate::allocator::fold_seed(seed));
        assert(b * c <= b * 255) by (nonlinear_arith)
            requires
                c <= 255,
        ;
        assert(0 <= b * c) by (nonlinear_arith)
            requires
                b >= 0,
                c >= 0,
        ;
    }
}

/// A successful claim keeps the envelope's invariant.
pub proof fn lemma_claim_keeps_invariant(e: EnvelopeView, account: Seq<char>, seed: Seq<u8>)
    requires
        envelope_ok(e),
    ensures
        claim_step(e, account, seed) matches Ok((e2, amount)) ==> {
            &&& envelope_ok(e2)
            &&& e2.remaining + amount == e.remaining
            &&& e2.balance == e.balance
            &&& e2.count == e.count
            &&& e2.issuer == e.issuer
            &&& e2.claims.len() == e.claims.len() + 1
        },
{
    if let Ok((e2, amount)) = claim_step(e, account, seed) {
        lemma_payout_bounded(e, seed);
        assert(e2.claims.drop_last() =~= e.claims);
        assert forall|i: int, j: int|
            0 <= i < e2.claims.len() && 0 <= j < e2.claims.len() && #[trigger] e2.claims[i].0
                == #[trigger] e2.claims[j].0 implies i == j by {
            if i < e.claims.len() && j == e.claims.len() {
                assert(e.claims[i].0 == account);
            }
            if j < e.claims.len() && i == e.claims.len() {
                assert(e.claims[j].0 == account);
            }
        }
    }
}

impl Envelope {
    /// Claims a part of this envelope for `account`, as `claim_step` says.
    pub fn claim_part(&mut self, account: &String, seed: &Vec<u8>) -> (r: Result<u128, LinkDropError>)
        requires
            envelope_ok(old(self)@),
        ensures
            match r {
                Ok(amount) => claim_step(old(self)@, account@, seed@) == Ok::<(EnvelopeView, u128), LinkDropError>((final(self)@, amount)),
                Err(e) => claim_step(old(self)@, account@, seed@) == Err::<(EnvelopeView, u128), LinkDropError>(e)
                    && *final(self) == *old(self),
            },
            envelope_ok(final(self)@),
    {
        let ghost e0 = self@;
        let n = self.claims.len();
        if n as u128 >= self.info.count {
            return Err(LinkDropError::Exhausted);
        }
        let mut i: usize = 0;
        while i < n
            invariant
                n == self.claims@.len(),
                i <= n,
                e0 == self@,
                *self == *old(self),
                envelope_ok(e0),
                e0.claims.len() < e0.count,
                forall|j: int| 0 <= j < i ==> self@.claims[j].0 != account@,
            decreases n - i,
        {
            if self.claims[i].account == *account {
                assert(self@.claims[i as int].0 == account@);
                return Err(LinkDropError::AlreadyClaimed);
            }
            i = i + 1;
        }
        proof {
            lemma_payout_bounded(e0, seed@);
            lemma_claim_keeps_invariant(e0, account@, seed@);
        }
        let remaining = self.info.remaining_balance;
        let amount = if self.info.mode == EVEN_MODE {
            even_amount(remaining, self.info.count - n as u128)
        } else {
            random_amount(remaining, seed)
        };
        self.info.remaining_balance = remaining - amount;
        self.claims.push(ClaimRecord { account: account.clone(), amount });
        assert(self@.claims =~= e0.claims.push((account@, amount)));
        Ok(amount)
    }
}

} // verus!
