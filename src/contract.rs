use vstd::prelude::*;
use crate::envelope::{
    claim_step, envelope_ok, fresh_envelope, Envelope, EnvelopeView, RedInfo,
    ReceivedRedInfo,
};
use crate::account::{is_valid_account, valid_account_of};
use crate::error::LinkDropError;
use crate::store::Store;

verus! {

/// Allowance of the access key installed for a claim key, and the fee kept
/// back from each linkdrop deposit to pay for the account it may create.
pub const ACCESS_KEY_ALLOWANCE: u128 = 1_000_000_000_000_000_000_000_000;

/// Which contract methods an installed claim key may call.
#[derive(Clone, Copy, Debug, PartialEq, Eq, Structural)]
pub enum KeyScope {
    /// `claim` and `create_account_and_claim`.
    Linkdrop,
    /// `create_account_and_claim`, `claim` and `revoke`.
    Envelope,
}

/// The callback the host must invoke once an account creation has settled.
#[derive(Debug, PartialEq, Eq)]
pub enum Callback {
    /// `on_account_created`: refund `amount` to `payer` on failure.
    AccountCreated { payer: String, amount: u128 },
    /// `on_account_created_and_claimed`: put `amount` back under
    /// `credential` on failure, retire the key on success.
    AccountCreatedAndClaimed { credential: String, amount: u128 },
}

/// An effect on the host ledger that a call asks for.
#[derive(Debug, PartialEq, Eq)]
pub enum Action {
    /// Install `credential` as a key of this contract with the given allowance.
    AddClaimKey { credential: String, allowance: u128, scope: KeyScope },
    /// Pay `amount` to `receiver`.
    Transfer { receiver: String, amount: u128 },
    /// Remove `credential` from the keys of this contract.
    DeleteClaimKey { credential: String },
    /// Create `new_account_id` owned by `owner_key`, fund it with `amount`,
    /// then run `callback` on this contract with the outcome.
    CreateAccount { new_account_id: String, owner_key: String, amount: u128, callback: Callback },
}

/// What the host tells a call about itself.
pub struct Context {
    /// The account that signed the transaction.
    pub signer_account_id: String,
    /// The key the transaction was signed with.
    pub signer_account_pk: String,
    /// The account that made this call.
    pub predecessor_account_id: String,
    /// This contract's own account.
    pub current_account_id: String,
    /// Value attached to the call.
    pub attached_deposit: u128,
    /// Fresh entropy for this call.
    pub random_seed: Vec<u8>,
}

/// The contract's state: linkdrop deposits and envelopes, each keyed by the
/// text of the claim key guarding it, the envelopes each issuer made, and
/// what each claimant received.
pub struct LinkDrop {
    pub access_fee: u128,
    pub accounts: Store<u128>,
    pub red_info: Store<Envelope>,
    pub sender_redbag: Store<Vec<String>>,
    pub receiver_redbag_record: Store<Vec<ReceivedRedInfo>>,
}

/// The balance held under `k`, zero when none is.
pub open spec fn balance_of(m: Map<Seq<char>, u128>, k: Seq<char>) -> int {
    if m.contains_key(k) {
        m[k] as int
    } else {
        0
    }
}

/// The escrow after depositing `deposit` under `k`, less the fee.
pub open spec fn deposit_into(m: Map<Seq<char>, u128>, k: Seq<char>, deposit: u128, fee: u128) -> Map<
    Seq<char>,
    u128,
> {
    m.insert(k, (balance_of(m, k) + deposit - fee) as u128)
}

/// The escrow after `amount` is put back under `k`.
pub open spec fn refund_into(m: Map<Seq<char>, u128>, k: Seq<char>, amount: u128) -> Map<
    Seq<char>,
    u128,
> {
    m.insert(k, (balance_of(m, k) + amount) as u128)
}

/// Every listed envelope of an issuer is live and was issued by them.
pub open spec fn index_live(idx: Map<Seq<char>, Vec<String>>, env: Map<Seq<char>, Envelope>) -> bool {
    forall|a: Seq<char>, p: int|
        idx.contains_key(a) && 0 <= p < idx[a]@.len() ==> env.contains_key(#[trigger] idx[a]@[p]@)
            && env[idx[a]@[p]@].issuer@ == a
}

/// No issuer lists an envelope twice.
pub open spec fn index_distinct(idx: Map<Seq<char>, Vec<String>>) -> bool {
    forall|a: Seq<char>, p: int, q: int|
        idx.contains_key(a) && 0 <= p < idx[a]@.len() && 0 <= q < idx[a]@.len() && #[trigger] idx[a]@[p]@
            == #[trigger] idx[a]@[q]@ ==> p == q
}

/// What `account` had received before, or nothing.
pub open spec fn received_of(m: Map<Seq<char>, Vec<ReceivedRedInfo>>, account: Seq<char>) -> Seq<ReceivedRedInfo> {
    if m.contains_key(account) {
        m[account]@
    } else {
        Seq::empty()
    }
}

/// The envelopes `a` has issued, in order, or none.
pub open spec fn index_of(m: Map<Seq<char>, Vec<String>>, a: Seq<char>) -> Seq<String> {
    if m.contains_key(a) {
        m[a]@
    } else {
        Seq::empty()
    }
}

/// Two states that hold the same deposits, envelopes, indexes and fee.
pub open spec fn unchanged(a: LinkDrop, b: LinkDrop) -> bool {
    &&& a.access_fee == b.access_fee
    &&& a.accounts@ == b.accounts@
    &&& a.red_info@ == b.red_info@
    &&& a.sender_redbag@ == b.sender_redbag@
    &&& a.receiver_redbag_record@ == b.receiver_redbag_record@
}

/// `b` is `a` after `account` claimed `amount` from the envelope under `k`
/// as `claim_step` says with entropy `seed`.
pub open spec fn envelope_claimed(
    a: LinkDrop,
    b: LinkDrop,
    k: Seq<char>,
    account: String,
    seed: Seq<u8>,
    amount: u128,
) -> bool {
    &&& b.red_info@.contains_key(k)
    &&& claim_step(a.red_info@[k]@, account@, seed) == Ok::<(EnvelopeView, u128), LinkDropError>(
        (b.red_info@[k]@, amount),
    )
    &&& b.red_info@ == a.red_info@.insert(k, b.red_info@[k])
    &&& b.receiver_redbag_record@.contains_key(account@)
    &&& b.receiver_redbag_record@ == a.receiver_redbag_record@.insert(
        account@,
        b.receiver_redbag_record@[account@],
    )
    &&& b.receiver_redbag_record@[account@]@.len() == received_of(a.receiver_redbag_record@, account@).len() + 1
    &&& b.receiver_redbag_record@[account@]@.drop_last() == received_of(a.receiver_redbag_record@, account@)
    &&& b.receiver_redbag_record@[account@]@.last().amount == amount
    &&& b.receiver_redbag_record@[account@]@.last().redbag@ == k
    &&& b.accounts@ == a.accounts@
    &&& b.sender_redbag@ == a.sender_redbag@
    &&& b.access_fee == a.access_fee
}

/// `b` is `a` with the linkdrop deposit under `k` taken out.
pub open spec fn deposit_taken(a: LinkDrop, b: LinkDrop, k: Seq<char>) -> bool {
    &&& b.accounts@ == a.accounts@.remove(k)
    &&& b.red_info@ == a.red_info@
    &&& b.sender_redbag@ == a.sender_redbag@
    &&& b.receiver_redbag_record@ == a.receiver_redbag_record@
    &&& b.access_fee == a.access_fee
}

/// What a claim of the key `ctx.signer_account_pk` into `account_id` does,
/// taking `b` from `a` with result `r`, where `account_valid` says whether
/// `account_id` is a valid account id. A linkdrop deposit is paid out whole
/// and its key retired; an envelope pays a part as `claim_step` says.
pub open spec fn claim_outcome(
    a: LinkDrop,
    b: LinkDrop,
    ctx: Context,
    account_id: String,
    account_valid: bool,
    r: Result<Vec<Action>, LinkDropError>,
) -> bool {
    if !account_valid {
        r == Err::<Vec<Action>, LinkDropError>(LinkDropError::InvalidAccountIdentifier) && unchanged(a, b)
    } else {
        let k = ctx.signer_account_pk@;
        if a.accounts@.contains_key(k) {
            &&& deposit_taken(a, b, k)
            &&& r matches Ok(v) && v@ == seq![
                Action::Transfer { receiver: account_id, amount: a.accounts@[k] },
                Action::DeleteClaimKey { credential: ctx.signer_account_pk },
            ]
        } else if a.red_info@.contains_key(k) {
            match claim_step(a.red_info@[k]@, account_id@, ctx.random_seed@) {
                Ok((_, amount)) => {
                    &&& envelope_claimed(a, b, k, account_id, ctx.random_seed@, amount)
                    &&& r matches Ok(v) && v@ == seq![
                        Action::Transfer { receiver: account_id, amount },
                    ]
                },
                Err(e) => r == Err::<Vec<Action>, LinkDropError>(e) && unchanged(a, b),
            }
        } else {
            r == Err::<Vec<Action>, LinkDropError>(LinkDropError::UnknownCredential) && unchanged(
                a,
                b,
            )
        }
}
}

/// What redeeming the key `ctx.signer_account_pk` into a new account
/// `new_account_id` owned by `new_public_key` does, taking `b` from `a` with
/// result `r`, where `account_valid` says whether `new_account_id` is a valid
/// account id. The deposit or the part is taken out at once; a callback
/// settles the outcome later.
pub open spec fn create_outcome(
    a: LinkDrop,
    b: LinkDrop,
    ctx: Context,
    new_account_id: String,
    new_public_key: String,
    account_valid: bool,
    r: Result<Vec<Action>, LinkDropError>,
) -> bool {
    if !account_valid {
        r == Err::<Vec<Action>, LinkDropError>(LinkDropError::InvalidAccountIdentifier) && unchanged(a, b)
    } else {
        let k = ctx.signer_account_pk@;
        if a.accounts@.contains_key(k) {
            &&& deposit_taken(a, b, k)
            &&& r matches Ok(v) && v@ == seq![
                Action::CreateAccount {
                    new_account_id,
                    owner_key: new_public_key,
                    amount: a.accounts@[k],
                    callback: Callback::AccountCreatedAndClaimed {
                        credential: ctx.signer_account_pk,
                        amount: a.accounts@[k],
                    },
                },
            ]
        } else if a.red_info@.contains_key(k) {
            match claim_step(a.red_info@[k]@, new_account_id@, ctx.random_seed@) {
                Ok((_, amount)) => {
                    &&& envelope_claimed(a, b, k, new_account_id, ctx.random_seed@, amount)
                    &&& r matches Ok(v) && v@ == seq![
                        Action::CreateAccount {
                            new_account_id,
                            owner_key: new_public_key,
                            amount,
                            callback: Callback::AccountCreated {
                                payer: ctx.predecessor_account_id,
                                amount,
                            },
                        },
                    ]
                },
                Err(e) => r == Err::<Vec<Action>, LinkDropError>(e) && unchanged(a, b),
            }
        } else {
            r == Err::<Vec<Action>, LinkDropError>(LinkDropError::UnknownCredential) && unchanged(
                a,
                b,
            )
        }
}
}

impl LinkDrop {
    /// The contract's invariant.
    pub open spec fn wf(&self) -> bool {
        &&& self.accounts.wf()
        &&& self.red_info.wf()
        &&& self.sender_redbag.wf()
        &&& self.receiver_redbag_record.wf()
        &&& forall|k: Seq<char>| #[trigger]
            self.red_info@.contains_key(k) ==> !self.accounts@.contains_key(k) && envelope_ok(
                self.red_info@[k]@,
            )
        &&& index_live(self.sender_redbag@, self.red_info@)
        &&& index_distinct(self.sender_redbag@)
    }

    /// An empty contract that keeps back `access_fee` from each deposit.
    pub fn new(access_fee: u128) -> (r: Self)
        ensures
            r.wf(),
            r.access_fee == access_fee,
            r.accounts@ == Map::<Seq<char>, u128>::empty(),
            r.red_info@ == Map::<Seq<char>, Envelope>::empty(),
            r.sender_redbag@ == Map::<Seq<char>, Vec<String>>::empty(),
            r.receiver_redbag_record@ == Map::<Seq<char>, Vec<ReceivedRedInfo>>::empty(),
    {
        LinkDrop {
            access_fee,
            accounts: Store::new(),
            red_info: Store::new(),
            sender_redbag: Store::new(),
            receiver_redbag_record: Store::new(),
        }
    }

    /// Deposits the attached value, less the fee, under `public_key`, adding
    /// to what is already held there, and asks for the key to be installed.
    pub fn send(&mut self, ctx: &Context, public_key: String) -> (r: Result<Action, LinkDropError>)
        requires
            old(self).wf(),
        ensures
            final(self).wf(),
            ctx.attached_deposit <= old(self).access_fee ==> r == Err::<Action, LinkDropError>(
                LinkDropError::InsufficientDeposit,
            ),
            ctx.attached_deposit > old(self).access_fee && old(self).red_info@.contains_key(public_key@)
                ==> r == Err::<Action, LinkDropError>(LinkDropError::AlreadyExists),
            ctx.attached_deposit > old(self).access_fee && !old(self).red_info@.contains_key(public_key@)
                && balance_of(old(self).accounts@, public_key@) + ctx.attached_deposit - old(self).access_fee
                > u128::MAX ==> r == Err::<Action, LinkDropError>(LinkDropError::AmountOverflow),
            ctx.attached_deposit > old(self).access_fee && !old(self).red_info@.contains_key(public_key@)
                && balance_of(old(self).accounts@, public_key@) + ctx.attached_deposit - old(self).access_fee
                <= u128::MAX ==> r is Ok,
            r is Err ==> *final(self) == *old(self),
            r is Ok ==> ({
                &&& final(self).accounts@ == deposit_into(old(self).accounts@, public_key@, ctx.attached_deposit, old(self).access_fee)
                &&& final(self).red_info == old(self).red_info
                &&& final(self).sender_redbag == old(self).sender_redbag
                &&& final(self).receiver_redbag_record == old(self).receiver_redbag_record
                &&& final(self).access_fee == old(self).access_fee
                &&& r == Ok::<Action, LinkDropError>(Action::AddClaimKey {
                    credential: public_key,
                    allowance: old(self).access_fee,
                    scope: KeyScope::Linkdrop,
                })
            }),
    {
        if ctx.attached_deposit <= self.access_fee {
            return Err(LinkDropError::InsufficientDeposit);
        }
        if self.red_info.contains(&public_key) {
            return Err(LinkDropError::AlreadyExists);
        }
        let credit = ctx.attached_deposit - self.access_fee;
        let prev: u128 = match self.accounts.get(&public_key) {
            Some(b) => *b,
            None => 0,
        };
        if prev > u128::MAX - credit {
            return Err(LinkDropError::AmountOverflow);
        }
        self.accounts.put(public_key.clone(), prev + credit);
        Ok(Action::AddClaimKey {
            credential: public_key,
            allowance: self.access_fee,
            scope: KeyScope::Linkdrop,
        })
    }

    /// The linkdrop balance held under `public_key`, if any.
    pub fn get_key_balance(&self, public_key: &String) -> (r: Option<u128>)
        requires
            self.wf(),
        ensures
            r == (if self.accounts@.contains_key(public_key@) {
                Some(self.accounts@[public_key@])
            } else {
                None::<u128>
            }),
    {
        match self.accounts.get(public_key) {
            Some(b) => Some(*b),
            None => None,
        }
    }

    /// Takes a claim by `account` on the envelope under `pk` and books it in
    /// the claimant's history.
    fn claim_from_envelope(&mut self, pk: &String, account: &String, seed: &Vec<u8>) -> (r: Result<
        u128,
        LinkDropError,
    >)
        requires
            old(self).wf(),
            old(self).red_info@.contains_key(pk@),
        ensures
            final(self).wf(),
            match r {
                Ok(amount) => envelope_claimed(*old(self), *final(self), pk@, *account, seed@, amount),
                Err(e) => claim_step(old(self).red_info@[pk@]@, account@, seed@) == Err::<
                    (EnvelopeView, u128),
                    LinkDropError,
                >(e) && unchanged(*old(self), *final(self)),
            },
    {
        let ghost s0 = *self;
        let mut e = match self.red_info.take(pk) {
            Some(e) => e,
            None => {
                return Err(LinkDropError::NotFound);
            },
        };
        assert(envelope_ok(e@));
        let res = e.claim_part(account, seed);
        let key = pk.clone();
        self.red_info.put(key, e);
        match res {
            Err(err) => {
                assert(self.red_info@ =~= s0.red_info@);
                Err(err)
            },
            Ok(amount) => {
                let mut list = match self.receiver_redbag_record.take(account) {
                    Some(l) => l,
                    None => Vec::new(),
                };
                assert(list@ == received_of(s0.receiver_redbag_record@, account@));
                list.push(ReceivedRedInfo { amount, redbag: pk.clone() });
                self.receiver_redbag_record.put(account.clone(), list);
                assert(self.receiver_redbag_record@ =~= s0.receiver_redbag_record@.insert(
                    account@,
                    self.receiver_redbag_record@[account@],
                ));
                assert(self.red_info@.dom() =~= s0.red_info@.dom());
                assert(self.red_info@ =~= s0.red_info@.insert(pk@, self.red_info@[pk@]));
                assert(self.receiver_redbag_record@[account@]@.drop_last() =~= received_of(
                    s0.receiver_redbag_record@,
                    account@,
                ));
                proof {
                    crate::envelope::lemma_claim_keeps_invariant(s0.red_info@[pk@]@, account@, seed@);
                    assert forall|k: Seq<char>| #[trigger]
                        self.red_info@.contains_key(k) implies !self.accounts@.contains_key(k)
                        && envelope_ok(self.red_info@[k]@) by {
                        assert(s0.red_info@.contains_key(k));
                    }
                    assert forall|a: Seq<char>, p: int|
                        self.sender_redbag@.contains_key(a) && 0 <= p < self.sender_redbag@[a]@.len()
                        implies self.red_info@.contains_key(#[trigger] self.sender_redbag@[a]@[p]@)
                        && self.red_info@[self.sender_redbag@[a]@[p]@].issuer@ == a by {
                        let k = self.sender_redbag@[a]@[p]@;
                        assert(s0.red_info@.contains_key(k));
                        assert(self.red_info@[k]@.issuer == s0.red_info@[k]@.issuer);
                    }
                }
                Ok(amount)
            },
        }
    }

    /// Redeems the key the transaction was signed with into `account_id`,
    /// as `claim_outcome` says; an invalid account id is refused first.
    pub fn claim(&mut self, ctx: &Context, account_id: String) -> (r: Result<
        Vec<Action>,
        LinkDropError,
    >)
        requires
            old(self).wf(),
        ensures
            final(self).wf(),
            claim_outcome(*old(self), *final(self), *ctx, account_id, valid_account_of(account_id@), r),
            account_id@.len() == 0 ==> r == Err::<Vec<Action>, LinkDropError>(
                LinkDropError::InvalidAccountIdentifier,
            ) && unchanged(*old(self), *final(self)),
    {
        let account_valid = is_valid_account(&account_id);
        self.claim_checked(ctx, account_id, account_valid)
    }

    /// A claim as `claim` makes it, once the validity of `account_id` is
    /// known: `account_valid` is what the ledger's account-id check said.
    pub fn claim_checked(&mut self, ctx: &Context, account_id: String, account_valid: bool) -> (r: Result<
        Vec<Action>,
        LinkDropError,
    >)
        requires
            old(self).wf(),
        ensures
            final(self).wf(),
            claim_outcome(*old(self), *final(self), *ctx, account_id, account_valid, r),
    {
        if !account_valid {
            return Err(LinkDropError::InvalidAccountIdentifier);
        }
        let pk = &ctx.signer_account_pk;
        if self.accounts.contains(pk) {
            let amount = match self.accounts.take(pk) {
                Some(b) => b,
                None => 0,
            };
            let mut v: Vec<Action> = Vec::new();
            v.push(Action::Transfer { receiver: account_id, amount });
            v.push(Action::DeleteClaimKey { credential: pk.clone() });
            assert(v@ =~= seq![
                Action::Transfer { receiver: account_id, amount },
                Action::DeleteClaimKey { credential: ctx.signer_account_pk },
            ]);
            return Ok(v);
        }
        if !self.red_info.contains(pk) {
            return Err(LinkDropError::UnknownCredential);
        }
        match self.claim_from_envelope(pk, &account_id, &ctx.random_seed) {
            Ok(amount) => {
                let mut v: Vec<Action> = Vec::new();
                v.push(Action::Transfer { receiver: account_id, amount });
                Ok(v)
            },
            Err(e) => Err(e),
        }
    }

    /// Redeems the key the transaction was signed with into a new account
    /// `new_account_id` owned by `new_public_key`, as `create_outcome` says;
    /// an invalid account id is refused first.
    pub fn create_account_and_claim(
        &mut self,
        ctx: &Context,
        new_account_id: String,
        new_public_key: String,
    ) -> (r: Result<Vec<Action>, LinkDropError>)
        requires
            old(self).wf(),
        ensures
            final(self).wf(),
            create_outcome(
                *old(self),
                *final(self),
                *ctx,
                new_account_id,
                new_public_key,
                valid_account_of(new_account_id@),
                r,
            ),
            new_account_id@.len() == 0 ==> r == Err::<Vec<Action>, LinkDropError>(
                LinkDropError::InvalidAccountIdentifier,
            ) && unchanged(*old(self), *final(self)),
    {
        let account_valid = is_valid_account(&new_account_id);
        self.create_account_and_claim_checked(ctx, new_account_id, new_public_key, account_valid)
    }

    /// A redemption as `create_account_and_claim` makes it, once the validity
    /// of `new_account_id` is known: `account_valid` is what the ledger's
    /// account-id check said.
    pub fn create_account_and_claim_checked(
        &mut self,
        ctx: &Context,
        new_account_id: String,
        new_public_key: String,
        account_valid: bool,
    ) -> (r: Result<Vec<Action>, LinkDropError>)
        requires
            old(self).wf(),
        ensures
            final(self).wf(),
            create_outcome(*old(self), *final(self), *ctx, new_account_id, new_public_key, account_valid, r),
    {
        if !account_valid {
            return Err(LinkDropError::InvalidAccountIdentifier);
        }
        let pk = &ctx.signer_account_pk;
        if self.accounts.contains(pk) {
            let amount = match self.accounts.take(pk) {
                Some(b) => b,
                None => 0,
            };
            let mut v: Vec<Action> = Vec::new();
            v.push(
                Action::CreateAccount {
                    new_account_id,
                    owner_key: new_public_key,
                    amount,
                    callback: Callback::AccountCreatedAndClaimed { credential: pk.clone(), amount },
                },
            );
            return Ok(v);
        }
        if !self.red_info.contains(pk) {
            return Err(LinkDropError::UnknownCredential);
        }
        match self.claim_from_envelope(pk, &new_account_id, &ctx.random_seed) {
            Ok(amount) => {
                let mut v: Vec<Action> = Vec::new();
                v.push(
                    Action::CreateAccount {
                        new_account_id,
                        owner_key: new_public_key,
                        amount,
                        callback: Callback::AccountCreated {
                            payer: ctx.predecessor_account_id.clone(),
                            amount,
                        },
                    },
                );
                Ok(v)
            },
            Err(e) => Err(e),
        }
    }

    /// Settles a linkdrop redeemed into a new account. Only this contract may
    /// call it. On success the spent key is retired; on failure `amount` is
    /// put back under `credential`, so the key can redeem it again.
    pub fn on_account_created_and_claimed(
        &mut self,
        ctx: &Context,
        credential: String,
        amount: u128,
        succeeded: bool,
    ) -> (r: Result<Vec<Action>, LinkDropError>)
        requires
            old(self).wf(),
        ensures
            final(self).wf(),
            ctx.predecessor_account_id@ != ctx.current_account_id@ ==> r == Err::<
                Vec<Action>,
                LinkDropError,
            >(LinkDropError::Unauthorized),
            ctx.predecessor_account_id@ == ctx.current_account_id@ && succeeded ==> (r matches Ok(v)
                && v@ == seq![Action::DeleteClaimKey { credential }]),
            ctx.predecessor_account_id@ == ctx.current_account_id@ && !succeeded && (old(
                self,
            ).red_info@.contains_key(credential@) || balance_of(old(self).accounts@, credential@)
                + amount > u128::MAX) ==> r == Err::<Vec<Action>, LinkDropError>(
                LinkDropError::CompensationFailed,
            ),
            ctx.predecessor_account_id@ == ctx.current_account_id@ && !succeeded && !old(
                self,
            ).red_info@.contains_key(credential@) && balance_of(old(self).accounts@, credential@)
                + amount <= u128::MAX ==> r is Ok,
            r is Ok && !succeeded ==> {
                &&& r matches Ok(v) && v@.len() == 0
                &&& final(self).accounts@ == refund_into(old(self).accounts@, credential@, amount)
                &&& final(self).red_info@ == old(self).red_info@
                &&& final(self).sender_redbag@ == old(self).sender_redbag@
                &&& final(self).receiver_redbag_record@ == old(self).receiver_redbag_record@
                &&& final(self).access_fee == old(self).access_fee
            },
            r is Err || succeeded ==> unchanged(*old(self), *final(self)),
    {
        if ctx.predecessor_account_id != ctx.current_account_id {
            return Err(LinkDropError::Unauthorized);
        }
        let mut v: Vec<Action> = Vec::new();
        if succeeded {
            v.push(Action::DeleteClaimKey { credential });
            return Ok(v);
        }
        if self.red_info.contains(&credential) {
            return Err(LinkDropError::CompensationFailed);
        }
        let prev: u128 = match self.accounts.get(&credential) {
            Some(b) => *b,
            None => 0,
        };
        if prev > u128::MAX - amount {
            return Err(LinkDropError::CompensationFailed);
        }
        self.accounts.put(credential, prev + amount);
        Ok(v)
    }

    /// Settles an envelope part paid into a new account. Only this contract
    /// may call it. On failure `amount` is paid back to `payer`, the caller
    /// of the claim; for a claim made with the envelope's key that caller is
    /// this contract itself, so the part stays with the contract, outside any
    /// envelope. The envelope's books are not reopened: the claim stays spent.
    pub fn on_account_created(
        &self,
        ctx: &Context,
        payer: String,
        amount: u128,
        succeeded: bool,
    ) -> (r: Result<Vec<Action>, LinkDropError>)
        ensures
            ctx.predecessor_account_id@ != ctx.current_account_id@ ==> r == Err::<
                Vec<Action>,
                LinkDropError,
            >(LinkDropError::Unauthorized),
            ctx.predecessor_account_id@ == ctx.current_account_id@ && succeeded ==> (r matches Ok(v)
                && v@.len() == 0),
            ctx.predecessor_account_id@ == ctx.current_account_id@ && !succeeded ==> (r matches Ok(v)
                && v@ == seq![Action::Transfer { receiver: payer, amount }]),
    {
        if ctx.predecessor_account_id != ctx.current_account_id {
            return Err(LinkDropError::Unauthorized);
        }
        let mut v: Vec<Action> = Vec::new();
        if !succeeded {
            v.push(Action::Transfer { receiver: payer, amount });
        }
        Ok(v)
    }

    /// Creates an envelope under `public_key` holding the whole attached
    /// value for up to `count` claimants, lists it under the signer, and asks
    /// for the key to be installed.
    pub fn send_redbag(
        &mut self,
        ctx: &Context,
        public_key: String,
        count: u128,
        mode: u8,
        slogan: String,
    ) -> (r: Result<Action, LinkDropError>)
        requires
            old(self).wf(),
        ensures
            final(self).wf(),
            ctx.attached_deposit <= old(self).access_fee ==> r == Err::<Action, LinkDropError>(
                LinkDropError::InsufficientDeposit,
            ),
            ctx.attached_deposit > old(self).access_fee && (old(self).red_info@.contains_key(
                public_key@,
            ) || old(self).accounts@.contains_key(public_key@)) ==> r == Err::<Action, LinkDropError>(
                LinkDropError::AlreadyExists,
            ),
            ctx.attached_deposit > old(self).access_fee && !old(self).red_info@.contains_key(public_key@)
                && !old(self).accounts@.contains_key(public_key@) ==> r is Ok,
            r is Err ==> *final(self) == *old(self),
            r is Ok ==> ({
                &&& ctx.attached_deposit > old(self).access_fee
                &&& r == Ok::<Action, LinkDropError>(
                    Action::AddClaimKey {
                        credential: public_key,
                        allowance: old(self).access_fee,
                        scope: KeyScope::Envelope,
                    },
                )
                &&& final(self).red_info@.contains_key(public_key@)
                &&& final(self).red_info@[public_key@]@ == fresh_envelope(
                    ctx.signer_account_id@,
                    mode,
                    count,
                    slogan@,
                    ctx.attached_deposit,
                )
                &&& final(self).red_info@ == old(self).red_info@.insert(
                    public_key@,
                    final(self).red_info@[public_key@],
                )
                &&& final(self).sender_redbag@.contains_key(ctx.signer_account_id@)
                &&& final(self).sender_redbag@ == old(self).sender_redbag@.insert(
                    ctx.signer_account_id@,
                    final(self).sender_redbag@[ctx.signer_account_id@],
                )
                &&& final(self).sender_redbag@[ctx.signer_account_id@]@ == index_of(
                    old(self).sender_redbag@,
                    ctx.signer_account_id@,
                ).push(public_key)
                &&& final(self).accounts@ == old(self).accounts@
                &&& final(self).receiver_redbag_record@ == old(self).receiver_redbag_record@
                &&& final(self).access_fee == old(self).access_fee
            }),
    {
        if ctx.attached_deposit <= self.access_fee {
            return Err(LinkDropError::InsufficientDeposit);
        }
        if self.red_info.contains(&public_key) || self.accounts.contains(&public_key) {
            return Err(LinkDropError::AlreadyExists);
        }
        let ghost s0 = *self;
        let deposit = ctx.attached_deposit;
        let issuer = ctx.signer_account_id.clone();
        let e = Envelope {
            issuer: ctx.signer_account_id.clone(),
            info: RedInfo { mode, count, slogan, balance: deposit, remaining_balance: deposit },
            claims: Vec::new(),
        };
        assert(e@.claims =~= Seq::<(Seq<char>, u128)>::empty());
        self.red_info.put(public_key.clone(), e);
        let mut list = match self.sender_redbag.take(&issuer) {
            Some(l) => l,
            None => Vec::new(),
        };
        assert(list@ == index_of(s0.sender_redbag@, issuer@));
        list.push(public_key.clone());
        self.sender_redbag.put(issuer, list);
        proof {
            let k = public_key@;
            let a0 = ctx.signer_account_id@;
            let idx = self.sender_redbag@;
            assert(idx =~= s0.sender_redbag@.insert(a0, idx[a0]));
            assert forall|a: Seq<char>, p: int|
                idx.contains_key(a) && 0 <= p < idx[a]@.len() implies self.red_info@.contains_key(
                #[trigger] idx[a]@[p]@,
            ) && self.red_info@[idx[a]@[p]@].issuer@ == a by {
                if a == a0 {
                    if p < idx[a]@.len() - 1 {
                        assert(idx[a]@[p] == index_of(s0.sender_redbag@, a0)[p]);
                        assert(s0.sender_redbag@[a]@[p] == idx[a]@[p]);
                    }
                } else {
                    assert(s0.sender_redbag@[a]@[p] == idx[a]@[p]);
                }
            }
            assert forall|a: Seq<char>, p: int, q: int|
                idx.contains_key(a) && 0 <= p < idx[a]@.len() && 0 <= q < idx[a]@.len()
                    && #[trigger] idx[a]@[p]@ == #[trigger] idx[a]@[q]@ implies p == q by {
                if a == a0 {
                    let n = idx[a]@.len() - 1;
                    if p < n {
                        assert(s0.sender_redbag@[a]@[p] == idx[a]@[p]);
                    }
                    if q < n {
                        assert(s0.sender_redbag@[a]@[q] == idx[a]@[q]);
                    }
                    if p < n && q < n {
                        assert(s0.sender_redbag@[a]@[p]@ == s0.sender_redbag@[a]@[q]@);
                    }
                } else {
                    assert(s0.sender_redbag@[a]@[p] == idx[a]@[p]);
                    assert(s0.sender_redbag@[a]@[q] == idx[a]@[q]);
                }
            }
            assert forall|k2: Seq<char>| #[trigger]
                self.red_info@.contains_key(k2) implies !self.accounts@.contains_key(k2)
                && envelope_ok(self.red_info@[k2]@) by {
                if k2 != k {
                    assert(s0.red_info@.contains_key(k2));
                }
            }
        }
        Ok(Action::AddClaimKey {
            credential: public_key,
            allowance: self.access_fee,
            scope: KeyScope::Envelope,
        })
    }

    /// Withdraws the signer's envelope under `public_key`: the envelope is
    /// deleted, its first listing under the signer removed, and what is left
    /// of it paid back to the signer.
    pub fn revoke(&mut self, ctx: &Context, public_key: String) -> (r: Result<Action, LinkDropError>)
        requires
            old(self).wf(),
        ensures
            final(self).wf(),
            !old(self).red_info@.contains_key(public_key@) ==> r == Err::<Action, LinkDropError>(
                LinkDropError::NotFound,
            ),
            old(self).red_info@.contains_key(public_key@) && !(exists|p: int|
                0 <= p < index_of(old(self).sender_redbag@, ctx.signer_account_id@).len()
                    && #[trigger] index_of(old(self).sender_redbag@, ctx.signer_account_id@)[p]@
                    == public_key@) ==> r == Err::<Action, LinkDropError>(LinkDropError::NotOwner),
            old(self).red_info@.contains_key(public_key@) && (exists|p: int|
                0 <= p < index_of(old(self).sender_redbag@, ctx.signer_account_id@).len()
                    && #[trigger] index_of(old(self).sender_redbag@, ctx.signer_account_id@)[p]@
                    == public_key@) ==> r is Ok,
            r is Err ==> unchanged(*old(self), *final(self)),
            r is Ok ==> ({
                let a = ctx.signer_account_id@;
                let before = old(self).sender_redbag@[a]@;
                let after = final(self).sender_redbag@[a]@;
                &&& r == Ok::<Action, LinkDropError>(
                    Action::Transfer {
                        receiver: ctx.signer_account_id,
                        amount: old(self).red_info@[public_key@].info.remaining_balance,
                    },
                )
                &&& final(self).red_info@ == old(self).red_info@.remove(public_key@)
                &&& old(self).sender_redbag@.contains_key(a)
                &&& final(self).sender_redbag@.contains_key(a)
                &&& final(self).sender_redbag@ == old(self).sender_redbag@.insert(a, final(self).sender_redbag@[a])
                &&& exists|p: int|
                    0 <= p < before.len() && #[trigger] before[p]@ == public_key@ && (forall|q: int|
                        0 <= q < p ==> before[q]@ != public_key@) && after == before.remove(p)
                &&& forall|q: int| 0 <= q < after.len() ==> #[trigger] after[q]@ != public_key@
                &&& final(self).accounts@ == old(self).accounts@
                &&& final(self).receiver_redbag_record@ == old(self).receiver_redbag_record@
                &&& final(self).access_fee == old(self).access_fee
            }),
    {
        if !self.red_info.contains(&public_key) {
            return Err(LinkDropError::NotFound);
        }
        let signer = &ctx.signer_account_id;
        let ghost s0 = *self;
        let ghost a0 = signer@;
        let p = match self.sender_redbag.get(signer) {
            None => {
                return Err(LinkDropError::NotOwner);
            },
            Some(list) => {
                let mut i: usize = 0;
                let mut found = false;
                while i < list.len()
                    invariant_except_break
                        !found,
                    invariant
                        i <= list@.len(),
                        forall|q: int| 0 <= q < i ==> list@[q]@ != public_key@,
                    ensures
                        found ==> i < list@.len() && list@[i as int]@ == public_key@,
                        !found ==> forall|q: int| 0 <= q < list@.len() ==> list@[q]@ != public_key@,
                    decreases list@.len() - i,
                {
                    if list[i] == public_key {
                        found = true;
                        break;
                    }
                    i = i + 1;
                }
                if !found {
                    assert(list@ == index_of(s0.sender_redbag@, a0));
                    return Err(LinkDropError::NotOwner);
                }
                i
            },
        };
        let e = match self.red_info.take(&public_key) {
            Some(e) => e,
            None => {
                return Err(LinkDropError::NotFound);
            },
        };
        let mut list = match self.sender_redbag.take(signer) {
            Some(l) => l,
            None => Vec::new(),
        };
        let ghost before = list@;
        let _ = list.remove(p);
        let ghost after = list@;
        self.sender_redbag.put(signer.clone(), list);
        proof {
            let k = public_key@;
            let idx = self.sender_redbag@;
            let old_idx = s0.sender_redbag@;
            assert(idx =~= old_idx.insert(a0, idx[a0]));
            assert(after =~= before.remove(p as int));
            assert forall|q: int| 0 <= q < after.len() implies #[trigger] after[q]@ != k by {
                if q < p {
                    assert(after[q] == before[q]);
                } else {
                    assert(after[q] == before[q + 1]);
                    assert(old_idx[a0]@[q + 1]@ != old_idx[a0]@[p as int]@);
                }
            }
            assert forall|a: Seq<char>, j: int|
                idx.contains_key(a) && 0 <= j < idx[a]@.len() implies self.red_info@.contains_key(
                #[trigger] idx[a]@[j]@,
            ) && self.red_info@[idx[a]@[j]@].issuer@ == a by {
                if a == a0 {
                    assert(after[j]@ != k);
                    if j < p {
                        assert(after[j] == before[j]);
                        assert(old_idx[a]@[j] == idx[a]@[j]);
                    } else {
                        assert(after[j] == before[j + 1]);
                        assert(old_idx[a]@[j + 1] == idx[a]@[j]);
                    }
                } else {
                    assert(old_idx[a]@[j] == idx[a]@[j]);
                    assert(old_idx[a0]@[p as int]@ == k);
                    assert(s0.red_info@[k].issuer@ == a0);
                }
            }
            assert forall|a: Seq<char>, i: int, j: int|
                idx.contains_key(a) && 0 <= i < idx[a]@.len() && 0 <= j < idx[a]@.len()
                    && #[trigger] idx[a]@[i]@ == #[trigger] idx[a]@[j]@ implies i == j by {
                if a == a0 {
                    let i1 = if i < p { i } else { i + 1 };
                    let j1 = if j < p { j } else { j + 1 };
                    assert(after[i] == before[i1]);
                    assert(after[j] == before[j1]);
                    assert(old_idx[a]@[i1]@ == old_idx[a]@[j1]@);
                } else {
                    assert(old_idx[a]@[i] == idx[a]@[i]);
                    assert(old_idx[a]@[j] == idx[a]@[j]);
                }
            }
            assert forall|k2: Seq<char>| #[trigger]
                self.red_info@.contains_key(k2) implies !self.accounts@.contains_key(k2)
                && envelope_ok(self.red_info@[k2]@) by {
                assert(s0.red_info@.contains_key(k2));
            }
            assert(before[p as int]@ == k);
            assert(index_of(old_idx, a0)[p as int]@ == k);
        }
        Ok(Action::Transfer { receiver: signer.clone(), amount: e.info.remaining_balance })
    }

    /// The envelope under `public_key`: its settings, balances and claims.
    pub fn show_claim_info(&self, public_key: &String) -> (r: Result<&Envelope, LinkDropError>)
        requires
            self.wf(),
        ensures
            !self.red_info@.contains_key(public_key@) ==> r == Err::<&Envelope, LinkDropError>(
                LinkDropError::NotFound,
            ),
            self.red_info@.contains_key(public_key@) ==> (r matches Ok(e) && *e == self.red_info@[public_key@]),
    {
        match self.red_info.get(public_key) {
            Some(e) => Ok(e),
            None => Err(LinkDropError::NotFound),
        }
    }

    /// The envelopes `account_id` has issued and not withdrawn, in order.
    pub fn show_redbag(&self, account_id: &String) -> (r: Vec<String>)
        requires
            self.wf(),
        ensures
            r@ == index_of(self.sender_redbag@, account_id@),
    {
        let mut r: Vec<String> = Vec::new();
        match self.sender_redbag.get(account_id) {
            None => {},
            Some(list) => {
                let mut i: usize = 0;
                while i < list.len()
                    invariant
                        i <= list@.len(),
                        r@ == list@.subrange(0, i as int),
                    decreases list@.len() - i,
                {
                    r.push(list[i].clone());
                    assert(r@ =~= list@.subrange(0, i + 1));
                    i = i + 1;
                }
                assert(list@.subrange(0, i as int) =~= list@);
            },
        }
        assert(r@ =~= index_of(self.sender_redbag@, account_id@));
        r
    }
}


impl Default for LinkDrop {
    /// An empty contract that keeps back `ACCESS_KEY_ALLOWANCE` from each deposit.
    fn default() -> (r: Self)
        ensures
            r.wf(),
            r.access_fee == ACCESS_KEY_ALLOWANCE,
            r.accounts@ == Map::<Seq<char>, u128>::empty(),
            r.red_info@ == Map::<Seq<char>, Envelope>::empty(),
            r.sender_redbag@ == Map::<Seq<char>, Vec<String>>::empty(),
            r.receiver_redbag_record@ == Map::<Seq<char>, Vec<ReceivedRedInfo>>::empty(),
    {
        LinkDrop::new(ACCESS_KEY_ALLOWANCE)
    }
}

} // verus!
