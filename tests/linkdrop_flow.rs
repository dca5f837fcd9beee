use linkdrop::allocator::{even_amount, fold_entropy, random_amount};
use linkdrop::contract::{Action, Callback, Context, KeyScope, LinkDrop, ACCESS_KEY_ALLOWANCE};
use linkdrop::envelope::{EVEN_MODE, RANDOM_MODE};
use linkdrop::account::is_valid_account;
use linkdrop::error::LinkDropError;

const FEE: u128 = 100;
const CONTRACT: &str = "linkdrop.near";

fn ctx(signer: &str, pk: &str, deposit: u128, seed: Vec<u8>) -> Context {
    Context {
        signer_account_id: signer.to_string(),
        signer_account_pk: pk.to_string(),
        predecessor_account_id: signer.to_string(),
        current_account_id: CONTRACT.to_string(),
        attached_deposit: deposit,
        random_seed: seed,
    }
}

fn callback_ctx() -> Context {
    Context {
        signer_account_id: "alice.near".to_string(),
        signer_account_pk: "ed25519:drop".to_string(),
        predecessor_account_id: CONTRACT.to_string(),
        current_account_id: CONTRACT.to_string(),
        attached_deposit: 0,
        random_seed: Vec::new(),
    }
}

fn key(s: &str) -> String {
    s.to_string()
}

#[test]
fn deposit_then_claim_pays_all_less_fee() {
    let mut drop = LinkDrop::new(FEE);
    let r = drop.send(&ctx("alice.near", "ed25519:alice", 1_000_000, vec![]), key("ed25519:drop"));
    assert_eq!(
        r,
        Ok(Action::AddClaimKey { credential: key("ed25519:drop"), allowance: FEE, scope: KeyScope::Linkdrop })
    );
    let r = drop.claim(&ctx("alice.near", "ed25519:drop", 0, vec![]), key("bob"));
    assert_eq!(
        r,
        Ok(vec![
            Action::Transfer { receiver: key("bob"), amount: 999_900 },
            Action::DeleteClaimKey { credential: key("ed25519:drop") },
        ])
    );
    assert_eq!(drop.get_key_balance(&key("ed25519:drop")), None);
}

#[test]
fn send_then_query_holds_amount_less_fee() {
    let mut drop = LinkDrop::new(FEE);
    assert!(drop.send(&ctx("a", "x", 5_000, vec![]), key("k1")).is_ok());
    assert_eq!(drop.get_key_balance(&key("k1")), Some(4_900));
}

#[test]
fn double_send_accumulates() {
    let mut drop = LinkDrop::new(FEE);
    assert!(drop.send(&ctx("a", "x", 1_000, vec![]), key("k1")).is_ok());
    assert!(drop.send(&ctx("b", "y", 2_500, vec![]), key("k1")).is_ok());
    assert_eq!(drop.get_key_balance(&key("k1")), Some(1_000 + 2_500 - 2 * FEE));
}

#[test]
fn send_at_or_below_fee_is_refused() {
    let mut drop = LinkDrop::new(FEE);
    assert_eq!(drop.send(&ctx("a", "x", FEE, vec![]), key("k1")), Err(LinkDropError::InsufficientDeposit));
    assert_eq!(drop.get_key_balance(&key("k1")), None);
    assert_eq!(
        drop.send_redbag(&ctx("a", "x", 10, vec![]), key("k2"), 3, RANDOM_MODE, key("hi")),
        Err(LinkDropError::InsufficientDeposit)
    );
}

#[test]
fn default_fee_is_access_key_allowance() {
    let mut drop = LinkDrop::default();
    assert_eq!(
        drop.send(&ctx("a", "x", ACCESS_KEY_ALLOWANCE, vec![]), key("k1")),
        Err(LinkDropError::InsufficientDeposit)
    );
    assert!(drop.send(&ctx("a", "x", ACCESS_KEY_ALLOWANCE + 7, vec![]), key("k1")).is_ok());
    assert_eq!(drop.get_key_balance(&key("k1")), Some(7));
}

#[test]
fn send_overflow_is_refused() {
    let mut drop = LinkDrop::new(FEE);
    assert!(drop.send(&ctx("a", "x", u128::MAX, vec![]), key("k1")).is_ok());
    assert_eq!(drop.send(&ctx("a", "x", 1_000, vec![]), key("k1")), Err(LinkDropError::AmountOverflow));
    assert_eq!(drop.get_key_balance(&key("k1")), Some(u128::MAX - FEE));
}

#[test]
fn key_of_envelope_cannot_take_deposit_and_back() {
    let mut drop = LinkDrop::new(FEE);
    assert!(drop.send_redbag(&ctx("a", "x", 1_000, vec![]), key("k1"), 2, EVEN_MODE, key("s")).is_ok());
    assert_eq!(drop.send(&ctx("a", "x", 1_000, vec![]), key("k1")), Err(LinkDropError::AlreadyExists));
    assert!(drop.send(&ctx("a", "x", 1_000, vec![]), key("k2")).is_ok());
    assert_eq!(
        drop.send_redbag(&ctx("a", "x", 1_000, vec![]), key("k2"), 2, EVEN_MODE, key("s")),
        Err(LinkDropError::AlreadyExists)
    );
    assert_eq!(
        drop.send_redbag(&ctx("b", "x", 1_000, vec![]), key("k1"), 2, EVEN_MODE, key("s")),
        Err(LinkDropError::AlreadyExists)
    );
    assert_eq!(drop.show_redbag(&key("b")), Vec::<String>::new());
}

#[test]
fn unknown_credential_is_refused_without_change() {
    let mut drop = LinkDrop::new(FEE);
    assert!(drop.send(&ctx("a", "x", 1_000, vec![]), key("k1")).is_ok());
    assert_eq!(drop.claim(&ctx("a", "nope", 0, vec![]), key("bob")), Err(LinkDropError::UnknownCredential));
    assert_eq!(
        drop.create_account_and_claim(&ctx("a", "nope", 0, vec![]), key("bob"), key("ed25519:bob")),
        Err(LinkDropError::UnknownCredential)
    );
    assert_eq!(drop.get_key_balance(&key("k1")), Some(900));
    assert!(drop.receiver_redbag_record.get(&key("bob")).is_none());
}

#[test]
fn envelope_exhausts_after_capacity() {
    let mut drop = LinkDrop::new(FEE);
    assert_eq!(
        drop.send_redbag(&ctx("alice", "x", 1_000, vec![]), key("env"), 2, EVEN_MODE, key("gl")),
        Ok(Action::AddClaimKey { credential: key("env"), allowance: FEE, scope: KeyScope::Envelope })
    );
    let c = ctx("alice", "env", 0, vec![]);
    assert_eq!(drop.claim(&c, key("bob")), Ok(vec![Action::Transfer { receiver: key("bob"), amount: 500 }]));
    assert_eq!(drop.claim(&c, key("carol")), Ok(vec![Action::Transfer { receiver: key("carol"), amount: 500 }]));
    assert_eq!(drop.claim(&c, key("dave")), Err(LinkDropError::Exhausted));
    let e = drop.show_claim_info(&key("env")).ok().unwrap();
    assert_eq!(e.claims.len(), 2);
    assert_eq!(e.info.remaining_balance, 0);
    assert!(drop.receiver_redbag_record.get(&key("dave")).is_none());
}

#[test]
fn even_split_divides_by_slots_left() {
    let mut drop = LinkDrop::new(FEE);
    assert!(drop.send_redbag(&ctx("alice", "x", 1_000, vec![]), key("env"), 3, EVEN_MODE, key("gl")).is_ok());
    let c = ctx("alice", "env", 0, vec![]);
    assert_eq!(drop.claim(&c, key("bb")), Ok(vec![Action::Transfer { receiver: key("bb"), amount: 333 }]));
    assert_eq!(drop.claim(&c, key("cc")), Ok(vec![Action::Transfer { receiver: key("cc"), amount: 333 }]));
    assert_eq!(drop.claim(&c, key("dd")), Ok(vec![Action::Transfer { receiver: key("dd"), amount: 334 }]));
}

#[test]
fn same_claimant_cannot_claim_twice() {
    let mut drop = LinkDrop::new(FEE);
    assert!(drop.send_redbag(&ctx("alice", "x", 1_000, vec![]), key("env"), 5, EVEN_MODE, key("gl")).is_ok());
    let c = ctx("alice", "env", 0, vec![]);
    assert!(drop.claim(&c, key("bob")).is_ok());
    assert_eq!(drop.claim(&c, key("bob")), Err(LinkDropError::AlreadyClaimed));
    assert_eq!(
        drop.create_account_and_claim(&c, key("bob"), key("ed25519:bob")),
        Err(LinkDropError::AlreadyClaimed)
    );
    assert_eq!(drop.show_claim_info(&key("env")).ok().unwrap().claims.len(), 1);
}

#[test]
fn random_payouts_never_exceed_deposit() {
    let mut drop = LinkDrop::new(FEE);
    let total: u128 = 1_000_000;
    assert!(drop.send_redbag(&ctx("alice", "x", total, vec![]), key("env"), 6, RANDOM_MODE, key("gl")).is_ok());
    let mut paid: u128 = 0;
    let mut last_remaining = total;
    for (i, name) in ["aa", "bb", "cc", "dd", "ee", "ff"].iter().enumerate() {
        let c = ctx("alice", "env", 0, vec![(i as u8) * 50, 7]);
        match drop.claim(&c, key(name)) {
            Ok(v) => match &v[0] {
                Action::Transfer { amount, .. } => paid += *amount,
                _ => panic!("expected a transfer"),
            },
            Err(e) => panic!("unexpected refusal {:?}", e),
        }
        let e = drop.show_claim_info(&key("env")).ok().unwrap();
        assert!(e.info.remaining_balance <= last_remaining);
        last_remaining = e.info.remaining_balance;
        assert_eq!(paid + e.info.remaining_balance, total);
    }
    assert!(paid <= total);
}

#[test]
fn random_amount_blocks() {
    assert_eq!(random_amount(25_500, &vec![]), 100);
    assert_eq!(random_amount(25_500, &vec![255]), 25_300);
    assert_eq!(random_amount(25_500, &vec![254]), 25_300);
    assert_eq!(random_amount(25_500, &vec![100, 200]), 4_400);
    assert_eq!(random_amount(25_500, &vec![128, 128]), 100);
    assert_eq!(random_amount(254, &vec![9]), 0);
    let r: u128 = 987_654_321;
    for b in 0..=255u8 {
        let v = random_amount(r, &vec![b, 3]);
        assert!(r / 255 <= v && v <= 253 * (r / 255));
        assert_eq!(v, random_amount(r, &vec![b, 3]));
    }
}

#[test]
fn fold_and_even_split() {
    assert_eq!(fold_entropy(&vec![200, 100]), 44);
    assert_eq!(fold_entropy(&vec![1, 2, 3]), 6);
    assert_eq!(fold_entropy(&vec![]), 0);
    assert_eq!(even_amount(100, 3), 33);
    assert_eq!(even_amount(100, 1), 100);
}

#[test]
fn failed_account_creation_restores_deposit() {
    let mut drop = LinkDrop::new(FEE);
    assert!(drop.send(&ctx("alice", "x", 10_100, vec![]), key("ed25519:drop")).is_ok());
    let r = drop.create_account_and_claim(&ctx("alice", "ed25519:drop", 0, vec![]), key("new.near"), key("ed25519:new"));
    assert_eq!(
        r,
        Ok(vec![Action::CreateAccount {
            new_account_id: key("new.near"),
            owner_key: key("ed25519:new"),
            amount: 10_000,
            callback: Callback::AccountCreatedAndClaimed { credential: key("ed25519:drop"), amount: 10_000 },
        }])
    );
    assert_eq!(drop.get_key_balance(&key("ed25519:drop")), None);
    assert_eq!(
        drop.on_account_created_and_claimed(&callback_ctx(), key("ed25519:drop"), 10_000, false),
        Ok(vec![])
    );
    assert_eq!(drop.get_key_balance(&key("ed25519:drop")), Some(10_000));
}

#[test]
fn successful_account_creation_retires_key() {
    let mut drop = LinkDrop::new(FEE);
    assert!(drop.send(&ctx("alice", "x", 10_100, vec![]), key("ed25519:drop")).is_ok());
    assert!(drop.create_account_and_claim(&ctx("alice", "ed25519:drop", 0, vec![]), key("n.near"), key("k")).is_ok());
    assert_eq!(
        drop.on_account_created_and_claimed(&callback_ctx(), key("ed25519:drop"), 10_000, true),
        Ok(vec![Action::DeleteClaimKey { credential: key("ed25519:drop") }])
    );
    assert_eq!(drop.get_key_balance(&key("ed25519:drop")), None);
}

#[test]
fn callbacks_only_from_contract_itself() {
    let mut drop = LinkDrop::new(FEE);
    let outsider = ctx("mallory", "x", 0, vec![]);
    assert_eq!(
        drop.on_account_created_and_claimed(&outsider, key("k"), 500, false),
        Err(LinkDropError::Unauthorized)
    );
    assert_eq!(drop.get_key_balance(&key("k")), None);
    assert_eq!(drop.on_account_created(&outsider, key("p"), 500, false), Err(LinkDropError::Unauthorized));
}

#[test]
fn refund_conflicting_with_envelope_fails() {
    let mut drop = LinkDrop::new(FEE);
    assert!(drop.send_redbag(&ctx("alice", "x", 1_000, vec![]), key("k"), 1, EVEN_MODE, key("s")).is_ok());
    assert_eq!(
        drop.on_account_created_and_claimed(&callback_ctx(), key("k"), 500, false),
        Err(LinkDropError::CompensationFailed)
    );
    assert_eq!(drop.get_key_balance(&key("k")), None);
}

#[test]
fn failed_envelope_account_refunds_payer() {
    let mut drop = LinkDrop::new(FEE);
    assert!(drop.send_redbag(&ctx("alice", "x", 900, vec![]), key("env"), 3, EVEN_MODE, key("s")).is_ok());
    let mut c = ctx("alice", "env", 0, vec![]);
    c.predecessor_account_id = CONTRACT.to_string();
    assert_eq!(
        drop.create_account_and_claim(&c, key("new.near"), key("ed25519:n")),
        Ok(vec![Action::CreateAccount {
            new_account_id: key("new.near"),
            owner_key: key("ed25519:n"),
            amount: 300,
            callback: Callback::AccountCreated { payer: key(CONTRACT), amount: 300 },
        }])
    );
    assert_eq!(
        drop.on_account_created(&callback_ctx(), key(CONTRACT), 300, false),
        Ok(vec![Action::Transfer { receiver: key(CONTRACT), amount: 300 }])
    );
    assert_eq!(drop.on_account_created(&callback_ctx(), key(CONTRACT), 300, true), Ok(vec![]));
    let rec = drop.receiver_redbag_record.get(&key("new.near")).unwrap();
    assert_eq!(rec.len(), 1);
    assert_eq!(rec[0].amount, 300);
    assert_eq!(rec[0].redbag, key("env"));
}

#[test]
fn revoke_removes_one_listing_and_refunds() {
    let mut drop = LinkDrop::new(FEE);
    let alice = ctx("alice", "x", 1_000, vec![]);
    assert!(drop.send_redbag(&alice, key("e1"), 2, EVEN_MODE, key("s")).is_ok());
    assert!(drop.send_redbag(&alice, key("e2"), 2, EVEN_MODE, key("s")).is_ok());
    assert!(drop.send_redbag(&alice, key("e3"), 2, EVEN_MODE, key("s")).is_ok());
    assert_eq!(drop.show_redbag(&key("alice")), vec![key("e1"), key("e2"), key("e3")]);
    assert!(drop.claim(&ctx("alice", "e2", 0, vec![]), key("bob")).is_ok());
    assert_eq!(
        drop.revoke(&alice, key("e2")),
        Ok(Action::Transfer { receiver: key("alice"), amount: 500 })
    );
    assert_eq!(drop.show_redbag(&key("alice")), vec![key("e1"), key("e3")]);
    assert_eq!(drop.show_claim_info(&key("e2")).err(), Some(LinkDropError::NotFound));
    assert_eq!(drop.revoke(&alice, key("e2")), Err(LinkDropError::NotFound));
    assert_eq!(drop.claim(&ctx("alice", "e2", 0, vec![]), key("carol")), Err(LinkDropError::UnknownCredential));
}

#[test]
fn revoke_by_other_issuer_is_refused() {
    let mut drop = LinkDrop::new(FEE);
    assert!(drop.send_redbag(&ctx("alice", "x", 1_000, vec![]), key("e1"), 2, EVEN_MODE, key("s")).is_ok());
    assert_eq!(drop.revoke(&ctx("mallory", "x", 0, vec![]), key("e1")), Err(LinkDropError::NotOwner));
    assert_eq!(drop.show_redbag(&key("alice")), vec![key("e1")]);
    assert!(drop.show_claim_info(&key("e1")).is_ok());
}

#[test]
fn claim_info_shows_settings_and_claims() {
    let mut drop = LinkDrop::new(FEE);
    assert!(drop.send_redbag(&ctx("alice", "x", 1_000, vec![]), key("e1"), 4, EVEN_MODE, key("hello")).is_ok());
    assert!(drop.claim(&ctx("alice", "e1", 0, vec![]), key("bob")).is_ok());
    let e = drop.show_claim_info(&key("e1")).ok().unwrap();
    assert_eq!(e.issuer, key("alice"));
    assert_eq!(e.info.count, 4);
    assert_eq!(e.info.mode, EVEN_MODE);
    assert_eq!(e.info.slogan, key("hello"));
    assert_eq!(e.info.balance, 1_000);
    assert_eq!(e.info.remaining_balance, 750);
    assert_eq!(e.claims[0].account, key("bob"));
    assert_eq!(e.claims[0].amount, 250);
    assert_eq!(drop.show_claim_info(&key("zzz")).err(), Some(LinkDropError::NotFound));
}

#[test]
fn zero_capacity_envelope_is_exhausted() {
    let mut drop = LinkDrop::new(FEE);
    assert!(drop.send_redbag(&ctx("alice", "x", 1_000, vec![]), key("e1"), 0, RANDOM_MODE, key("s")).is_ok());
    assert_eq!(drop.claim(&ctx("alice", "e1", 0, vec![]), key("bob")), Err(LinkDropError::Exhausted));
}

#[test]
fn invalid_account_id_is_refused_without_change() {
    let mut drop = LinkDrop::new(FEE);
    assert!(drop.send(&ctx("alice", "x", 1_000, vec![]), key("k1")).is_ok());
    let c = ctx("alice", "k1", 0, vec![]);
    assert_eq!(drop.claim(&c, key("")), Err(LinkDropError::InvalidAccountIdentifier));
    assert_eq!(drop.claim(&c, key("Bob")), Err(LinkDropError::InvalidAccountIdentifier));
    assert_eq!(
        drop.create_account_and_claim(&c, key("x"), key("ed25519:x")),
        Err(LinkDropError::InvalidAccountIdentifier)
    );
    assert_eq!(
        drop.create_account_and_claim(&c, key("bad..name"), key("ed25519:x")),
        Err(LinkDropError::InvalidAccountIdentifier)
    );
    assert_eq!(drop.get_key_balance(&key("k1")), Some(900));
    assert!(drop.send_redbag(&ctx("alice", "x", 1_000, vec![]), key("env"), 2, EVEN_MODE, key("s")).is_ok());
    let e = ctx("alice", "env", 0, vec![]);
    assert_eq!(drop.claim(&e, key("-bob")), Err(LinkDropError::InvalidAccountIdentifier));
    assert_eq!(drop.show_claim_info(&key("env")).ok().unwrap().claims.len(), 0);
}

#[test]
fn account_id_check_follows_ledger_rules() {
    assert!(is_valid_account(&key("bob.near")));
    assert!(is_valid_account(&key("a-b_c.d")));
    assert!(!is_valid_account(&key("")));
    assert!(!is_valid_account(&key("b")));
    assert!(!is_valid_account(&key("Bob")));
    assert!(!is_valid_account(&key("bob.")));
}

#[test]
fn checked_claim_takes_the_validity_as_given() {
    let mut drop = LinkDrop::new(FEE);
    assert!(drop.send(&ctx("alice", "x", 1_000, vec![]), key("k1")).is_ok());
    let c = ctx("alice", "k1", 0, vec![]);
    assert_eq!(
        drop.claim_checked(&c, key("bob"), false),
        Err(LinkDropError::InvalidAccountIdentifier)
    );
    assert_eq!(
        drop.create_account_and_claim_checked(&c, key("bob"), key("ed25519:b"), false),
        Err(LinkDropError::InvalidAccountIdentifier)
    );
    assert_eq!(drop.get_key_balance(&key("k1")), Some(900));
    assert_eq!(
        drop.claim_checked(&c, key("bob"), true),
        Ok(vec![
            Action::Transfer { receiver: key("bob"), amount: 900 },
            Action::DeleteClaimKey { credential: key("k1") },
        ])
    );
}

#[test]
fn claim_after_two_deposits_pays_the_sum() {
    let mut drop = LinkDrop::new(FEE);
    assert!(drop.send(&ctx("alice", "x", 1_000, vec![]), key("k1")).is_ok());
    assert!(drop.send(&ctx("carol", "y", 4_000, vec![]), key("k1")).is_ok());
    assert_eq!(
        drop.claim(&ctx("alice", "k1", 0, vec![]), key("bob.near")),
        Ok(vec![
            Action::Transfer { receiver: key("bob.near"), amount: 1_000 + 4_000 - 2 * FEE },
            Action::DeleteClaimKey { credential: key("k1") },
        ])
    );
}
