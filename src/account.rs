use vstd::prelude::*;

verus! {

/// Whether `id` is a valid account id of the ledger, as near-sdk decides it.
pub uninterp spec fn valid_account_of(id: Seq<char>) -> bool;

/// Relies on `near_sdk::env::is_valid_account_id`, which looks at the id's
/// bytes alone (length between 2 and 64, lower-case letters and digits
/// joined by single separators); in particular an empty id is refused.
#[verifier::external_body]
pub fn is_valid_account(id: &String) -> (r: bool)
    ensures
        r == valid_account_of(id@),
        id@.len() == 0 ==> !r,
{
    near_sdk::env::is_valid_account_id(id.as_bytes())
}

} // verus!
