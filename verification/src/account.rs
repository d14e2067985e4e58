//! Account identifiers.
//!
//! The marketplace never interprets an account identifier: it only compares
//! identifiers for equality (ownership, organizer and whitelist checks) and
//! hands them to the external ledger. An identifier is therefore modelled as
//! the sequence of bytes that names the account on the host platform.

use vstd::prelude::*;

verus! {

/// An opaque account identifier: the bytes that name an account on the
/// host platform. Two identifiers denote the same account exactly when
/// their bytes are equal.
#[derive(Debug)]
pub struct AccountId {
    pub bytes: Vec<u8>,
}

impl View for AccountId {
    type V = Seq<u8>;

    open spec fn view(&self) -> Seq<u8> {
        self.bytes@
    }
}

impl AccountId {
    pub fn new(bytes: Vec<u8>) -> (r: AccountId)
        ensures
            r@ == bytes@,
    {
        AccountId { bytes }
    }
}

impl Clone for AccountId {
    fn clone(&self) -> (r: Self)
        ensures
            r@ == self@,
    {
        AccountId { bytes: self.bytes.clone() }
    }
}

impl PartialEq for AccountId {
    fn eq(&self, other: &Self) -> (r: bool) {
        let r = self.bytes == other.bytes;
        proof {
            if r {
                assert(self.bytes@ =~= other.bytes@);
            }
        }
        r
    }
}

impl vstd::std_specs::cmp::PartialEqSpecImpl for AccountId {
    open spec fn obeys_eq_spec() -> bool {
        true
    }

    open spec fn eq_spec(&self, other: &Self) -> bool {
        self@ == other@
    }
}

/// The byte sequences of a whitelist, in order.
pub open spec fn accounts_view(s: Seq<AccountId>) -> Seq<Seq<u8>> {
    s.map_values(|a: AccountId| a@)
}

/// Whether `who` names the same account as some entry of `list`.
pub open spec fn account_in(list: Seq<AccountId>, who: Seq<u8>) -> bool {
    exists|i: int| 0 <= i < list.len() && list[i]@ == who
}

/// Whether `who` occurs among the byte sequences of `list`.
pub open spec fn bytes_in(list: Seq<Seq<u8>>, who: Seq<u8>) -> bool {
    exists|i: int| 0 <= i < list.len() && list[i] == who
}

/// Membership in a whitelist and membership among its byte sequences
/// coincide.
pub proof fn lemma_account_in_view(list: Seq<AccountId>, who: Seq<u8>)
    ensures
        account_in(list, who) == bytes_in(accounts_view(list), who),
{
    if account_in(list, who) {
        let i = choose|i: int| 0 <= i < list.len() && list[i]@ == who;
        assert(accounts_view(list)[i] == who);
    }
    if bytes_in(accounts_view(list), who) {
        let i = choose|i: int| 0 <= i < accounts_view(list).len() && accounts_view(list)[i]
            == who;
        assert(list[i]@ == who);
    }
}

/// Linear membership test against a whitelist.
pub fn contains_account(list: &Vec<AccountId>, who: &AccountId) -> (r: bool)
    ensures
        r == account_in(list@, who@),
{
    let mut i: usize = 0;
    while i < list.len()
        invariant
            0 <= i <= list@.len(),
            forall|j: int| 0 <= j < i ==> list@[j]@ != who@,
        decreases list@.len() - i,
    {
        if &list[i] == who {
            return true;
        }
        i = i + 1;
    }
    false
}

/// Clones each entry of a whitelist, keeping the account bytes.
pub fn clone_accounts(list: &Vec<AccountId>) -> (r: Vec<AccountId>)
    ensures
        accounts_view(r@) == accounts_view(list@),
{
    let mut out: Vec<AccountId> = Vec::new();
    let mut i: usize = 0;
    while i < list.len()
        invariant
            0 <= i <= list@.len(),
            out@.len() == i,
            forall|j: int| 0 <= j < i ==> out@[j]@ == #[trigger] list@[j]@,
        decreases list@.len() - i,
    {
        out.push(list[i].clone());
        i = i + 1;
    }
    proof {
        assert(accounts_view(out@) =~= accounts_view(list@));
    }
    out
}

} // verus!
