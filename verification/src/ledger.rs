//! Balance & stake ledger: the accounts the pipeline credits, and the claim
//! keys the replay guard has admitted.

use vstd::prelude::*;
use crate::bytes::bytes_eq;
use crate::ident::ActorId;

verus! {

/// One account of the ledger. Created lazily on a beneficiary's first
/// deposit and never deleted.
#[derive(Debug, Clone)]
pub struct Account {
    pub identity: ActorId,
    pub balance: u128,
    pub staked_amount: u128,
    pub pending_rewards: u128,
}

/// Mathematical image of an account.
pub struct AccountView {
    pub identity: Seq<u8>,
    pub balance: u128,
    pub staked_amount: u128,
    pub pending_rewards: u128,
}

impl View for Account {
    type V = AccountView;

    open spec fn view(&self) -> AccountView {
        AccountView {
            identity: self.identity@,
            balance: self.balance,
            staked_amount: self.staked_amount,
            pending_rewards: self.pending_rewards,
        }
    }
}

/// The images of a sequence of accounts.
pub open spec fn accounts_view(s: Seq<Account>) -> Seq<AccountView> {
    s.map_values(|a: Account| a@)
}

/// The key under which a claim is remembered by the replay guard.
#[derive(Debug, Clone, Copy, PartialEq, Eq, Hash, Structural)]
pub struct ClaimKey {
    pub slot: u64,
    pub transaction_index: u32,
}

#[derive(Debug, Clone, Copy, PartialEq, Eq, Structural)]
pub enum LedgerError {
    /// Crediting the deposit would overflow the balance or the stake.
    Overflow,
}

#[derive(Debug, Clone, Copy, PartialEq, Eq, Structural)]
pub enum ReplayError {
    /// The claim key has already been applied.
    AlreadyProcessed,
}

/// The first account with the given identity, if any.
pub open spec fn account_of(s: Seq<AccountView>, id: Seq<u8>) -> Option<AccountView>
    decreases s.len(),
{
    if s.len() == 0 {
        Option::None
    } else if s[0].identity == id {
        Option::Some(s[0])
    } else {
        account_of(s.subrange(1, s.len() as int), id)
    }
}

/// The balance held for an identity; zero when it has no account yet.
pub open spec fn balance_of(s: Seq<AccountView>, id: Seq<u8>) -> u128 {
    match account_of(s, id) {
        Option::None => 0,
        Option::Some(a) => a.balance,
    }
}

/// The staked amount held for an identity; zero when it has no account yet.
pub open spec fn staked_of(s: Seq<AccountView>, id: Seq<u8>) -> u128 {
    match account_of(s, id) {
        Option::None => 0,
        Option::Some(a) => a.staked_amount,
    }
}

/// The pending rewards of an identity; zero when it has no account yet.
pub open spec fn rewards_of(s: Seq<AccountView>, id: Seq<u8>) -> u128 {
    match account_of(s, id) {
        Option::None => 0,
        Option::Some(a) => a.pending_rewards,
    }
}

pub proof fn lemma_account_of_first_match(s: Seq<AccountView>, id: Seq<u8>, i: int)
    requires
        0 <= i < s.len(),
        forall|j: int| 0 <= j < i ==> s[j].identity != id,
        s[i].identity == id,
    ensures
        account_of(s, id) == Option::Some(s[i]),
    decreases i,
{
    if i > 0 {
        lemma_account_of_first_match(s.subrange(1, s.len() as int), id, i - 1);
    }
}

pub proof fn lemma_account_of_absent(s: Seq<AccountView>, id: Seq<u8>)
    requires
        forall|j: int| 0 <= j < s.len() ==> s[j].identity != id,
    ensures
        account_of(s, id) is None,
    decreases s.len(),
{
    if s.len() > 0 {
        lemma_account_of_absent(s.subrange(1, s.len() as int), id);
    }
}

pub proof fn lemma_account_of_update_other(s: Seq<AccountView>, i: int, a: AccountView, id2: Seq<u8>)
    requires
        0 <= i < s.len(),
        a.identity == s[i].identity,
        id2 != a.identity,
    ensures
        account_of(s.update(i, a), id2) == account_of(s, id2),
    decreases s.len(),
{
    let su = s.update(i, a);
    if i == 0 {
        assert(su.subrange(1, su.len() as int) =~= s.subrange(1, s.len() as int));
    } else {
        assert(su.subrange(1, su.len() as int) =~= s.subrange(1, s.len() as int).update(
            i - 1,
            a,
        ));
        lemma_account_of_update_other(s.subrange(1, s.len() as int), i - 1, a, id2);
    }
}

pub proof fn lemma_account_of_push_other(s: Seq<AccountView>, a: AccountView, id2: Seq<u8>)
    requires
        id2 != a.identity,
    ensures
        account_of(s.push(a), id2) == account_of(s, id2),
    decreases s.len(),
{
    let sp = s.push(a);
    if s.len() == 0 {
        assert(sp[0] == a);
        assert(account_of(sp.subrange(1, sp.len() as int), id2) is None);
        assert(account_of(s, id2) is None);
    } else {
        assert(sp[0] == s[0]);
        assert(sp.subrange(1, sp.len() as int) =~= s.subrange(1, s.len() as int).push(a));
        lemma_account_of_push_other(s.subrange(1, s.len() as int), a, id2);
    }
}

pub proof fn lemma_account_of_push_self(s: Seq<AccountView>, a: AccountView)
    requires
        forall|j: int| 0 <= j < s.len() ==> s[j].identity != a.identity,
    ensures
        account_of(s.push(a), a.identity) == Option::Some(a),
    decreases s.len(),
{
    let sp = s.push(a);
    if s.len() == 0 {
        assert(sp[0] == a);
    } else {
        assert(sp[0] == s[0]);
        assert(sp.subrange(1, sp.len() as int) =~= s.subrange(1, s.len() as int).push(a));
        lemma_account_of_push_self(s.subrange(1, s.len() as int), a);
    }
}

/// Credits a verified deposit to its beneficiary: the balance and the staked
/// amount each grow by `amount`, an account being created on first deposit;
/// on overflow of either sum nothing changes.
pub(crate) fn credit(accounts: &mut Vec<Account>, beneficiary: &ActorId, amount: u128) -> (r:
    Result<(), LedgerError>)
    ensures
        ({
            let pre = accounts_view(old(accounts)@);
            let post = accounts_view(final(accounts)@);
            let id = beneficiary@;
            &&& (r is Ok <==> balance_of(pre, id) + amount <= u128::MAX
                && staked_of(pre, id) + amount <= u128::MAX)
            &&& (r is Ok ==> {
                &&& balance_of(post, id) == balance_of(pre, id) + amount
                &&& staked_of(post, id) == staked_of(pre, id) + amount
                &&& rewards_of(post, id) == rewards_of(pre, id)
                &&& account_of(post, id) is Some
                &&& forall|id2: Seq<u8>| id2 != id ==> account_of(post, id2) == account_of(
                    pre,
                    id2,
                )
            })
            &&& (r is Err ==> r == Err::<(), LedgerError>(LedgerError::Overflow) && post == pre)
        }),
{
    let ghost pre = accounts_view(accounts@);
    let ghost id = beneficiary@;
    let mut i: usize = 0;
    while i < accounts.len()
        invariant
            i <= accounts@.len(),
            accounts@ == old(accounts)@,
            pre == accounts_view(accounts@),
            id == beneficiary@,
            forall|j: int| 0 <= j < i ==> pre[j].identity != id,
        decreases accounts@.len() - i,
    {
        if bytes_eq(&accounts[i].identity.bytes, &beneficiary.bytes) {
            proof {
                assert(pre[i as int] == accounts@[i as int]@);
                assert(pre[i as int].identity == id);
                lemma_account_of_first_match(pre, id, i as int);
            }
            let bal: u128 = accounts[i].balance;
            let stk: u128 = accounts[i].staked_amount;
            let rew: u128 = accounts[i].pending_rewards;
            assert(balance_of(pre, id) == bal && staked_of(pre, id) == stk
                && rewards_of(pre, id) == rew);
            if amount > u128::MAX - bal || amount > u128::MAX - stk {
                return Err(LedgerError::Overflow);
            }
            let updated = Account {
                identity: accounts[i].identity.duplicate(),
                balance: bal + amount,
                staked_amount: stk + amount,
                pending_rewards: rew,
            };
            let ghost ua = updated@;
            accounts.set(i, updated);
            proof {
                let post = accounts_view(accounts@);
                assert(forall|j: int| 0 <= j < post.len() ==> post[j] == accounts@[j]@);
                assert(post =~= pre.update(i as int, ua));
                assert(ua.identity == id);
                assert(forall|j: int| 0 <= j < i ==> post[j] == pre[j]);
                lemma_account_of_first_match(post, id, i as int);
                assert forall|id2: Seq<u8>| id2 != id implies account_of(post, id2)
                    == account_of(pre, id2) by {
                    lemma_account_of_update_other(pre, i as int, ua, id2);
                }
            }
            return Ok(());
        }
        i = i + 1;
    }
    proof {
        lemma_account_of_absent(pre, id);
    }
    let fresh = Account {
        identity: beneficiary.duplicate(),
        balance: amount,
        staked_amount: amount,
        pending_rewards: 0,
    };
    let ghost fa = fresh@;
    accounts.push(fresh);
    proof {
        let post = accounts_view(accounts@);
        assert(forall|j: int| 0 <= j < post.len() ==> post[j] == accounts@[j]@);
        assert(post =~= pre.push(fa));
        assert(fa.identity == id);
        lemma_account_of_push_self(pre, fa);
        assert forall|id2: Seq<u8>| id2 != id implies account_of(post, id2) == account_of(
            pre,
            id2,
        ) by {
            lemma_account_of_push_other(pre, fa, id2);
        }
    }
    Ok(())
}

} // verus!
