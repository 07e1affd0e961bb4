//! What is gathered for a call, account by account.
use crate::access_list::{
    gathered, joined, with_always_touched, AccessListItem, HintRun, HintRunView, ItemView,
};
use crate::account::{Account, AccountView};
use crate::error::{ErrorView, ProviderError};
use crate::primitives::Address;
use vstd::prelude::*;

verus! {

/// Where gathering succeeds, each address of the list has the very account that was answered for
/// the last entry of that address: its state, its code and its proofs.
pub proof fn law_each_account_is_as_it_was_answered(
    so_far: Map<(u32, u128), AccountView>,
    items: Seq<ItemView>,
    answers: Seq<Result<AccountView, ErrorView>>,
    at: int,
)
    requires
        items.len() == answers.len(),
        gathered(so_far, items, answers) is Ok,
        0 <= at < items.len(),
        forall|j: int| at < j < items.len() ==> (#[trigger] items[j]).address != items[at].address,
    ensures
        answers[at] is Ok,
        ({
            let accounts = gathered(so_far, items, answers)->Ok_0;
            let key = (items[at].address.hi, items[at].address.lo);
            &&& accounts.contains_key(key)
            &&& accounts[key] == answers[at]->Ok_0
        }),
    decreases items.len(),
{
    let grown = so_far.insert(items[0].address.pair(), answers[0]->Ok_0);
    let rest = items.drop_first();
    let others = answers.drop_first();
    if at > 0 {
        assert(rest[at - 1] == items[at]);
        assert(others[at - 1] == answers[at]);
        assert forall|j: int| at - 1 < j < rest.len() implies (#[trigger] rest[j]).address
            != rest[at - 1].address by {
            assert(rest[j] == items[j + 1]);
        }
        law_each_account_is_as_it_was_answered(grown, rest, others, at - 1);
    } else {
        assert forall|j: int| 0 <= j < rest.len() implies (#[trigger] rest[j]).address
            != items[0].address by {
            assert(rest[j] == items[j + 1]);
        }
        law_accounts_that_are_not_listed_stay(grown, rest, others, items[0].address);
    }
}

/// An account that the list does not name is as it was.
pub proof fn law_accounts_that_are_not_listed_stay(
    so_far: Map<(u32, u128), AccountView>,
    items: Seq<ItemView>,
    answers: Seq<Result<AccountView, ErrorView>>,
    address: Address,
)
    requires
        items.len() == answers.len(),
        gathered(so_far, items, answers) is Ok,
        forall|i: int| 0 <= i < items.len() ==> (#[trigger] items[i]).address != address,
    ensures
        ({
            let accounts = gathered(so_far, items, answers)->Ok_0;
            let key = (address.hi, address.lo);
            &&& accounts.contains_key(key) == so_far.contains_key(key)
            &&& so_far.contains_key(key) ==> accounts[key] == so_far[key]
        }),
    decreases items.len(),
{
    if items.len() > 0 {
        let grown = so_far.insert(items[0].address.pair(), answers[0]->Ok_0);
        let rest = items.drop_first();
        assert forall|i: int| 0 <= i < rest.len() implies (#[trigger] rest[i]).address
            != address by {
            assert(rest[i] == items[i + 1]);
        }
        assert(items[0].address != address);
        law_accounts_that_are_not_listed_stay(grown, rest, answers.drop_first(), address);
    }
}

/// Gathering succeeds exactly where every answer is an account, and else fails with the first
/// error.
pub proof fn law_gathering_fails_with_the_first_error(
    so_far: Map<(u32, u128), AccountView>,
    items: Seq<ItemView>,
    answers: Seq<Result<AccountView, ErrorView>>,
)
    requires
        items.len() == answers.len(),
    ensures
        gathered(so_far, items, answers) is Ok <==> forall|i: int|
            0 <= i < answers.len() ==> (#[trigger] answers[i]) is Ok,
        gathered(so_far, items, answers) is Err ==> exists|i: int|
            {
                &&& 0 <= i < answers.len()
                &&& (#[trigger] answers[i]) is Err
                &&& answers[i]->Err_0 == gathered(so_far, items, answers)->Err_0
                &&& forall|j: int| 0 <= j < i ==> (#[trigger] answers[j]) is Ok
            },
    decreases items.len(),
{
    if items.len() > 0 {
        if answers[0] is Ok {
            let grown = so_far.insert(items[0].address.pair(), answers[0]->Ok_0);
            let rest = items.drop_first();
            let others = answers.drop_first();
            law_gathering_fails_with_the_first_error(grown, rest, others);
            assert(forall|i: int| 0 <= i < others.len() ==> (#[trigger] others[i]) == answers[i + 1]);
            if gathered(so_far, items, answers) is Ok {
                assert forall|i: int| 0 <= i < answers.len() implies (#[trigger] answers[i]) is Ok by {
                    if i > 0 {
                        assert(others[i - 1] is Ok);
                    }
                }
            } else {
                let k = choose|k: int|
                    {
                        &&& 0 <= k < others.len()
                        &&& (#[trigger] others[k]) is Err
                        &&& others[k]->Err_0 == gathered(grown, rest, others)->Err_0
                        &&& forall|j: int| 0 <= j < k ==> (#[trigger] others[j]) is Ok
                    };
                assert(answers[k + 1] is Err);
                assert forall|j: int| 0 <= j < k + 1 implies (#[trigger] answers[j]) is Ok by {
                    if j > 0 {
                        assert(others[j - 1] is Ok);
                    }
                }
            }
        } else {
            assert(answers[0] is Err);
        }
    }
}

/// Each batch is the next entries of the list, as many as the batch holds or as are left, and
/// the run goes on behind them.
pub proof fn law_batches_are_cut_in_order(run: HintRunView, i: int)
    requires
        run.wf(),
    ensures
        run.list.len() - run.next >= run.batch ==> run.asked().len() == run.batch,
        run.list.len() - run.next < run.batch ==> run.asked().len() == run.list.len() - run.next,
        0 <= i < run.asked().len() ==> run.asked()[i] == run.list[run.next + i],
        run.end() == run.next + run.asked().len(),
{
}

/// An address is in the list.
pub open spec fn lists(list: Seq<ItemView>, address: Address) -> bool {
    exists|i: int| 0 <= i < list.len() && (#[trigger] list[i]).address == address
}

/// An address joins a list at its end and without slots, unless it is there.
pub proof fn law_address_joins_once(list: Seq<ItemView>, address: Address)
    ensures
        lists(list, address) ==> joined(list, address) == list,
        !lists(list, address) ==> {
            &&& joined(list, address).len() == list.len() + 1
            &&& joined(list, address).take(list.len() as int) == list
            &&& joined(list, address).last().address == address
            &&& joined(list, address).last().storage_keys.len() == 0
        },
        lists(joined(list, address), address),
{
    let longer = joined(list, address);
    assert(longer.take(list.len() as int) =~= list);
    if !lists(list, address) {
        assert(longer[list.len() as int].address == address);
    }
}

/// The completed list is the list as it came and then, as far as they are not there yet, the
/// sender, the recipient and the beneficiary, in that order; a sender or recipient that is not
/// named is the zero address.
pub proof fn law_always_touched_accounts_come_last(
    list: Seq<ItemView>,
    from: Option<Address>,
    to: Option<Address>,
    beneficiary: Address,
)
    ensures
        ({
            let sender = match from {
                Some(address) => address,
                None => Address { hi: 0, lo: 0 },
            };
            let recipient = match to {
                Some(address) => address,
                None => Address { hi: 0, lo: 0 },
            };
            let full = with_always_touched(list, from, to, beneficiary);
            &&& full.len() >= list.len()
            &&& full == joined(joined(joined(list, sender), recipient), beneficiary)
            &&& full.take(list.len() as int) == list
            &&& lists(full, sender) && lists(full, recipient) && lists(full, beneficiary)
            &&& forall|i: int|
                list.len() <= i < full.len() ==> {
                    let added = #[trigger] full[i];
                    &&& added.storage_keys.len() == 0
                    &&& added.address == sender || added.address == recipient || added.address
                        == beneficiary
                    &&& !lists(list, added.address)
                }
            &&& !lists(list, sender) && !lists(list, recipient) && !lists(list, beneficiary)
                && sender != recipient && sender != beneficiary && recipient != beneficiary ==> {
                &&& full.len() == list.len() + 3
                &&& full[list.len() as int].address == sender
                &&& full[list.len() as int + 1].address == recipient
                &&& full[list.len() as int + 2].address == beneficiary
            }
        }),
{
    let sender = match from {
        Some(address) => address,
        None => Address { hi: 0, lo: 0 },
    };
    let recipient = match to {
        Some(address) => address,
        None => Address { hi: 0, lo: 0 },
    };
    let one = joined(list, sender);
    let two = joined(one, recipient);
    let full = joined(two, beneficiary);
    assert(full == with_always_touched(list, from, to, beneficiary));
    law_address_joins_once(list, sender);
    law_address_joins_once(one, recipient);
    law_address_joins_once(two, beneficiary);
    assert forall|i: int| 0 <= i < list.len() implies one[i] == list[i] by {}
    assert forall|i: int| 0 <= i < one.len() implies two[i] == one[i] by {}
    assert forall|i: int| 0 <= i < two.len() implies full[i] == two[i] by {}
    assert(full.take(list.len() as int) =~= list);
    lemma_lists_in_longer(list, one);
    lemma_lists_in_longer(one, two);
    lemma_lists_in_longer(two, full);
    assert forall|a: Address| #[trigger] lists(one, a) implies lists(list, a) || a == sender by {
        let i = choose|i: int| 0 <= i < one.len() && (#[trigger] one[i]).address == a;
        if i < list.len() {
            assert(list[i].address == a);
        }
    }
    assert forall|a: Address| #[trigger] lists(two, a) implies lists(one, a) || a == recipient by {
        let i = choose|i: int| 0 <= i < two.len() && (#[trigger] two[i]).address == a;
        if i < one.len() {
            assert(one[i].address == a);
        }
    }
}

proof fn lemma_lists_in_longer(list: Seq<ItemView>, longer: Seq<ItemView>)
    requires
        list.len() <= longer.len(),
        forall|i: int| 0 <= i < list.len() ==> longer[i] == list[i],
    ensures
        forall|a: Address| #[trigger] lists(list, a) ==> lists(longer, a),
{
    assert forall|a: Address| #[trigger] lists(list, a) implies lists(longer, a) by {
        let i = choose|i: int| 0 <= i < list.len() && (#[trigger] list[i]).address == a;
        assert(longer[i].address == a);
    }
}

/// What a list and a run say are their fields, all of them.
pub proof fn law_hint_views_hold_every_field(
    item: AccessListItem,
    run: HintRun,
    answers: Seq<Result<Account, ProviderError>>,
)
    ensures
        item@.address == item.address,
        item@.storage_keys == item.storage_keys@,
        run@.list.len() == run.list@.len(),
        forall|i: int| 0 <= i < run.list@.len() ==> (#[trigger] run@.list[i]) == run.list@[i]@,
        run@.batch == run.batch,
        run@.next == run.next,
        forall|key: (u32, u128)| #[trigger]
            run@.accounts.contains_key(key) <==> run.accounts@.contains_key(key),
        forall|key: (u32, u128)| #[trigger]
            run@.accounts.contains_key(key) ==> run@.accounts[key] == run.accounts@[key]@,
        crate::access_list::answers_view(answers).len() == answers.len(),
        forall|i: int|
            0 <= i < answers.len() ==> match answers[i] {
                Ok(account) => (#[trigger] crate::access_list::answers_view(answers)[i]) == Ok::<
                    AccountView,
                    ErrorView,
                >(account@),
                Err(error) => crate::access_list::answers_view(answers)[i] == Err::<
                    AccountView,
                    ErrorView,
                >(error@),
            },
{
}

} // verus!
