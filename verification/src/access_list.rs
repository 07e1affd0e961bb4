//! Which accounts a call touches, and their state gathered before the call runs.
use crate::account::{Account, AccountView};
use crate::chain::Block;
use crate::error::{result_view, ErrorView, ProviderError};
use crate::primitives::{clone_words, views, Address, B256};
use std::collections::BTreeMap;
use vstd::prelude::*;

verus! {

broadcast use {vstd::laws_cmp::group_laws_cmp, vstd::std_specs::btree::group_btree_axioms};

/// An account that a call touches, and its slots that it touches.
#[derive(Debug)]
pub struct AccessListItem {
    pub address: Address,
    pub storage_keys: Vec<B256>,
}

/// What an entry of an access list says.
pub ghost struct ItemView {
    pub address: Address,
    pub storage_keys: Seq<B256>,
}

impl View for AccessListItem {
    type V = ItemView;

    open spec fn view(&self) -> ItemView {
        ItemView { address: self.address, storage_keys: self.storage_keys@ }
    }
}

impl Clone for AccessListItem {
    fn clone(&self) -> (r: Self)
        ensures
            r@ == self@,
    {
        AccessListItem {
            address: self.address,
            storage_keys: clone_words(&self.storage_keys),
        }
    }
}

/// What a list, if there is one, says.
pub open spec fn list_view(list: Option<Vec<AccessListItem>>) -> Option<Seq<ItemView>> {
    match list {
        Some(list) => Some(views(list@)),
        None => None,
    }
}

/// The address is in the list.
pub open spec fn mentions(list: Seq<ItemView>, address: Address) -> bool {
    exists|i: int| 0 <= i < list.len() && (#[trigger] list[i]).address == address
}

/// The list with an address that touches no slot, unless the list has the address already.
pub open spec fn joined(list: Seq<ItemView>, address: Address) -> Seq<ItemView> {
    if mentions(list, address) {
        list
    } else {
        list.push(ItemView { address, storage_keys: Seq::empty() })
    }
}

/// The address, or the zero address where there is none.
pub open spec fn or_zero(address: Option<Address>) -> Address {
    match address {
        Some(address) => address,
        None => Address { hi: 0, lo: 0 },
    }
}

/// The list with the three accounts that every call touches.
pub open spec fn with_always_touched(
    list: Seq<ItemView>,
    from: Option<Address>,
    to: Option<Address>,
    beneficiary: Address,
) -> Seq<ItemView> {
    joined(joined(joined(list, or_zero(from)), or_zero(to)), beneficiary)
}

/// Adds an address to a list, unless the list has it.
fn join(list: &mut Vec<AccessListItem>, address: Address)
    ensures
        views(final(list)@) == joined(views(old(list)@), address),
{
    let ghost before = views(list@);
    let mut i: usize = 0;
    while i < list.len()
        invariant
            i <= list@.len(),
            before == views(list@),
            views(old(list)@) == before,
            forall|k: int| 0 <= k < i ==> (#[trigger] before[k]).address != address,
        decreases list@.len() - i,
    {
        assert(before[i as int] == list@[i as int]@);
        if list[i].address == address {
            assert(mentions(before, address));
            return ;
        }
        i = i + 1;
    }
    let item = AccessListItem { address, storage_keys: Vec::new() };
    assert(item@.storage_keys =~= Seq::empty());
    list.push(item);
    assert(views(list@) =~= before.push(item@));
}

/// The access list of a call, completed with the accounts that the machine always touches and
/// that `eth_createAccessList` leaves out: the sender, the recipient and the block's
/// beneficiary.
pub fn resolve_execution_access_list(
    block: &Block,
    list: Result<Vec<AccessListItem>, ProviderError>,
    from: Option<Address>,
    to: Option<Address>,
) -> (r: Result<Option<Vec<AccessListItem>>, ProviderError>)
    ensures
        match list {
            Ok(list) => match r {
                Ok(Some(full)) => views(full@) == with_always_touched(
                    views(list@),
                    from,
                    to,
                    block@.header.beneficiary,
                ),
                _ => false,
            },
            Err(error) => match r {
                Err(e) => e@ == error@,
                Ok(_) => false,
            },
        },
{
    match list {
        Err(error) => Err(error),
        Ok(list) => {
            let mut list = list;
            let sender = match from {
                Some(address) => address,
                None => Address::zero(),
            };
            let recipient = match to {
                Some(address) => address,
                None => Address::zero(),
            };
            join(&mut list, sender);
            join(&mut list, recipient);
            join(&mut list, block.header.beneficiary);
            Ok(Some(list))
        },
    }
}

/// The accounts by address.
pub type AccountMap = BTreeMap<(u32, u128), Account>;

/// What a map of accounts says.
pub open spec fn map_view(accounts: AccountMap) -> Map<(u32, u128), AccountView> {
    accounts@.map_values(|a: Account| a@)
}

/// The accounts joined to those gathered so far, entry by entry; the first error is the
/// outcome.
pub open spec fn gathered(
    so_far: Map<(u32, u128), AccountView>,
    items: Seq<ItemView>,
    answers: Seq<Result<AccountView, ErrorView>>,
) -> Result<Map<(u32, u128), AccountView>, ErrorView>
    decreases items.len(),
{
    if items.len() == 0 {
        Ok(so_far)
    } else {
        match answers[0] {
            Err(error) => Err(error),
            Ok(account) => gathered(
                so_far.insert(items[0].address.pair(), account),
                items.drop_first(),
                answers.drop_first(),
            ),
        }
    }
}

/// What a list of answers says.
pub open spec fn answers_view(answers: Seq<Result<Account, ProviderError>>) -> Seq<
    Result<AccountView, ErrorView>,
> {
    answers.map_values(|a: Result<Account, ProviderError>| result_view(a))
}

/// The gathering of the accounts of an access list, a batch at a time.
pub struct HintRun {
    pub list: Vec<AccessListItem>,
    pub batch: usize,
    pub next: usize,
    pub accounts: AccountMap,
}

/// Where a gathering stands.
pub ghost struct HintRunView {
    pub list: Seq<ItemView>,
    pub batch: nat,
    pub next: nat,
    pub accounts: Map<(u32, u128), AccountView>,
}

impl View for HintRun {
    type V = HintRunView;

    open spec fn view(&self) -> HintRunView {
        HintRunView {
            list: views(self.list@),
            batch: self.batch as nat,
            next: self.next as nat,
            accounts: map_view(self.accounts),
        }
    }
}

impl HintRunView {
    /// Entries are asked for in their order, some of them already.
    pub open spec fn wf(self) -> bool {
        self.batch > 0 && self.next <= self.list.len()
    }

    /// Where the next batch ends.
    pub open spec fn end(self) -> nat {
        if self.list.len() - self.next <= self.batch {
            self.list.len()
        } else {
            self.next + self.batch
        }
    }

    /// The entries of the next batch.
    pub open spec fn asked(self) -> Seq<ItemView> {
        self.list.subrange(self.next as int, self.end() as int)
    }
}

/// How the state that a call needs is to be had.
pub enum HintPlan {
    /// The provider gathers it itself.
    Delegate,
    /// It is gathered account by account, with code.
    Gather(HintRun),
}

/// A provider that gives no access list gathers the state itself; otherwise the accounts of the
/// list are to be fetched in batches.
pub fn plan_hint(list: Option<Vec<AccessListItem>>, batch: usize) -> (r: HintPlan)
    requires
        batch > 0,
    ensures
        match list {
            None => r is Delegate,
            Some(list) => match r {
                HintPlan::Gather(run) => {
                    &&& run@.wf()
                    &&& run@.list == views(list@)
                    &&& run@.batch == batch
                    &&& run@.next == 0
                    &&& run@.accounts == Map::<(u32, u128), AccountView>::empty()
                },
                HintPlan::Delegate => false,
            },
        },
{
    match list {
        None => HintPlan::Delegate,
        Some(list) => HintPlan::Gather(HintRun::new(list, batch)),
    }
}

impl HintRun {
    /// A gathering that has not begun.
    pub fn new(list: Vec<AccessListItem>, batch: usize) -> (r: Self)
        requires
            batch > 0,
        ensures
            r@.wf(),
            r@.list == views(list@),
            r@.batch == batch,
            r@.next == 0,
            r@.accounts == Map::<(u32, u128), AccountView>::empty(),
    {
        let r = HintRun { list, batch, next: 0, accounts: BTreeMap::new() };
        assert(r@.accounts =~= Map::empty());
        r
    }

    /// The entries to ask for next, all at once; none when the gathering is done.
    pub fn asked(&self) -> (r: Vec<AccessListItem>)
        requires
            self@.wf(),
        ensures
            views(r@) == self@.asked(),
            r@.len() == 0 <==> self@.next == self@.list.len(),
    {
        let end = self.end();
        let mut items: Vec<AccessListItem> = Vec::new();
        let mut i: usize = self.next;
        assert(views(items@) =~= self@.list.subrange(self.next as int, self.next as int));
        while i < end
            invariant
                self.next <= i <= end <= self.list@.len(),
                views(items@) == self@.list.subrange(self.next as int, i as int),
            decreases end - i,
        {
            let ghost before = items@;
            items.push(self.list[i].clone());
            assert(views(items@) =~= views(before).push(self.list@[i as int]@));
            assert(self@.list.subrange(self.next as int, i + 1) =~= self@.list.subrange(
                self.next as int,
                i as int,
            ).push(self@.list[i as int]));
            i = i + 1;
        }
        assert(views(items@).len() == items@.len());
        items
    }

    fn end(&self) -> (r: usize)
        requires
            self@.wf(),
        ensures
            r == self@.end(),
    {
        let total: usize = self.list.len();
        if total - self.next <= self.batch {
            total
        } else {
            self.next + self.batch
        }
    }

    /// Takes the answers for the entries that were asked for, in their order.
    pub fn answered(&mut self, answers: Vec<Result<Account, ProviderError>>) -> (r: Result<
        (),
        ProviderError,
    >)
        requires
            old(self)@.wf(),
            answers@.len() == old(self)@.asked().len(),
        ensures
            final(self)@.wf(),
            final(self)@.list == old(self)@.list,
            final(self)@.batch == old(self)@.batch,
            match gathered(
                old(self)@.accounts,
                old(self)@.asked(),
                answers_view(answers@),
            ) {
                Ok(accounts) => r is Ok && final(self)@.accounts == accounts && final(self)@.next
                    == old(self)@.end(),
                Err(error) => r is Err && r->Err_0@ == error,
            },
    {
        let end: usize = self.end();
        let ghost items = self@.asked();
        let ghost all = answers_view(answers@);
        let ghost start = self.next as int;
        let ghost outcome = gathered(self@.accounts, items, all);
        let mut i: usize = self.next;
        proof {
            assert(items.skip(0) =~= items);
            assert(all.skip(0) =~= all);
        }
        for answer in it: answers
            invariant
                i == start + it.index(),
                end - start == it.seq().len(),
                end <= self.list@.len(),
                self@.wf(),
                self@.end() == end,
                start == self.next,
                self@.list == old(self)@.list,
                self@.batch == old(self)@.batch,
                items == self@.asked(),
                items == old(self)@.asked(),
                items.len() == end - start,
                all == answers_view(it.seq()),
                outcome == gathered(
                    self@.accounts,
                    items.skip(i - start),
                    all.skip(i - start),
                ),
                outcome == gathered(old(self)@.accounts, items, all),
                end == old(self)@.end(),
        {
            let ghost at = i - start;
            let ghost before = self@.accounts;
            assert(items.skip(at)[0] == items[at]);
            assert(items[at] == self.list@[i as int]@);
            assert(all.skip(at)[0] == all[at]);
            assert(items.skip(at).drop_first() =~= items.skip(at + 1));
            assert(all.skip(at).drop_first() =~= all.skip(at + 1));
            assert(result_view(answer) == all[at]);
            match answer {
                Ok(account) => {
                    let address = self.list[i].address;
                    self.accounts.insert(address.key(), account);
                    assert(self@.accounts =~= before.insert(address.pair(), account@));
                },
                Err(error) => {
                    return Err(error);
                },
            }
            i = i + 1;
        }
        self.next = end;
        Ok(())
    }
}

/// How a list is cut into batches does not matter: to gather one part and then the other is to
/// gather both at once.
pub proof fn law_batches_do_not_matter(
    so_far: Map<(u32, u128), AccountView>,
    items: Seq<ItemView>,
    answers: Seq<Result<AccountView, ErrorView>>,
    more_items: Seq<ItemView>,
    more_answers: Seq<Result<AccountView, ErrorView>>,
)
    requires
        items.len() == answers.len(),
    ensures
        gathered(so_far, items + more_items, answers + more_answers) == match gathered(
            so_far,
            items,
            answers,
        ) {
            Ok(accounts) => gathered(accounts, more_items, more_answers),
            Err(error) => Err(error),
        },
    decreases items.len(),
{
    if items.len() == 0 {
        assert(items + more_items =~= more_items);
        assert(answers + more_answers =~= more_answers);
    } else {
        assert((items + more_items).drop_first() =~= items.drop_first() + more_items);
        assert((answers + more_answers).drop_first() =~= answers.drop_first() + more_answers);
        if let Ok(account) = answers[0] {
            law_batches_do_not_matter(
                so_far.insert(items[0].address.pair(), account),
                items.drop_first(),
                answers.drop_first(),
                more_items,
                more_answers,
            );
        }
    }
}

/// What is gathered holds each account of the list, and no other than those and what was there
/// before.
pub proof fn law_gathered_is_the_list(
    so_far: Map<(u32, u128), AccountView>,
    items: Seq<ItemView>,
    answers: Seq<Result<AccountView, ErrorView>>,
)
    requires
        items.len() == answers.len(),
    ensures
        gathered(so_far, items, answers) matches Ok(accounts) ==> forall|address: Address| #[trigger]
            accounts.contains_key(address.pair()) <==> mentions(items, address)
                || so_far.contains_key(address.pair()),
    decreases items.len(),
{
    if items.len() > 0 && answers[0] is Ok {
        let grown = so_far.insert(items[0].address.pair(), answers[0]->Ok_0);
        let rest = items.drop_first();
        law_gathered_is_the_list(grown, rest, answers.drop_first());
        if let Ok(accounts) = gathered(so_far, items, answers) {
            assert forall|address: Address| #[trigger]
                accounts.contains_key(address.pair()) <==> mentions(items, address)
                    || so_far.contains_key(address.pair()) by {
                if mentions(items, address) {
                    let i = choose|i: int|
                        0 <= i < items.len() && (#[trigger] items[i]).address == address;
                    if i > 0 {
                        assert(rest[i - 1] == items[i]);
                    }
                }
                if mentions(rest, address) {
                    let i = choose|i: int|
                        0 <= i < rest.len() && (#[trigger] rest[i]).address == address;
                    assert(items[i + 1] == rest[i]);
                }
                if grown.contains_key(address.pair()) && !so_far.contains_key(address.pair()) {
                    assert(items[0].address == address);
                }
            }
        }
    }
}

/// Addresses of a list that differ from each other.
pub open spec fn distinct(list: Seq<ItemView>) -> bool {
    forall|i: int, j: int|
        0 <= i < j < list.len() ==> (#[trigger] list[i]).address != (#[trigger] list[j]).address
}

proof fn lemma_joined(list: Seq<ItemView>, address: Address)
    ensures
        mentions(joined(list, address), address),
        forall|other: Address| #[trigger]
            mentions(list, other) ==> mentions(joined(list, address), other),
        list.len() <= joined(list, address).len() <= list.len() + 1,
        joined(list, address).take(list.len() as int) == list,
        distinct(list) ==> distinct(joined(list, address)),
{
    let longer = joined(list, address);
    if !mentions(list, address) {
        assert(longer[list.len() as int].address == address);
    }
    assert(longer.take(list.len() as int) =~= list);
    assert forall|other: Address| #[trigger] mentions(list, other) implies mentions(
        longer,
        other,
    ) by {
        let i = choose|i: int| 0 <= i < list.len() && (#[trigger] list[i]).address == other;
        assert(longer[i] == list[i]);
    }
}

/// The completed list begins with the list as it came, has the sender, the recipient and the
/// beneficiary, and names no account twice where the list as it came did not.
pub proof fn law_always_touched_accounts_are_listed(
    list: Seq<ItemView>,
    from: Option<Address>,
    to: Option<Address>,
    beneficiary: Address,
)
    ensures
        ({
            let full = with_always_touched(list, from, to, beneficiary);
            &&& full.len() <= list.len() + 3
            &&& full.take(list.len() as int) == list
            &&& mentions(full, or_zero(from))
            &&& mentions(full, or_zero(to))
            &&& mentions(full, beneficiary)
            &&& distinct(list) ==> distinct(full)
        }),
{
    let one = joined(list, or_zero(from));
    let two = joined(one, or_zero(to));
    let full = joined(two, beneficiary);
    lemma_joined(list, or_zero(from));
    lemma_joined(one, or_zero(to));
    lemma_joined(two, beneficiary);
    assert(full.take(list.len() as int) =~= full.take(two.len() as int).take(
        one.len() as int,
    ).take(list.len() as int));
}

} // verus!
