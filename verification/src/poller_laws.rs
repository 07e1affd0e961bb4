//! What the probing of replicas comes to.
use crate::poller::{ProbeStep, ProbeView, PROBE_ATTEMPTS};
use vstd::prelude::*;

verus! {

/// How the replicas answer: in which round, at which place in the list.
pub type Replicas = spec_fn(nat, nat) -> Option<u64>;

/// The next replica that is not admitted is the first one from where the round stands.
pub proof fn lemma_next_open(probe: ProbeView)
    requires
        probe.next <= probe.urls.len(),
    ensures
        probe.next <= probe.next_open() <= probe.urls.len(),
        probe.next_open() < probe.urls.len() ==> !probe.admitted.contains(
            probe.urls[probe.next_open() as int],
        ),
        forall|i: int|
            probe.next <= i < probe.next_open() ==> probe.admitted.contains(
                #[trigger] probe.urls[i],
            ),
    decreases probe.urls.len() - probe.next,
{
    if probe.next < probe.urls.len() && probe.admitted.contains(probe.urls[probe.next as int]) {
        lemma_next_open(ProbeView { next: probe.next + 1, ..probe });
    }
}

/// The replicas that are admitted when the probing is done.
pub open spec fn admitted_at_last(probe: ProbeView, replicas: Replicas) -> Seq<Seq<char>>
    decreases PROBE_ATTEMPTS - probe.attempt, probe.urls.len() - probe.next,
{
    proof {
        if probe.wf() {
            lemma_next_open(probe);
        }
    }
    let (after, step) = probe.stepped();
    if !probe.wf() {
        probe.admitted
    } else {
        match step {
            ProbeStep::Ask(_) => admitted_at_last(
                after.answered(replicas(after.attempt, after.next)),
                replicas,
            ),
            ProbeStep::Pause => admitted_at_last(after, replicas),
            ProbeStep::Done => after.admitted,
        }
    }
}

/// The probing before it has begun.
pub open spec fn fresh(urls: Seq<Seq<char>>, chain_id: u64) -> ProbeView {
    ProbeView { urls, chain_id, admitted: Seq::empty(), attempt: 1, next: 0 }
}

proof fn lemma_answered_is_wf(probe: ProbeView, answer: Option<u64>)
    requires
        probe.wf(),
        probe.next < probe.urls.len(),
        !probe.admitted.contains(probe.urls[probe.next as int]),
    ensures
        probe.answered(answer).wf(),
{
    let after = probe.answered(answer);
    assert forall|i: int| 0 <= i < after.admitted.len() implies after.urls.contains(
        #[trigger] after.admitted[i],
    ) by {
        if i < probe.admitted.len() {
            assert(after.admitted[i] == probe.admitted[i]);
        }
    }
}

/// A list without repetitions of as many members as another list, all of which are in that
/// one, has all of them.
proof fn lemma_all_admitted(admitted: Seq<Seq<char>>, urls: Seq<Seq<char>>, url: Seq<char>)
    requires
        admitted.no_duplicates(),
        admitted.len() == urls.len(),
        forall|i: int| 0 <= i < admitted.len() ==> urls.contains(#[trigger] admitted[i]),
        urls.contains(url),
    ensures
        admitted.contains(url),
{
    if !admitted.contains(url) {
        let longer = admitted.push(url);
        assert(longer.no_duplicates());
        longer.unique_seq_to_set();
        urls.lemma_cardinality_of_set();
        assert(longer.to_set().subset_of(urls.to_set())) by {
            assert forall|u: Seq<char>| longer.to_set().contains(u) implies urls.to_set().contains(
                u,
            ) by {
                let i = choose|i: int| 0 <= i < longer.len() && longer[i] == u;
                if i < admitted.len() {
                    assert(admitted[i] == u);
                    assert(urls.contains(admitted[i]));
                }
            }
        }
        vstd::set_lib::lemma_len_subset(longer.to_set(), urls.to_set());
    }
}

proof fn lemma_only_good(probe: ProbeView, replicas: Replicas)
    requires
        probe.wf(),
        forall|k: int|
            0 <= k < probe.admitted.len() ==> answers_well(
                probe.urls,
                probe.chain_id,
                replicas,
                #[trigger] probe.admitted[k],
            ),
    ensures
        forall|k: int|
            0 <= k < admitted_at_last(probe, replicas).len() ==> answers_well(
                probe.urls,
                probe.chain_id,
                replicas,
                #[trigger] admitted_at_last(probe, replicas)[k],
            ),
        admitted_at_last(probe, replicas).no_duplicates(),
    decreases PROBE_ATTEMPTS - probe.attempt, probe.urls.len() - probe.next,
{
    lemma_next_open(probe);
    let (after, step) = probe.stepped();
    match step {
        ProbeStep::Ask(_) => {
            let answer = replicas(after.attempt, after.next);
            let next = after.answered(answer);
            lemma_answered_is_wf(after, answer);
            assert forall|k: int| 0 <= k < next.admitted.len() implies answers_well(
                probe.urls,
                probe.chain_id,
                replicas,
                #[trigger] next.admitted[k],
            ) by {
                if k < probe.admitted.len() {
                    assert(next.admitted[k] == probe.admitted[k]);
                } else {
                    assert(next.admitted[k] == probe.urls[after.next as int]);
                }
            }
            lemma_only_good(next, replicas);
        },
        ProbeStep::Pause => {
            lemma_only_good(after, replicas);
        },
        ProbeStep::Done => {},
    }
}

/// A replica of the list answers with the chain id in one of the rounds.
pub open spec fn answers_well(
    urls: Seq<Seq<char>>,
    chain_id: u64,
    replicas: Replicas,
    url: Seq<char>,
) -> bool {
    exists|attempt: nat, at: nat|
        {
            &&& 1 <= attempt <= PROBE_ATTEMPTS
            &&& at < urls.len()
            &&& urls[at as int] == url
            &&& #[trigger] replicas(attempt, at) == Some(chain_id)
        }
}

/// Only replicas of the list that answered with the right chain id are admitted, each once.
pub proof fn law_only_the_right_chain_is_admitted(
    urls: Seq<Seq<char>>,
    chain_id: u64,
    replicas: Replicas,
)
    ensures
        admitted_at_last(fresh(urls, chain_id), replicas).no_duplicates(),
        forall|k: int|
            0 <= k < admitted_at_last(fresh(urls, chain_id), replicas).len() ==> answers_well(
                urls,
                chain_id,
                replicas,
                #[trigger] admitted_at_last(fresh(urls, chain_id), replicas)[k],
            ),
{
    lemma_only_good(fresh(urls, chain_id), replicas);
}

proof fn lemma_answer_counts(probe: ProbeView, replicas: Replicas, attempt: nat, at: nat)
    requires
        probe.wf(),
        1 <= attempt <= PROBE_ATTEMPTS,
        at < probe.urls.len(),
        replicas(attempt, at) == Some(probe.chain_id),
        probe.admitted.contains(probe.urls[at as int]) || probe.attempt < attempt || (probe.attempt
            == attempt && probe.next <= at),
    ensures
        admitted_at_last(probe, replicas).contains(probe.urls[at as int]),
    decreases PROBE_ATTEMPTS - probe.attempt, probe.urls.len() - probe.next,
{
    lemma_next_open(probe);
    let url = probe.urls[at as int];
    let (after, step) = probe.stepped();
    match step {
        ProbeStep::Ask(_) => {
            let answer = replicas(after.attempt, after.next);
            let next = after.answered(answer);
            lemma_answered_is_wf(after, answer);
            if probe.admitted.contains(url) {
                let k = choose|k: int| 0 <= k < probe.admitted.len() && probe.admitted[k] == url;
                assert(next.admitted[k] == url);
            } else if after.attempt == attempt && after.next == at {
                assert(next.admitted.last() == url);
                assert(next.admitted[next.admitted.len() - 1] == url);
            }
            lemma_answer_counts(next, replicas, attempt, at);
        },
        ProbeStep::Pause => {
            lemma_answer_counts(after, replicas, attempt, at);
        },
        ProbeStep::Done => {
            if probe.admitted.len() == probe.urls.len() {
                assert(probe.urls.contains(url));
                lemma_all_admitted(probe.admitted, probe.urls, url);
            }
        },
    }
}

/// A replica that answers with the right chain id in any of the rounds is admitted, however
/// often it failed before.
pub proof fn law_late_replica_is_admitted(
    urls: Seq<Seq<char>>,
    chain_id: u64,
    replicas: Replicas,
    url: Seq<char>,
)
    requires
        answers_well(urls, chain_id, replicas, url),
    ensures
        admitted_at_last(fresh(urls, chain_id), replicas).contains(url),
{
    let (attempt, at) = choose|attempt: nat, at: nat|
        {
            &&& 1 <= attempt <= PROBE_ATTEMPTS
            &&& at < urls.len()
            &&& urls[at as int] == url
            &&& #[trigger] replicas(attempt, at) == Some(chain_id)
        };
    lemma_answer_counts(fresh(urls, chain_id), replicas, attempt, at);
}

} // verus!
