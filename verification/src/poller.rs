//! Backfill: commitments that another replica saw and this one missed.
use crate::error::ProviderError;
use crate::primitives::views;
use crate::server::{SequencerCommitment, HOLD_MAX_SECS};
use crate::text::{decimal, digits, text_is};
use crate::urls::{
    join_url, join_with_pair, joined_url, joined_url_with_pair, takes_query, text_result,
};
use vstd::prelude::*;
use vstd::string::*;

verus! {

/// Seconds that a request for the newest commitment may take. A replica holds such a request, so
/// this is longer than it holds one.
pub const POLL_TIMEOUT_SECS: u64 = 65;

/// Seconds that a request for a replica's chain id may take.
pub const PROBE_TIMEOUT_SECS: u64 = 5;

/// How often the replicas that have not answered yet are asked for their chain id.
pub const PROBE_ATTEMPTS: usize = 10;

/// Seconds between two such rounds.
pub const PROBE_GAP_SECS: u64 = 3;

/// Milliseconds to wait after a poll that brought nothing.
pub const NO_PROGRESS_BACKOFF_MILLIS: u64 = 200;

/// A request for the newest commitment outlasts the time that a replica holds it: it ends with
/// the replica's answer, not with its own timeout.
pub proof fn law_poll_outlasts_hold()
    ensures
        POLL_TIMEOUT_SECS > HOLD_MAX_SECS,
{
}

/// What the probing of the replicas does next.
#[derive(Clone, Copy, Debug, PartialEq, Eq, Structural)]
pub enum ProbeStep {
    /// Ask the replica at this place in the list for its chain id.
    Ask(usize),
    /// Wait for the gap between two rounds.
    Pause,
    Done,
}

/// The probing of the replicas: those that answer with the right chain id are admitted; the
/// others are asked again, in rounds.
#[derive(Debug)]
pub struct Probe {
    pub urls: Vec<String>,
    pub chain_id: u64,
    pub admitted: Vec<String>,
    pub attempt: usize,
    pub next: usize,
}

/// How far the probing has come.
pub ghost struct ProbeView {
    pub urls: Seq<Seq<char>>,
    pub chain_id: u64,
    pub admitted: Seq<Seq<char>>,
    pub attempt: nat,
    pub next: nat,
}

impl View for Probe {
    type V = ProbeView;

    open spec fn view(&self) -> ProbeView {
        ProbeView {
            urls: views(self.urls@),
            chain_id: self.chain_id,
            admitted: views(self.admitted@),
            attempt: self.attempt as nat,
            next: self.next as nat,
        }
    }
}

impl ProbeView {
    /// Those admitted are replicas of the list, each once.
    pub open spec fn wf(self) -> bool {
        &&& 1 <= self.attempt <= PROBE_ATTEMPTS
        &&& self.next <= self.urls.len()
        &&& self.admitted.no_duplicates()
        &&& forall|i: int|
            0 <= i < self.admitted.len() ==> self.urls.contains(#[trigger] self.admitted[i])
    }

    /// The place of the next replica of this round that is not admitted yet.
    pub open spec fn next_open(self) -> nat
        decreases self.urls.len() - self.next,
    {
        if self.next < self.urls.len() && self.admitted.contains(self.urls[self.next as int]) {
            (ProbeView { next: self.next + 1, ..self }).next_open()
        } else {
            self.next
        }
    }

    /// What comes next, and where the probing then stands: the next replica that is not
    /// admitted; at the end of a round the end, where all are admitted or no round is left, or
    /// else the next round.
    pub open spec fn stepped(self) -> (ProbeView, ProbeStep) {
        let at = self.next_open();
        if at < self.urls.len() {
            (ProbeView { next: at, ..self }, ProbeStep::Ask(at as usize))
        } else if self.admitted.len() == self.urls.len() || self.attempt >= PROBE_ATTEMPTS {
            (ProbeView { next: at, ..self }, ProbeStep::Done)
        } else {
            (ProbeView { next: 0, attempt: self.attempt + 1, ..self }, ProbeStep::Pause)
        }
    }

    /// Where the probing stands after an answer, `None` being a failure.
    pub open spec fn answered(self, answer: Option<u64>) -> ProbeView {
        ProbeView {
            admitted: if answer == Some(self.chain_id) {
                self.admitted.push(self.urls[self.next as int])
            } else {
                self.admitted
            },
            next: self.next + 1,
            ..self
        }
    }
}

/// What an answer for a chain id says: the chain id, if any.
pub open spec fn chain_id_of(answer: Result<u64, ProviderError>) -> Option<u64> {
    match answer {
        Ok(chain_id) => Some(chain_id),
        Err(_) => None,
    }
}

fn holds_text(list: &Vec<String>, text: &str) -> (r: bool)
    ensures
        r == views(list@).contains(text@),
{
    let mut i: usize = 0;
    while i < list.len()
        invariant
            i <= list@.len(),
            forall|k: int| 0 <= k < i ==> (#[trigger] list@[k])@ != text@,
        decreases list@.len() - i,
    {
        if text_is(list[i].as_str(), text) {
            assert(views(list@)[i as int] == text@);
            return true;
        }
        i = i + 1;
    }
    assert forall|k: int| 0 <= k < views(list@).len() implies views(list@)[k] != text@ by {
        assert(views(list@)[k] == list@[k]@);
    }
    false
}

impl Probe {
    /// A probing that has not begun.
    pub fn new(urls: Vec<String>, chain_id: u64) -> (r: Self)
        ensures
            r@ == (ProbeView {
                urls: views(urls@),
                chain_id,
                admitted: Seq::empty(),
                attempt: 1,
                next: 0,
            }),
            r@.wf(),
    {
        let r = Probe { urls, chain_id, admitted: Vec::new(), attempt: 1, next: 0 };
        assert(r@.admitted =~= Seq::empty());
        r
    }

    /// What the probing does next.
    pub fn step(&mut self) -> (r: ProbeStep)
        requires
            old(self)@.wf(),
        ensures
            (final(self)@, r) == old(self)@.stepped(),
            final(self)@.wf(),
            r is Ask ==> final(self)@.next < final(self)@.urls.len()
                && !final(self)@.admitted.contains(final(self)@.urls[final(self)@.next as int]),
    {
        let ghost before = self@;
        while self.next < self.urls.len() && holds_text(
            &self.admitted,
            self.urls[self.next].as_str(),
        )
            invariant
                self@.wf(),
                before.wf(),
                self@ == (ProbeView { next: self@.next, ..before }),
                self@.next_open() == before.next_open(),
            decreases self.urls@.len() - self.next,
        {
            assert(self@.urls[self.next as int] == self.urls@[self.next as int]@);
            self.next = self.next + 1;
        }
        if self.next < self.urls.len() {
            assert(self@.urls[self.next as int] == self.urls@[self.next as int]@);
        }
        let total: usize = self.urls.len();
        let count: usize = self.admitted.len();
        assert(count == self@.admitted.len());
        if self.next < total {
            ProbeStep::Ask(self.next)
        } else if count == total || self.attempt >= PROBE_ATTEMPTS {
            ProbeStep::Done
        } else {
            self.next = 0;
            self.attempt = self.attempt + 1;
            ProbeStep::Pause
        }
    }

    /// Takes in the answer of the replica that was asked.
    pub fn answered(&mut self, answer: &Result<u64, ProviderError>)
        requires
            old(self)@.wf(),
            old(self)@.next < old(self)@.urls.len(),
            !old(self)@.admitted.contains(old(self)@.urls[old(self)@.next as int]),
        ensures
            final(self)@ == old(self)@.answered(chain_id_of(*answer)),
            final(self)@.wf(),
    {
        let ghost before = self@;
        let total: usize = self.urls.len();
        assert(self.next < total);
        if let Ok(replica_chain_id) = answer {
            if *replica_chain_id == self.chain_id {
                let url = self.urls[self.next].clone();
                let ghost old_list = self.admitted@;
                self.admitted.push(url);
                assert(views(self.admitted@) =~= views(old_list).push(url@));
                assert(before.urls[before.next as int] == self.urls@[self.next as int]@);
            }
        }
        self.next = self.next + 1;
        assert forall|i: int| 0 <= i < self@.admitted.len() implies self@.urls.contains(
            #[trigger] self@.admitted[i],
        ) by {
            if i < before.admitted.len() {
                assert(self@.admitted[i] == before.admitted[i]);
            }
        }
    }
}

/// Milliseconds to wait before the next poll of a replica: some where the poll failed or left the
/// head where it was, and none where it advanced. A replica that holds requests only answers
/// with something newer, so the wait is for those that answer at once.
pub fn pause_after_poll(failed: bool, before: Option<u64>, now: Option<u64>) -> (r: Option<u64>)
    ensures
        r == if failed || now == before {
            Some(NO_PROGRESS_BACKOFF_MILLIS)
        } else {
            None
        },
{
    let unchanged = match (before, now) {
        (Some(a), Some(b)) => a == b,
        (None, None) => true,
        _ => false,
    };
    if failed || unchanged {
        Some(NO_PROGRESS_BACKOFF_MILLIS)
    } else {
        None
    }
}

/// A commitment is passed on only where it is signed by the right signer.
pub fn accept_commitment(commitment: SequencerCommitment, verified: bool) -> (r: Option<
    SequencerCommitment,
>)
    ensures
        r == if verified {
            Some(commitment)
        } else {
            None
        },
{
    if verified {
        Some(commitment)
    } else {
        None
    }
}

/// Where the newest commitment of a replica is to be had, if newer than the block `after`.
pub open spec fn latest_url(base: Seq<char>, after: Option<u64>) -> Result<Seq<char>, Seq<char>> {
    match after {
        Some(number) => joined_url_with_pair(
            base,
            "latest"@,
            "after"@,
            digits(number as nat, 10),
        ),
        None => joined_url(base, "latest"@),
    }
}

/// The block that the caller has can be put into the URL, where there is one to put: the URL is
/// not beyond what 32 bits can count.
pub open spec fn takes_after(base: Seq<char>, after: Option<u64>) -> bool {
    after is Some ==> (joined_url(base, "latest"@) matches Ok(url) ==> takes_query(url))
}

/// Where the newest commitment of a replica is to be had, if newer than the block `after`.
pub fn latest_endpoint(base: &str, after: Option<u64>) -> (r: Result<String, String>)
    requires
        takes_after(base@, after),
    ensures
        text_result(r) == latest_url(base@, after),
{
    match after {
        None => join_url(base, "latest"),
        Some(number) => {
            proof {
                reveal_strlit("latest");
            }
            join_with_pair(base, "latest", "after", decimal(number).as_str())
        },
    }
}

/// Where the newest commitment of a replica is to be had, if newer than the block `after`:
/// `None` where the replica's URL is beyond what 32 bits can count and so cannot take the block.
pub fn try_latest_endpoint(base: &str, after: Option<u64>) -> (r: Option<Result<String, String>>)
    ensures
        r is Some <==> takes_after(base@, after),
        r matches Some(url) ==> text_result(url) == latest_url(base@, after),
{
    if after.is_some() {
        if let Ok(url) = join_url(base, "latest") {
            if url.as_str().as_bytes().len() > 0xffff_ffff {
                return None;
            }
        }
    }
    Some(latest_endpoint(base, after))
}

/// Where the chain id of a replica is to be had.
pub fn chain_id_endpoint(base: &str) -> (r: Result<String, String>)
    ensures
        text_result(r) == joined_url(base@, "chain_id"@),
{
    join_url(base, "chain_id")
}

} // verus!
