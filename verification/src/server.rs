//! The server of sequencer commitments: the newest one, and how long a request for a newer one
//! is held.
use crate::primitives::Bytes;
use vstd::prelude::*;

verus! {

/// A signed commitment of the sequencer to a block.
#[derive(Debug)]
pub struct SequencerCommitment {
    pub data: Bytes,
    pub signature: Bytes,
}

/// What a commitment says.
pub ghost struct CommitmentView {
    pub data: Seq<u8>,
    pub signature: Seq<u8>,
}

impl View for SequencerCommitment {
    type V = CommitmentView;

    open spec fn view(&self) -> CommitmentView {
        CommitmentView { data: self.data@, signature: self.signature@ }
    }
}

impl Clone for SequencerCommitment {
    fn clone(&self) -> (r: Self)
        ensures
            r@ == self@,
    {
        SequencerCommitment { data: self.data.clone(), signature: self.signature.clone() }
    }
}

/// What a commitment and its block number say, where they are there.
pub open spec fn head_view(head: Option<(SequencerCommitment, u64)>) -> Option<
    (CommitmentView, u64),
> {
    match head {
        Some((c, n)) => Some((c@, n)),
        None => None,
    }
}

/// The newest commitment that the server has seen.
pub struct ServerState {
    pub latest_commitment: Option<(SequencerCommitment, u64)>,
}

impl View for ServerState {
    type V = Option<(CommitmentView, u64)>;

    open spec fn view(&self) -> Option<(CommitmentView, u64)> {
        head_view(self.latest_commitment)
    }
}

/// Whether a block is newer than the head.
pub open spec fn is_newer(head: Option<(CommitmentView, u64)>, block_number: u64) -> bool {
    match head {
        Some((_, latest)) => block_number > latest,
        None => true,
    }
}

impl ServerState {
    /// A server that has seen no commitment.
    pub fn new() -> (r: Self)
        ensures
            r@ is None,
    {
        ServerState { latest_commitment: None }
    }

    /// Takes in one commitment, of which `block_number` is the block that its payload names, or
    /// `None` where the payload cannot be read. Gives back what is now the head where this
    /// commitment advanced it, so that the caller can wake those who wait for it.
    pub fn apply(&mut self, commitment: SequencerCommitment, block_number: Option<u64>) -> (r:
        Option<(SequencerCommitment, u64)>)
        ensures
            head_view(r) == match block_number {
                Some(n) => if is_newer(old(self)@, n) {
                    Some((commitment@, n))
                } else {
                    None
                },
                None => None,
            },
            final(self)@ == applied(old(self)@, commitment@, block_number),
    {
        let number: u64 = match block_number {
            Some(n) => n,
            None => {
                return None;
            },
        };
        if !self.is_latest_commitment(number) {
            return None;
        }
        self.latest_commitment = Some((commitment.clone(), number));
        Some((commitment, number))
    }

    /// Whether a commitment to this block would advance the head.
    pub fn is_latest_commitment(&self, block_number: u64) -> (r: bool)
        ensures
            r == is_newer(self@, block_number),
    {
        match &self.latest_commitment {
            Some((_, latest)) => block_number > *latest,
            None => true,
        }
    }
}

/// Seconds that a request for a newer commitment is held at most. It bounds how long a client
/// that has gone away can keep a request open; the head advances long before.
pub const HOLD_MAX_SECS: u64 = 60;

/// What becomes of a request for the newest commitment.
#[derive(Debug)]
pub enum LatestStep {
    Answer(Option<SequencerCommitment>),
    /// Wait until the head changes, and look again; give up when the hold is over.
    Wait,
}

/// What a step of such a request says.
pub ghost enum LatestStepView {
    Answer(Option<CommitmentView>),
    Wait,
}

/// What a commitment, if there is one, says.
pub open spec fn commitment_view(commitment: Option<SequencerCommitment>) -> Option<
    CommitmentView,
> {
    match commitment {
        Some(c) => Some(c@),
        None => None,
    }
}

impl View for LatestStep {
    type V = LatestStepView;

    open spec fn view(&self) -> LatestStepView {
        match self {
            LatestStep::Answer(commitment) => LatestStepView::Answer(commitment_view(*commitment)),
            LatestStep::Wait => LatestStepView::Wait,
        }
    }
}

/// The commitment of a head.
pub open spec fn commitment_of(head: Option<(CommitmentView, u64)>) -> Option<CommitmentView> {
    match head {
        Some((commitment, _)) => Some(commitment),
        None => None,
    }
}

/// A request without a block is answered with the head at once; one with a block waits for a
/// commitment to a newer block.
pub open spec fn latest_step(
    head: Option<(CommitmentView, u64)>,
    after: Option<u64>,
) -> LatestStepView {
    match after {
        None => LatestStepView::Answer(commitment_of(head)),
        Some(after) => match head {
            Some((commitment, number)) if number > after => LatestStepView::Answer(
                Some(commitment),
            ),
            _ => LatestStepView::Wait,
        },
    }
}

fn clone_commitment(head: &Option<(SequencerCommitment, u64)>) -> (r: Option<SequencerCommitment>)
    ensures
        commitment_view(r) == commitment_of(head_view(*head)),
{
    match head {
        Some((commitment, _)) => Some(commitment.clone()),
        None => None,
    }
}

/// What becomes of a request for a commitment newer than `after`, each time that the head is
/// looked at.
pub fn latest_handler(head: &Option<(SequencerCommitment, u64)>, after: Option<u64>) -> (r:
    LatestStep)
    ensures
        r@ == latest_step(head_view(*head), after),
{
    match after {
        None => LatestStep::Answer(clone_commitment(head)),
        Some(after) => {
            if let Some((commitment, number)) = head {
                if *number > after {
                    return LatestStep::Answer(Some(commitment.clone()));
                }
            }
            LatestStep::Wait
        },
    }
}

/// The answer to a request whose hold is over, or for which the head can change no more:
/// whatever there is.
pub fn latest_gave_up(head: &Option<(SequencerCommitment, u64)>) -> (r: Option<
    SequencerCommitment,
>)
    ensures
        commitment_view(r) == commitment_of(head_view(*head)),
{
    clone_commitment(head)
}

/// The head after a commitment, of which `block_number` is the block, if that can be read.
pub open spec fn applied(
    head: Option<(CommitmentView, u64)>,
    commitment: CommitmentView,
    block_number: Option<u64>,
) -> Option<(CommitmentView, u64)> {
    match block_number {
        Some(n) if is_newer(head, n) => Some((commitment, n)),
        _ => head,
    }
}

/// The head after a series of commitments.
pub open spec fn applied_all(
    head: Option<(CommitmentView, u64)>,
    commitments: Seq<(CommitmentView, Option<u64>)>,
) -> Option<(CommitmentView, u64)>
    decreases commitments.len(),
{
    if commitments.len() == 0 {
        head
    } else {
        let before = applied_all(head, commitments.drop_last());
        applied(before, commitments.last().0, commitments.last().1)
    }
}

/// A commitment of a series is the first to its block, and to a newer one than the head.
pub open spec fn is_first_to_its_block(
    head: Option<(CommitmentView, u64)>,
    commitments: Seq<(CommitmentView, Option<u64>)>,
    at: int,
) -> bool {
    &&& 0 <= at < commitments.len()
    &&& commitments[at].1 is Some
    &&& is_newer(head, commitments[at].1->0)
    &&& forall|k: int| 0 <= k < at ==> (#[trigger] commitments[k]).1 != commitments[at].1
}

/// After any series of commitments the head is the one to the highest block, and of those to
/// that block the first: no commitment of the series is to a higher one, nor was the head before
/// it, and the head is still that head, or is the first commitment to its block.
pub proof fn law_head_is_the_newest(
    head: Option<(CommitmentView, u64)>,
    commitments: Seq<(CommitmentView, Option<u64>)>,
)
    ensures
        ({
            let after = applied_all(head, commitments);
            &&& forall|i: int|
                0 <= i < commitments.len() && (#[trigger] commitments[i]).1 is Some ==> after is Some
                    && commitments[i].1->0 <= (after->0).1
            &&& head matches Some(h) ==> after is Some && h.1 <= (after->0).1
            &&& after == head || exists|i: int| #[trigger]
                is_first_to_its_block(head, commitments, i) && after == Some(
                    (commitments[i].0, commitments[i].1->0),
                )
        }),
    decreases commitments.len(),
{
    if commitments.len() > 0 {
        let front = commitments.drop_last();
        let last = commitments.last();
        law_head_is_the_newest(head, front);
        let before = applied_all(head, front);
        let after = applied_all(head, commitments);
        assert(forall|i: int| 0 <= i < front.len() ==> (#[trigger] commitments[i]) == front[i]);
        if after != head {
            if after == before {
                let i = choose|i: int| #[trigger]
                    is_first_to_its_block(head, front, i) && before == Some(
                        (front[i].0, front[i].1->0),
                    );
                assert(commitments[i] == front[i]);
                assert(is_first_to_its_block(head, commitments, i));
            } else {
                let at = commitments.len() - 1;
                assert(commitments[at] == last);
                assert(is_first_to_its_block(head, commitments, at)) by {
                    assert forall|k: int| 0 <= k < at implies (#[trigger] commitments[k]).1
                        != commitments[at].1 by {
                        assert(front[k] == commitments[k]);
                    }
                }
            }
        }
    }
}

/// A commitment that is not to a newer block changes nothing.
pub proof fn law_stale_commitment_changes_nothing(
    head: (CommitmentView, u64),
    commitment: CommitmentView,
    block_number: Option<u64>,
)
    requires
        block_number matches Some(n) ==> n <= head.1,
    ensures
        applied(Some(head), commitment, block_number) == Some(head),
{
}

/// A request that waits for a block newer than the one it has is answered by the next
/// commitment that advances the head beyond that block, and by none before.
pub proof fn law_held_request_gets_something_newer(
    head: Option<(CommitmentView, u64)>,
    commitment: CommitmentView,
    block_number: u64,
    after: u64,
)
    requires
        latest_step(head, Some(after)) is Wait,
    ensures
        latest_step(applied(head, commitment, Some(block_number)), Some(after)) == (
        if block_number > after {
            LatestStepView::Answer(Some(commitment))
        } else {
            LatestStepView::Wait
        }),
{
}

} // verus!
