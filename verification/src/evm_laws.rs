//! What the outcome of a call rests on.
use crate::evm::{Phase, TransactRun};
use vstd::prelude::*;

verus! {

/// What happens in a run of a call.
pub ghost enum TransactEvent {
    Fetched { succeeded: bool },
    Replayed { went_through: bool, needs_update: bool },
}

impl TransactEvent {
    /// Whether this is what a run in this phase waits for.
    pub open spec fn is_due(self, phase: Phase) -> bool {
        match self {
            TransactEvent::Fetched { .. } => phase is Fetch,
            TransactEvent::Replayed { .. } => phase is Replay,
        }
    }
}

/// Where a run stands after what happened.
pub open spec fn run_after(
    prefetched: bool,
    needs_update: bool,
    events: Seq<TransactEvent>,
) -> (TransactRun, Phase)
    decreases events.len(),
{
    if events.len() == 0 {
        TransactRun::begun(prefetched, needs_update)
    } else {
        let (run, phase) = run_after(prefetched, needs_update, events.drop_last());
        match events.last() {
            TransactEvent::Fetched { succeeded } => run.after_fetch(succeeded),
            TransactEvent::Replayed { went_through, needs_update } => run.after_replay(
                went_through,
                needs_update,
            ),
        }
    }
}

/// Each event was waited for when it happened, and the rounds could be counted.
pub open spec fn is_run(prefetched: bool, needs_update: bool, events: Seq<TransactEvent>) -> bool
    decreases events.len(),
{
    events.len() == 0 || {
        let (run, phase) = run_after(prefetched, needs_update, events.drop_last());
        &&& is_run(prefetched, needs_update, events.drop_last())
        &&& events.last().is_due(phase)
        &&& run.iterations < u32::MAX
    }
}

/// A replay that lacked state, and so is not the outcome.
pub open spec fn lacked_state(event: TransactEvent) -> bool {
    event matches TransactEvent::Replayed { went_through, needs_update } && !went_through
        && needs_update
}

/// The outcome of a call is that of a replay that went through or lacked nothing. Every replay
/// before it failed for want of state, every fetch succeeded, and as many fetches were made as
/// there were replays, or one less where the first replay had all that was known to be needed.
pub proof fn law_outcome_is_of_a_replay_with_all_its_state(
    prefetched: bool,
    needs_update: bool,
    events: Seq<TransactEvent>,
)
    requires
        is_run(prefetched, needs_update, events),
        run_after(prefetched, needs_update, events).1 is Finish,
    ensures
        events.len() > 0,
        events.last() is Replayed && !lacked_state(events.last()),
        forall|i: int|
            0 <= i < events.len() - 1 ==> ((#[trigger] events[i]) is Replayed ==> lacked_state(
                events[i],
            )),
        forall|i: int|
            0 <= i < events.len() ==> ((#[trigger] events[i]) matches TransactEvent::Fetched {
                succeeded,
            } ==> succeeded),
        ({
            let run = run_after(prefetched, needs_update, events).0;
            run.fetches + (if needs_update {
                0int
            } else {
                1int
            }) == run.iterations
        }),
{
    lemma_going_on(prefetched, needs_update, events.drop_last());
    let front = events.drop_last();
    assert(forall|i: int| 0 <= i < front.len() ==> (#[trigger] events[i]) == front[i]);
}

/// A run that goes on has seen only replays that lacked state, and fetches that succeeded.
proof fn lemma_going_on(prefetched: bool, needs_update: bool, events: Seq<TransactEvent>)
    requires
        is_run(prefetched, needs_update, events),
        run_after(prefetched, needs_update, events).1 is Fetch || run_after(prefetched, needs_update, events).1 is Replay,
    ensures
        forall|i: int|
            0 <= i < events.len() ==> ((#[trigger] events[i]) is Replayed ==> lacked_state(
                events[i],
            )),
        forall|i: int|
            0 <= i < events.len() ==> ((#[trigger] events[i]) matches TransactEvent::Fetched {
                succeeded,
            } ==> succeeded),
        ({
            let (run, phase) = run_after(prefetched, needs_update, events);
            &&& run.wf(phase)
            &&& run.fetches + (if needs_update {
                0int
            } else {
                1int
            }) == run.iterations - (if phase is Fetch {
                1int
            } else {
                0int
            })
        }),
    decreases events.len(),
{
    if events.len() > 0 {
        let front = events.drop_last();
        lemma_going_on(prefetched, needs_update, front);
        assert(forall|i: int| 0 <= i < front.len() ==> (#[trigger] events[i]) == front[i]);
    }
}

/// A run fails only by a fetch that failed, never by the prefetch.
pub proof fn law_run_fails_only_by_a_failed_fetch(
    prefetched: bool,
    needs_update: bool,
    events: Seq<TransactEvent>,
)
    requires
        is_run(prefetched, needs_update, events),
        run_after(prefetched, needs_update, events).1 is Fail,
    ensures
        events.len() > 0,
        events.last() == (TransactEvent::Fetched { succeeded: false }),
{
}

/// What the machine does next, having read what it has read: it reads something of the state, or
/// it ends.
pub ghost enum Access<K, R> {
    Read(K),
    End { went_through: bool, result: R },
}

/// A call as the machine runs it: what it does next is decided by what it has read so far.
pub type Program<K, V, R> = spec_fn(Seq<V>) -> Access<K, R>;

/// What one run of the machine comes to: what it lacked, where it read something that is not
/// there; or else whether it went through, and its result.
pub ghost enum Replay<K, R> {
    Lacked(K),
    Ended { went_through: bool, result: R },
}

/// What a run of the machine comes to on a part of the state, having read so much; `None` where
/// it does not end within so many more steps.
pub open spec fn replay<K, V, R>(
    program: Program<K, V, R>,
    state: Map<K, V>,
    seen: Seq<V>,
    steps: nat,
) -> Option<Replay<K, R>>
    decreases steps,
{
    match program(seen) {
        Access::End { went_through, result } => Some(Replay::Ended { went_through, result }),
        Access::Read(key) => if !state.contains_key(key) {
            Some(Replay::Lacked(key))
        } else if steps == 0 {
            None
        } else {
            replay(program, state, seen.push(state[key]), (steps - 1) as nat)
        },
    }
}

/// On a part of the state a run comes to the same as on the whole of it, or lacks something that
/// the whole has and the part has not.
proof fn lemma_replay_on_a_part<K, V, R>(
    program: Program<K, V, R>,
    truth: Map<K, V>,
    part: Map<K, V>,
    seen: Seq<V>,
    steps: nat,
)
    requires
        part.submap_of(truth),
        replay(program, truth, seen, steps) is Some,
        replay(program, truth, seen, steps)->0 is Ended,
    ensures
        replay(program, part, seen, steps) == replay(program, truth, seen, steps) || (match replay(
            program,
            part,
            seen,
            steps,
        ) {
            Some(Replay::Lacked(key)) => truth.contains_key(key) && !part.contains_key(key),
            _ => false,
        }),
    decreases steps,
{
    if let Access::Read(key) = program(seen) {
        if part.contains_key(key) {
            assert(truth.contains_key(key) && part[key] == truth[key]);
            lemma_replay_on_a_part(
                program,
                truth,
                part,
                seen.push(truth[key]),
                (steps - 1) as nat,
            );
        }
    }
}

/// What a run of a call comes to that stands before a replay on a part of the state, and fetches
/// what is lacking, one thing at a time, for at most so many rounds.
pub open spec fn outcome_from<K, V, R>(
    program: Program<K, V, R>,
    truth: Map<K, V>,
    steps: nat,
    run: TransactRun,
    part: Map<K, V>,
    rounds: nat,
) -> Option<Replay<K, R>>
    decreases rounds,
{
    match replay(program, part, Seq::empty(), steps) {
        None => None,
        Some(came_to) => {
            let (next, phase) = match came_to {
                Replay::Lacked(_) => run.after_replay(false, true),
                Replay::Ended { went_through, .. } => run.after_replay(went_through, false),
            };
            match (phase, came_to) {
                (Phase::Fetch, Replay::Lacked(key)) => if rounds == 0 {
                    None
                } else {
                    outcome_from(
                        program,
                        truth,
                        steps,
                        next.after_fetch(true).0,
                        part.insert(key, truth[key]),
                        (rounds - 1) as nat,
                    )
                },
                _ => Some(came_to),
            }
        },
    }
}

/// What a call comes to after a prefetch that brought a part of the state, or failed and brought
/// nothing.
pub open spec fn outcome_of_call<K, V, R>(
    program: Program<K, V, R>,
    truth: Map<K, V>,
    steps: nat,
    prefetched: Option<Map<K, V>>,
    rounds: nat,
) -> Option<Replay<K, R>> {
    let (run, phase) = TransactRun::begun(prefetched is Some, false);
    let part = match prefetched {
        Some(part) => part,
        None => Map::empty(),
    };
    outcome_from(program, truth, steps, run, part, rounds)
}

proof fn lemma_outcome_from<K, V, R>(
    program: Program<K, V, R>,
    truth: Map<K, V>,
    steps: nat,
    run: TransactRun,
    part: Map<K, V>,
    rounds: nat,
)
    requires
        truth.dom().finite(),
        replay(program, truth, Seq::empty(), steps) is Some,
        replay(program, truth, Seq::empty(), steps)->0 is Ended,
        part.submap_of(truth),
        truth.len() <= part.len() + rounds,
    ensures
        outcome_from(program, truth, steps, run, part, rounds) == replay(
            program,
            truth,
            Seq::empty(),
            steps,
        ),
    decreases rounds,
{
    lemma_replay_on_a_part(program, truth, part, Seq::empty(), steps);
    assert(part.dom().subset_of(truth.dom()));
    vstd::set_lib::lemma_len_subset(part.dom(), truth.dom());
    if let Some(Replay::Lacked(key)) = replay(program, part, Seq::empty(), steps) {
        let more = part.insert(key, truth[key]);
        assert(more.submap_of(truth));
        assert(more.dom().subset_of(truth.dom()));
        assert(more.dom() =~= part.dom().insert(key));
        vstd::set_lib::lemma_len_subset(more.dom(), truth.dom());
        let next = run.after_replay(false, true).0.after_fetch(true).0;
        lemma_outcome_from(program, truth, steps, next, more, (rounds - 1) as nat);
    }
}

/// A prefetch that failed changes no outcome. Of every call that reads the state piece by piece
/// and ends on the whole of it, and where every later fetch succeeds, the outcome is the one on
/// the whole state: after a prefetch that failed, and after one that brought any part of the
/// state.
pub proof fn law_failed_prefetch_changes_no_outcome<K, V, R>(
    program: Program<K, V, R>,
    truth: Map<K, V>,
    steps: nat,
    part: Map<K, V>,
)
    requires
        truth.dom().finite(),
        replay(program, truth, Seq::empty(), steps) is Some,
        replay(program, truth, Seq::empty(), steps)->0 is Ended,
        part.submap_of(truth),
    ensures
        outcome_of_call(program, truth, steps, None, truth.len()) == replay(
            program,
            truth,
            Seq::empty(),
            steps,
        ),
        outcome_of_call(program, truth, steps, Some(part), truth.len()) == outcome_of_call(
            program,
            truth,
            steps,
            None,
            truth.len(),
        ),
{
    let run = TransactRun::begun(false, false).0;
    lemma_outcome_from(program, truth, steps, run, Map::empty(), truth.len());
    lemma_outcome_from(program, truth, steps, run, part, truth.len());
}

} // verus!
