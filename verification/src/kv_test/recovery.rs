//! How external clients outlast an owner that goes away: the checks, and how they are judged.

use crate::error::{KvError, KvResult};
use crate::kv_test::same_bytes;
use crate::text;
use vstd::prelude::*;

verus! {

/// What a part of the recovery check came to.
#[derive(Debug)]
pub enum RecoveryEvent {
    /// An external client was started without its owner: how the start ended, if it did in ten
    /// seconds.
    StartedAlone(Option<Result<(), ()>>),
    /// One of the external clients put and got a value of its own, all at once; `Err` where its
    /// task panicked.
    InParallel(Result<ParallelOutcome, ()>),
    /// The owner shut down and an external client has been putting for three seconds: whether the
    /// put has ended.
    PutWithoutOwner { ended: bool },
    /// The owner runs again: how the put ended, if it did in thirty seconds; `Err` where its task
    /// panicked.
    PutAfterRestart(Option<Result<KvResult<()>, ()>>),
    /// Another put, by the same external client.
    Put(KvResult<()>),
    /// A get of its value, by another external client.
    Get(KvResult<Option<Vec<u8>>>),
}

/// What an external client came to that put and got a value while others did.
#[derive(Debug)]
pub enum ParallelOutcome {
    PutFailed(KvError),
    GetFailed(KvError),
    Missing,
    Mismatch,
    Done,
}

/// Why the recovery check fails.
#[derive(Debug)]
pub enum RecoveryFault {
    /// An external client has to block until its owner is there.
    StartedWithoutOwner,
    FailedWithoutOwner,
    ParallelTask(ParallelOutcome),
    TaskPanicked,
    /// A put has to wait while the owner is away.
    PutDidNotWait,
    PutDidNotEnd,
    Put(KvError),
    Get(KvError),
    Missing,
    Mismatch,
}

/// A part of the recovery check is passed, or fails it.
pub open spec fn recovery_fault(event: RecoveryEvent, value: Seq<u8>) -> Option<RecoveryFault> {
    match event {
        RecoveryEvent::StartedAlone(None) => None,
        RecoveryEvent::StartedAlone(Some(Ok(_))) => Some(
            RecoveryFault::StartedWithoutOwner,
        ),
        RecoveryEvent::StartedAlone(Some(Err(_))) => Some(
            RecoveryFault::FailedWithoutOwner,
        ),
        RecoveryEvent::InParallel(Ok(ParallelOutcome::Done)) => None,
        RecoveryEvent::InParallel(Ok(outcome)) => Some(
            RecoveryFault::ParallelTask(outcome),
        ),
        RecoveryEvent::InParallel(Err(_)) => Some(RecoveryFault::TaskPanicked),
        RecoveryEvent::PutWithoutOwner { ended } => if ended {
            Some(RecoveryFault::PutDidNotWait)
        } else {
            None
        },
        RecoveryEvent::PutAfterRestart(Some(Ok(_))) => None,
        RecoveryEvent::PutAfterRestart(Some(Err(_))) => Some(RecoveryFault::TaskPanicked),
        RecoveryEvent::PutAfterRestart(None) => Some(RecoveryFault::PutDidNotEnd),
        RecoveryEvent::Put(Ok(_)) => None,
        RecoveryEvent::Put(Err(error)) => Some(RecoveryFault::Put(error)),
        RecoveryEvent::Get(Ok(Some(held))) => if held@ == value {
            None
        } else {
            Some(RecoveryFault::Mismatch)
        },
        RecoveryEvent::Get(Ok(None)) => Some(RecoveryFault::Missing),
        RecoveryEvent::Get(Err(error)) => Some(RecoveryFault::Get(error)),
    }
}

/// Judges a part of the recovery check. `value` is the one that the last put wrote.
pub fn judge_recovery(event: RecoveryEvent, value: &[u8]) -> (fault: Option<RecoveryFault>)
    ensures
        fault == recovery_fault(event, value@),
{
    match event {
        RecoveryEvent::StartedAlone(None) => None,
        RecoveryEvent::StartedAlone(Some(Ok(_))) => Some(
            RecoveryFault::StartedWithoutOwner,
        ),
        RecoveryEvent::StartedAlone(Some(Err(_))) => Some(
            RecoveryFault::FailedWithoutOwner,
        ),
        RecoveryEvent::InParallel(Ok(ParallelOutcome::Done)) => None,
        RecoveryEvent::InParallel(Ok(outcome)) => Some(
            RecoveryFault::ParallelTask(outcome),
        ),
        RecoveryEvent::InParallel(Err(_)) => Some(RecoveryFault::TaskPanicked),
        RecoveryEvent::PutWithoutOwner { ended } => {
            if ended {
                Some(RecoveryFault::PutDidNotWait)
            } else {
                None
            }
        },
        RecoveryEvent::PutAfterRestart(Some(Ok(_))) => None,
        RecoveryEvent::PutAfterRestart(Some(Err(_))) => Some(RecoveryFault::TaskPanicked),
        RecoveryEvent::PutAfterRestart(None) => Some(RecoveryFault::PutDidNotEnd),
        RecoveryEvent::Put(Ok(_)) => None,
        RecoveryEvent::Put(Err(error)) => Some(RecoveryFault::Put(error)),
        RecoveryEvent::Get(Ok(Some(held))) => {
            if same_bytes(held.as_slice(), value) {
                None
            } else {
                Some(RecoveryFault::Mismatch)
            }
        },
        RecoveryEvent::Get(Ok(None)) => Some(RecoveryFault::Missing),
        RecoveryEvent::Get(Err(error)) => Some(RecoveryFault::Get(error)),
    }
}

/// Judges an external client that puts and gets a value while others do.
pub fn judge_parallel(
    put: KvResult<()>,
    get: KvResult<Option<Vec<u8>>>,
    value: &[u8],
) -> (outcome: ParallelOutcome)
    ensures
        outcome == match put {
            Err(error) => ParallelOutcome::PutFailed(error),
            Ok(_) => match get {
                Err(error) => ParallelOutcome::GetFailed(error),
                Ok(None) => ParallelOutcome::Missing,
                Ok(Some(held)) => if held@ == value@ {
                    ParallelOutcome::Done
                } else {
                    ParallelOutcome::Mismatch
                },
            },
        },
{
    if let Err(error) = put {
        return ParallelOutcome::PutFailed(error);
    }
    match get {
        Err(error) => ParallelOutcome::GetFailed(error),
        Ok(None) => ParallelOutcome::Missing,
        Ok(Some(held)) => {
            if same_bytes(held.as_slice(), value) {
                ParallelOutcome::Done
            } else {
                ParallelOutcome::Mismatch
            }
        },
    }
}

/// External clients wait for their owner: the check fails if a start or a put ends while the owner
/// is away, however it ends.
pub proof fn law_external_clients_wait_for_their_owner(
    started: Result<(), ()>,
    value: Seq<u8>,
)
    ensures
        recovery_fault(RecoveryEvent::StartedAlone(Some(started)), value) is Some,
        recovery_fault(RecoveryEvent::StartedAlone(None), value) is None,
        recovery_fault(RecoveryEvent::PutWithoutOwner { ended: true }, value) is Some,
        recovery_fault(RecoveryEvent::PutWithoutOwner { ended: false }, value) is None,
{
}

/// What a test waits for in the number of values that an owner holds for others.
#[derive(Debug, Clone, Copy, PartialEq, Eq, Structural)]
pub enum HoldingWait {
    /// One more than before, since an external client holds a value; polled every 20 ms, for five
    /// seconds.
    Acquired,
    /// As many as before, since the external client let it go; polled every 100 ms.
    Released,
    /// As many as before, since the external client shut down; polled every 100 ms.
    Left,
}

/// What a test does that waits for the number of values held.
#[derive(Debug, Clone, Copy, PartialEq, Eq, Structural)]
pub enum HoldingStep {
    Reached,
    Wait,
    /// More values are held than the test asked for.
    TooMany,
    TimedOut,
}

/// How many polls a wait for values to be let go of may take.
pub open spec fn polls_allowed(wait: HoldingWait) -> u64 {
    match wait {
        HoldingWait::Acquired => 0,
        HoldingWait::Released => 200,
        HoldingWait::Left => 300,
    }
}

/// Judges the number of values that an owner holds: `base` is what it held before, `polls` how
/// often the test has slept, and `out_of_time` whether five seconds have passed.
pub fn judge_holding(
    wait: HoldingWait,
    held: usize,
    base: usize,
    polls: u64,
    out_of_time: bool,
) -> (step: HoldingStep)
    requires
        polls < u64::MAX,
    ensures
        step == match wait {
            HoldingWait::Acquired => if held == base + 1 {
                HoldingStep::Reached
            } else if held > base {
                HoldingStep::TooMany
            } else if out_of_time {
                HoldingStep::TimedOut
            } else {
                HoldingStep::Wait
            },
            _ => if held == base {
                HoldingStep::Reached
            } else if polls + 1 < polls_allowed(wait) {
                HoldingStep::Wait
            } else {
                HoldingStep::TimedOut
            },
        },
{
    let allowed: u64 = match wait {
        HoldingWait::Acquired => {
            if held > base {
                if held - base == 1 {
                    return HoldingStep::Reached;
                }
                return HoldingStep::TooMany;
            }
            if out_of_time {
                return HoldingStep::TimedOut;
            }
            return HoldingStep::Wait;
        },
        HoldingWait::Released => 200,
        HoldingWait::Left => 300,
    };
    if held == base {
        return HoldingStep::Reached;
    }
    if polls + 1 < allowed {
        HoldingStep::Wait
    } else {
        HoldingStep::TimedOut
    }
}

/// What a get of an external client brings as its owner goes away and comes back.
#[derive(Debug)]
pub enum LifetimeEvent {
    /// The owner is away: whether the get ended in two seconds.
    WithoutOwner { ended: bool },
    /// The owner is back without the value: how the get ended, if it did in two seconds.
    BeforePut(Option<KvResult<Option<Vec<u8>>>>),
    /// The owner put the value again.
    AfterPut(KvResult<Option<Vec<u8>>>),
}

/// Why the check of an external client's lifetime fails.
#[derive(Debug)]
pub enum LifetimeFault {
    /// A get has to wait while the owner is away.
    AnsweredWithoutOwner,
    /// A get has to be answered once the owner is back.
    TimedOut,
    /// A value that the owner has not put again is gone.
    FoundBeforePut,
    Get(KvError),
    Missing,
    Mismatch,
}

pub open spec fn lifetime_fault(event: LifetimeEvent, value: Seq<u8>) -> Option<LifetimeFault> {
    match event {
        LifetimeEvent::WithoutOwner { ended } => if ended {
            Some(LifetimeFault::AnsweredWithoutOwner)
        } else {
            None
        },
        LifetimeEvent::BeforePut(Some(Ok(None))) => None,
        LifetimeEvent::BeforePut(Some(Ok(Some(_)))) => Some(
            LifetimeFault::FoundBeforePut,
        ),
        LifetimeEvent::BeforePut(Some(Err(error))) => Some(LifetimeFault::Get(error)),
        LifetimeEvent::BeforePut(None) => Some(LifetimeFault::TimedOut),
        LifetimeEvent::AfterPut(Ok(Some(held))) => if held@ == value {
            None
        } else {
            Some(LifetimeFault::Mismatch)
        },
        LifetimeEvent::AfterPut(Ok(None)) => Some(LifetimeFault::Missing),
        LifetimeEvent::AfterPut(Err(error)) => Some(LifetimeFault::Get(error)),
    }
}

/// Judges a get of an external client as its owner goes away and comes back: it waits for the
/// owner, finds nothing that the owner has not put again, and finds what it has.
pub fn judge_lifetime(event: LifetimeEvent, value: &[u8]) -> (fault: Option<LifetimeFault>)
    ensures
        fault == lifetime_fault(event, value@),
{
    match event {
        LifetimeEvent::WithoutOwner { ended } => if ended {
            Some(LifetimeFault::AnsweredWithoutOwner)
        } else {
            None
        },
        LifetimeEvent::BeforePut(Some(Ok(None))) => None,
        LifetimeEvent::BeforePut(Some(Ok(Some(_)))) => Some(
            LifetimeFault::FoundBeforePut,
        ),
        LifetimeEvent::BeforePut(Some(Err(error))) => Some(LifetimeFault::Get(error)),
        LifetimeEvent::BeforePut(None) => Some(LifetimeFault::TimedOut),
        LifetimeEvent::AfterPut(Ok(Some(held))) => {
            if same_bytes(held.as_slice(), value) {
                None
            } else {
                Some(LifetimeFault::Mismatch)
            }
        },
        LifetimeEvent::AfterPut(Ok(None)) => Some(LifetimeFault::Missing),
        LifetimeEvent::AfterPut(Err(error)) => Some(LifetimeFault::Get(error)),
    }
}

/// What a test does that waits for the master to have allocators of a node.
#[derive(Debug, Clone, Copy, PartialEq, Eq, Structural)]
pub enum AllocatorWait {
    Ready,
    /// Sleep for 100 ms and look again.
    Wait,
    TimedOut,
}

/// Judges how many allocators the master has of a node.
pub fn wait_node_allocators(allocators: usize, deadline_passed: bool) -> (step: AllocatorWait)
    ensures
        step == if allocators > 0 {
            AllocatorWait::Ready
        } else if deadline_passed {
            AllocatorWait::TimedOut
        } else {
            AllocatorWait::Wait
        },
{
    if allocators > 0 {
        AllocatorWait::Ready
    } else if deadline_passed {
        AllocatorWait::TimedOut
    } else {
        AllocatorWait::Wait
    }
}

/// An endpoint of etcd without its scheme.
pub open spec fn without_scheme(endpoint: Seq<char>) -> Seq<char> {
    if "http://"@.is_prefix_of(endpoint) {
        endpoint.skip("http://"@.len() as int)
    } else if "https://"@.is_prefix_of(endpoint) {
        endpoint.skip("https://"@.len() as int)
    } else {
        endpoint
    }
}

/// An endpoint of etcd without its scheme.
pub fn etcd_host_port(endpoint: &str) -> (host_port: String)
    ensures
        host_port@ == without_scheme(endpoint@),
{
    proof {
        reveal_strlit("http://");
        reveal_strlit("https://");
    }
    if text::starts_with(endpoint, "http://") {
        return text::text_of(&skip_chars(endpoint, 7));
    }
    if text::starts_with(endpoint, "https://") {
        return text::text_of(&skip_chars(endpoint, 8));
    }
    endpoint.to_owned()
}

fn skip_chars(text: &str, count: usize) -> (rest: Vec<char>)
    requires
        count <= text@.len(),
    ensures
        rest@ == text@.skip(count as int),
{
    let chars = text::chars_of(text);
    let mut rest: Vec<char> = Vec::new();
    let mut i: usize = count;
    while i < chars.len()
        invariant
            count <= i <= chars@.len(),
            chars@ == text@,
            rest@ == chars@.subrange(count as int, i as int),
        decreases chars@.len() - i,
    {
        rest.push(chars[i]);
        assert(chars@.subrange(count as int, i + 1) =~= chars@.subrange(
            count as int,
            i as int,
        ).push(chars@[i as int]));
        i = i + 1;
    }
    assert(rest@ =~= text@.skip(count as int));
    rest
}

} // verus!
