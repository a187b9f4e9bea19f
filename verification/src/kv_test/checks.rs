//! The checks of a test round: what each does next, and how it judges the answers.

use crate::error::{ApiErrorOf, KvError, KvErrorOf, KvResult};
use crate::kv_test::same_bytes;
use crate::master_kv_router::routes::OneKvNodesRoutes;
use crate::master_seg_manager::TombBoard;
use vstd::prelude::*;

verus! {

/// What a client answered in the check of its operations.
#[derive(Debug)]
pub enum CrudReply {
    Put(KvResult<()>),
    Get(KvResult<Option<Vec<u8>>>),
    Exist(KvResult<bool>),
    Delete(KvResult<()>),
}

/// Why the check of a client's operations fails.
#[derive(Debug)]
pub enum CrudFault {
    Kv(KvError),
    /// Data validation failed for the client.
    Mismatch,
    /// Key not found
    NotFound,
    /// Key should exist
    ShouldExist,
}

/// What the check of a client's operations does next. It begins with a put.
#[derive(Debug)]
pub enum CrudStep {
    Get,
    Exist,
    Delete,
    Done,
    Failed(CrudFault),
}

/// What follows an answer.
pub open spec fn crud_step(reply: CrudReply, value: Seq<u8>) -> CrudStep {
    match reply {
        CrudReply::Put(Ok(_)) => CrudStep::Get,
        CrudReply::Put(Err(error)) => CrudStep::Failed(CrudFault::Kv(error)),
        CrudReply::Get(Ok(Some(held))) => if held@ == value {
            CrudStep::Exist
        } else {
            CrudStep::Failed(CrudFault::Mismatch)
        },
        CrudReply::Get(Ok(None)) => CrudStep::Failed(CrudFault::NotFound),
        CrudReply::Get(Err(error)) => CrudStep::Failed(CrudFault::Kv(error)),
        CrudReply::Exist(Ok(true)) => CrudStep::Delete,
        CrudReply::Exist(Ok(false)) => CrudStep::Failed(CrudFault::ShouldExist),
        CrudReply::Exist(Err(error)) => CrudStep::Failed(CrudFault::Kv(error)),
        CrudReply::Delete(_) => CrudStep::Done,
    }
}

/// Judges an answer of a client whose operations are checked: the value that it put comes back and
/// exists. How its deletion ends does not matter.
pub fn judge_crud_reply(reply: CrudReply, value: &[u8]) -> (step: CrudStep)
    ensures
        step == crud_step(reply, value@),
{
    match reply {
        CrudReply::Put(Ok(_)) => CrudStep::Get,
        CrudReply::Put(Err(error)) => CrudStep::Failed(CrudFault::Kv(error)),
        CrudReply::Get(Ok(Some(held))) => {
            if same_bytes(held.as_slice(), value) {
                CrudStep::Exist
            } else {
                CrudStep::Failed(CrudFault::Mismatch)
            }
        },
        CrudReply::Get(Ok(None)) => CrudStep::Failed(CrudFault::NotFound),
        CrudReply::Get(Err(error)) => CrudStep::Failed(CrudFault::Kv(error)),
        CrudReply::Exist(Ok(exists)) => {
            if exists {
                CrudStep::Delete
            } else {
                CrudStep::Failed(CrudFault::ShouldExist)
            }
        },
        CrudReply::Exist(Err(error)) => CrudStep::Failed(CrudFault::Kv(error)),
        CrudReply::Delete(_) => CrudStep::Done,
    }
}

/// A client passes the check exactly if its put succeeds, the value comes back whole and exists.
pub proof fn law_client_passes_if_its_value_is_kept(
    put: KvResult<()>,
    get: KvResult<Option<Vec<u8>>>,
    exist: KvResult<bool>,
    delete: KvResult<()>,
    value: Seq<u8>,
)
    ensures
        (crud_step(CrudReply::Put(put), value) is Get && crud_step(CrudReply::Get(get), value)
            is Exist && crud_step(CrudReply::Exist(exist), value) is Delete && crud_step(
            CrudReply::Delete(delete),
            value,
        ) is Done) <==> (put is Ok && (get matches Ok(Some(held)) && held@ == value) && exist == Ok::<
            bool,
            KvError,
        >(true)),
{
}

/// One of the gets that a client makes at once.
#[derive(Debug)]
pub enum GetOutcome {
    /// The value, and whether another node was asked for it.
    Found { value: Vec<u8>, remote: bool },
    Missing,
    Failed(KvError),
}

/// What is wrong with the gets that a client makes at once.
#[derive(Debug, Clone, Copy, PartialEq, Eq, Structural)]
pub enum GetsFault {
    /// The value at this position is not the one that was put.
    Mismatch { at: usize },
    Missing { at: usize },
    Failed { at: usize },
    /// Only the first of them may ask another node, and it has to.
    Remote { count: usize },
}

/// The get brought the value.
pub open spec fn brought(outcome: GetOutcome, value: Seq<u8>) -> bool {
    outcome matches GetOutcome::Found { value: held, .. } && held@ == value
}

/// How many of the gets asked another node.
pub open spec fn remote_count(outcomes: Seq<GetOutcome>) -> nat
    decreases outcomes.len(),
{
    if outcomes.len() == 0 {
        0
    } else {
        let before = remote_count(outcomes.drop_last());
        match outcomes.last() {
            GetOutcome::Found { remote: true, .. } => before + 1,
            _ => before,
        }
    }
}

/// Judges gets that a client makes at once after another client put a value: each brings the value,
/// and exactly one of them asks another node.
pub fn judge_gets_after_put(outcomes: &Vec<GetOutcome>, value: &[u8]) -> (verdict:
    Result<(), GetsFault>)
    ensures
        match verdict {
            Ok(_) => {
                &&& forall|i: int|
                    0 <= i < outcomes@.len() ==> brought(#[trigger] outcomes@[i], value@)
                &&& remote_count(outcomes@) == 1
            },
            Err(GetsFault::Remote { count }) => {
                &&& forall|i: int|
                    0 <= i < outcomes@.len() ==> brought(#[trigger] outcomes@[i], value@)
                &&& count == remote_count(outcomes@)
                &&& count != 1
            },
            Err(GetsFault::Mismatch { at }) => {
                &&& at < outcomes@.len()
                &&& outcomes@[at as int] is Found
                &&& !brought(outcomes@[at as int], value@)
                &&& forall|i: int| 0 <= i < at ==> brought(#[trigger] outcomes@[i], value@)
            },
            Err(GetsFault::Missing { at }) => {
                &&& at < outcomes@.len()
                &&& outcomes@[at as int] is Missing
                &&& forall|i: int| 0 <= i < at ==> brought(#[trigger] outcomes@[i], value@)
            },
            Err(GetsFault::Failed { at }) => {
                &&& at < outcomes@.len()
                &&& outcomes@[at as int] is Failed
                &&& forall|i: int| 0 <= i < at ==> brought(#[trigger] outcomes@[i], value@)
            },
        },
{
    let mut count: usize = 0;
    let mut i: usize = 0;
    assert(outcomes@.take(0) =~= Seq::<GetOutcome>::empty());
    while i < outcomes.len()
        invariant
            i <= outcomes@.len(),
            count <= i,
            count == remote_count(outcomes@.take(i as int)),
            forall|k: int| 0 <= k < i ==> brought(#[trigger] outcomes@[k], value@),
        decreases outcomes@.len() - i,
    {
        proof {
            assert(outcomes@.take(i + 1).drop_last() =~= outcomes@.take(i as int));
            assert(outcomes@.take(i + 1).last() == outcomes@[i as int]);
        }
        match &outcomes[i] {
            GetOutcome::Found { value: held, remote } => {
                if !same_bytes(held.as_slice(), value) {
                    return Err(GetsFault::Mismatch { at: i });
                }
                if *remote {
                    count = count + 1;
                }
            },
            GetOutcome::Missing => {
                return Err(GetsFault::Missing { at: i });
            },
            GetOutcome::Failed(_) => {
                return Err(GetsFault::Failed { at: i });
            },
        }
        i = i + 1;
    }
    assert(outcomes@.take(i as int) =~= outcomes@);
    if count != 1 {
        return Err(GetsFault::Remote { count });
    }
    Ok(())
}

/// How often a key is put and read in the check of the metadata caches.
pub const META_CACHE_TIMES: u32 = 10;

/// How many gets a client makes at once after each put.
pub const META_CACHE_GETS: u32 = 10;

/// The two clients of a check.
#[derive(Debug, Clone, Copy, PartialEq, Eq, Structural)]
pub enum CheckClient {
    First,
    Second,
}

/// The client that puts the key the `time`th time: the two take turns.
pub open spec fn writer(time: int) -> CheckClient {
    if time % 2 == 0 {
        CheckClient::First
    } else {
        CheckClient::Second
    }
}

/// The client that reads the key after its `time`th put: the one that did not put it.
pub open spec fn reader(time: int) -> CheckClient {
    writer(time + 1)
}

/// Why the check of the metadata caches fails.
#[derive(Debug)]
pub enum MetaCacheFault {
    Put(KvError),
    Gets(GetsFault),
    /// The value is still accessible after its key was deleted.
    StillAccessible,
}

/// What the check of the metadata caches does next.
#[derive(Debug)]
pub enum MetaCacheStep {
    Put { client: CheckClient },
    /// Wait six seconds; then the client makes its gets at once.
    ReadAtOnce { client: CheckClient },
    /// The first client deletes the key.
    Delete,
    /// Wait a minute, until the caches have seen the deletion; then the first client gets the key.
    GetDeleted,
    Passed,
    /// The check ends with an error that says nothing of the caches.
    Unclear(KvError),
    Failed(MetaCacheFault),
}

/// The check of the metadata caches, after `time` puts and their reads.
#[derive(Debug)]
pub struct MetaCacheCheck {
    pub time: u32,
}

impl MetaCacheCheck {
    pub open spec fn wf(self) -> bool {
        self.time < META_CACHE_TIMES
    }

    pub fn begin() -> (begun: (MetaCacheCheck, MetaCacheStep))
        ensures
            begun.0.wf(),
            begun.0.time == 0,
            begun.1 == (MetaCacheStep::Put { client: CheckClient::First }),
    {
        (MetaCacheCheck { time: 0 }, MetaCacheStep::Put { client: CheckClient::First })
    }

    pub fn on_put(&self, reply: KvResult<()>) -> (step: MetaCacheStep)
        ensures
            step == match reply {
                Ok(_) => MetaCacheStep::ReadAtOnce { client: reader(self.time as int) },
                Err(error) => MetaCacheStep::Failed(MetaCacheFault::Put(error)),
            },
    {
        match reply {
            Ok(_) => MetaCacheStep::ReadAtOnce {
                client: if self.time % 2 == 0 {
                    CheckClient::Second
                } else {
                    CheckClient::First
                },
            },
            Err(error) => MetaCacheStep::Failed(MetaCacheFault::Put(error)),
        }
    }

    pub fn on_reads(&mut self, verdict: Result<(), GetsFault>) -> (step: MetaCacheStep)
        requires
            old(self).wf(),
        ensures
            match verdict {
                Err(fault) => final(self).time == old(self).time && step == MetaCacheStep::Failed(
                    MetaCacheFault::Gets(fault),
                ),
                Ok(_) => if old(self).time + 1 < META_CACHE_TIMES {
                    &&& final(self).time == old(self).time + 1
                    &&& step == (MetaCacheStep::Put { client: writer(old(self).time + 1) })
                } else {
                    final(self).time == old(self).time && step is Delete
                },
            },
            final(self).wf(),
    {
        if let Err(fault) = verdict {
            return MetaCacheStep::Failed(MetaCacheFault::Gets(fault));
        }
        if self.time + 1 < META_CACHE_TIMES {
            self.time = self.time + 1;
            return MetaCacheStep::Put {
                client: if self.time % 2 == 0 {
                    CheckClient::First
                } else {
                    CheckClient::Second
                },
            };
        }
        MetaCacheStep::Delete
    }

    /// Deletion may fail: the get that follows tells.
    pub fn on_delete(&self) -> (step: MetaCacheStep)
        ensures
            step is GetDeleted,
    {
        MetaCacheStep::GetDeleted
    }

    /// The get after the deletion: `Some` where it brought a value.
    pub fn on_get_deleted(&self, reply: KvResult<Option<()>>) -> (step: MetaCacheStep)
        ensures
            step == match reply {
                Ok(Some(_)) => MetaCacheStep::Failed(MetaCacheFault::StillAccessible),
                Ok(None) => MetaCacheStep::Passed,
                Err(KvErrorOf::Api(ApiErrorOf::KeyNotFound { .. })) => MetaCacheStep::Passed,
                Err(error) => MetaCacheStep::Unclear(error),
            },
    {
        match reply {
            Ok(Some(_)) => MetaCacheStep::Failed(MetaCacheFault::StillAccessible),
            Ok(None) => MetaCacheStep::Passed,
            Err(KvErrorOf::Api(ApiErrorOf::KeyNotFound { .. })) => MetaCacheStep::Passed,
            Err(error) => MetaCacheStep::Unclear(error),
        }
    }
}

/// The client that reads is never the one that put, and the two take turns.
pub proof fn law_readers_are_not_writers(time: int)
    ensures
        reader(time) != writer(time),
        writer(time + 1) == reader(time),
        writer(time + 2) == writer(time),
{
}

/// An answer in the check that a client that shut down leaves nothing behind.
#[derive(Debug)]
pub enum ShutdownReply {
    Put(KvResult<()>),
    /// A get before the client shut down: whether it brought the value.
    Confirm(KvResult<bool>),
    /// The client shut down and another one runs: whether it sees the key.
    Exists(KvResult<bool>),
    /// A get after it saw the key: whether it brought the value.
    Leftover(KvResult<bool>),
    /// The last get: whether it brought the value.
    Get(KvResult<bool>),
}

/// Why the check of a shutdown fails.
#[derive(Debug)]
pub enum ShutdownFault {
    Put(KvError),
    NotFoundBefore,
    GetBefore(KvError),
    Exists(KvError),
    /// The key exists and its value is accessible.
    StillAccessible,
    /// The key exists without its value.
    PartialCleanup,
    /// The key exists and cannot be read.
    Inconsistent(KvError),
    Unclear(KvError),
}

/// What the check of a shutdown does next. It begins with a put.
#[derive(Debug)]
pub enum ShutdownStep {
    Confirm,
    /// Shut the client down, start another one, and ask it whether the key exists.
    Replace,
    ReadLeftover,
    Get,
    Passed,
    Failed(ShutdownFault),
}

/// What follows an answer.
pub open spec fn shutdown_step(reply: ShutdownReply) -> ShutdownStep {
    match reply {
        ShutdownReply::Put(Ok(_)) => ShutdownStep::Confirm,
        ShutdownReply::Put(Err(error)) => ShutdownStep::Failed(ShutdownFault::Put(error)),
        ShutdownReply::Confirm(Ok(true)) => ShutdownStep::Replace,
        ShutdownReply::Confirm(Ok(false)) => ShutdownStep::Failed(ShutdownFault::NotFoundBefore),
        ShutdownReply::Confirm(Err(error)) => ShutdownStep::Failed(ShutdownFault::GetBefore(error)),
        ShutdownReply::Exists(Ok(true)) => ShutdownStep::ReadLeftover,
        ShutdownReply::Exists(Ok(false)) => ShutdownStep::Get,
        ShutdownReply::Exists(Err(error)) => ShutdownStep::Failed(ShutdownFault::Exists(error)),
        ShutdownReply::Leftover(Ok(true)) => ShutdownStep::Failed(ShutdownFault::StillAccessible),
        ShutdownReply::Leftover(Ok(false)) => ShutdownStep::Failed(ShutdownFault::PartialCleanup),
        ShutdownReply::Leftover(Err(error)) => ShutdownStep::Failed(
            ShutdownFault::Inconsistent(error),
        ),
        ShutdownReply::Get(Ok(true)) => ShutdownStep::Failed(ShutdownFault::StillAccessible),
        ShutdownReply::Get(Ok(false)) => ShutdownStep::Passed,
        ShutdownReply::Get(Err(error)) => ShutdownStep::Failed(ShutdownFault::Unclear(error)),
    }
}

/// Judges an answer in the check of a shutdown: what the client put is there while it runs, and is
/// gone after it shut down.
pub fn judge_shutdown_reply(reply: ShutdownReply) -> (step: ShutdownStep)
    ensures
        step == shutdown_step(reply),
{
    match reply {
        ShutdownReply::Put(Ok(_)) => ShutdownStep::Confirm,
        ShutdownReply::Put(Err(error)) => ShutdownStep::Failed(ShutdownFault::Put(error)),
        ShutdownReply::Confirm(Ok(found)) => {
            if found {
                ShutdownStep::Replace
            } else {
                ShutdownStep::Failed(ShutdownFault::NotFoundBefore)
            }
        },
        ShutdownReply::Confirm(Err(error)) => ShutdownStep::Failed(ShutdownFault::GetBefore(error)),
        ShutdownReply::Exists(Ok(exists)) => {
            if exists {
                ShutdownStep::ReadLeftover
            } else {
                ShutdownStep::Get
            }
        },
        ShutdownReply::Exists(Err(error)) => ShutdownStep::Failed(ShutdownFault::Exists(error)),
        ShutdownReply::Leftover(Ok(found)) => {
            if found {
                ShutdownStep::Failed(ShutdownFault::StillAccessible)
            } else {
                ShutdownStep::Failed(ShutdownFault::PartialCleanup)
            }
        },
        ShutdownReply::Leftover(Err(error)) => ShutdownStep::Failed(
            ShutdownFault::Inconsistent(error),
        ),
        ShutdownReply::Get(Ok(found)) => {
            if found {
                ShutdownStep::Failed(ShutdownFault::StillAccessible)
            } else {
                ShutdownStep::Passed
            }
        },
        ShutdownReply::Get(Err(error)) => ShutdownStep::Failed(ShutdownFault::Unclear(error)),
    }
}

/// A key that outlives the client that put it fails the check, whatever a get of it brings.
pub proof fn law_leftover_key_fails_the_check(leftover: KvResult<bool>)
    ensures
        shutdown_step(ShutdownReply::Exists(Ok(true))) is ReadLeftover,
        shutdown_step(ShutdownReply::Leftover(leftover)) is Failed,
{
}

/// How often a client polls for the message of another one.
pub const MAX_POLL_ATTEMPTS: u32 = 5;

/// What polling for a message does next.
#[derive(Debug, Clone, Copy, PartialEq, Eq, Structural)]
pub enum PollStep {
    Received,
    /// Sleep for a second and poll again.
    Again,
    Failed,
}

/// A client that polls for the message of another one.
#[derive(Debug)]
pub struct CommunicationPoll {
    pub attempts: u32,
}

impl CommunicationPoll {
    pub fn begin() -> (poll: CommunicationPoll)
        ensures
            poll.attempts == 0,
    {
        CommunicationPoll { attempts: 0 }
    }

    /// A poll: a missing message and an error alike are polled for again.
    pub fn on_get(&mut self, reply: &KvResult<Option<()>>) -> (step: PollStep)
        requires
            old(self).attempts < MAX_POLL_ATTEMPTS,
        ensures
            final(self).attempts == old(self).attempts + 1,
            step == if *reply matches Ok(Some(_)) {
                PollStep::Received
            } else if final(self).attempts < MAX_POLL_ATTEMPTS {
                PollStep::Again
            } else {
                PollStep::Failed
            },
    {
        self.attempts = self.attempts + 1;
        match reply {
            Ok(Some(_)) => PollStep::Received,
            _ => {
                if self.attempts < MAX_POLL_ATTEMPTS {
                    PollStep::Again
                } else {
                    PollStep::Failed
                }
            },
        }
    }
}

/// What became of the keys of a client that shut down.
#[derive(Debug, Clone, Copy, PartialEq, Eq, Structural)]
pub struct PersistenceTally {
    pub found: u32,
    pub not_found: u32,
    pub errors: u32,
    /// Those of the errors that say that there was no space.
    pub no_space: u32,
}

/// The get failed because there was no space.
pub open spec fn lacks_space(reply: KvResult<Option<()>>) -> bool {
    reply matches Err(KvErrorOf::Api(ApiErrorOf::NoSpace { .. }))
}

/// How many of the gets meet a condition.
pub open spec fn count_of(
    replies: Seq<KvResult<Option<()>>>,
    counts: spec_fn(KvResult<Option<()>>) -> bool,
) -> nat
    decreases replies.len(),
{
    if replies.len() == 0 {
        0
    } else {
        count_of(replies.drop_last(), counts) + if counts(replies.last()) {
            1nat
        } else {
            0nat
        }
    }
}

impl PersistenceTally {
    /// The tally counts these gets.
    pub open spec fn counts(self, replies: Seq<KvResult<Option<()>>>) -> bool {
        &&& self.found == count_of(replies, |reply: KvResult<Option<()>>| reply matches Ok(Some(_)))
        &&& self.not_found == count_of(
            replies,
            |reply: KvResult<Option<()>>| reply matches Ok(None),
        )
        &&& self.errors == count_of(replies, |reply: KvResult<Option<()>>| reply is Err)
        &&& self.no_space == count_of(replies, |reply: KvResult<Option<()>>| lacks_space(reply))
    }

    /// No get failed for want of space: gets one after another always find some.
    pub fn passes(&self) -> (passes: bool)
        ensures
            passes == (self.no_space == 0),
    {
        self.no_space == 0
    }

    /// No get failed at all: what the owner is asked for is there or not.
    pub fn passes_strictly(&self) -> (passes: bool)
        ensures
            passes == (self.errors == 0),
    {
        self.errors == 0
    }
}

/// Counts what gets of the keys of a client that shut down brought.
pub fn tally_persistence(replies: &Vec<KvResult<Option<()>>>) -> (tally: PersistenceTally)
    requires
        replies@.len() <= u32::MAX,
    ensures
        tally.counts(replies@),
        tally.found + tally.not_found + tally.errors == replies@.len(),
        tally.no_space <= tally.errors,
{
    let mut tally = PersistenceTally { found: 0, not_found: 0, errors: 0, no_space: 0 };
    let mut i: usize = 0;
    assert(replies@.take(0) =~= Seq::<KvResult<Option<()>>>::empty());
    while i < replies.len()
        invariant
            i <= replies@.len(),
            replies@.len() <= u32::MAX,
            tally.counts(replies@.take(i as int)),
            tally.found + tally.not_found + tally.errors == i,
            tally.no_space <= tally.errors,
        decreases replies@.len() - i,
    {
        proof {
            assert(replies@.take(i + 1).drop_last() =~= replies@.take(i as int));
            assert(replies@.take(i + 1).last() == replies@[i as int]);
        }
        match &replies[i] {
            Ok(Some(_)) => {
                tally.found = tally.found + 1;
            },
            Ok(None) => {
                tally.not_found = tally.not_found + 1;
            },
            Err(KvErrorOf::Api(ApiErrorOf::NoSpace { .. })) => {
                tally.no_space = tally.no_space + 1;
                tally.errors = tally.errors + 1;
            },
            Err(_) => {
                tally.errors = tally.errors + 1;
            },
        }
        i = i + 1;
    }
    assert(replies@.take(i as int) =~= replies@);
    tally
}

/// What a call of a round's client brought.
#[derive(Debug)]
pub enum RoundEvent {
    /// The owner put the message for another client.
    MessagePut(KvResult<()>),
    /// The client that is to shut down put a value.
    PersistencePut(KvResult<()>),
    /// The owner read one of the many values of the client that shut down.
    OwnerRead(KvResult<Option<()>>),
    /// The owner or the new client read the special value of the client that shut down.
    SpecialRead(KvResult<Option<()>>),
    /// The new client read the message, so that it holds a replica.
    ReplicaRead(KvResult<Option<Vec<u8>>>),
    /// The new client put a value of its own.
    NewClientPut(KvResult<()>),
    /// A client asked whether a key exists.
    Existence(KvResult<bool>),
}

/// Why a call of a client fails the round.
#[derive(Debug)]
pub enum RoundFault {
    Put(KvError),
    Read(KvError),
    /// The value is not there.
    NotFound,
    /// Another value came back.
    Mismatch,
}

/// Why the round fails, if it does: a value that others rely on has to be put, the owner's reads of
/// the many values must not fail, and the new client has to get the message as it was put. How the
/// special value is read, what the new client puts and what exists is only reported.
pub open spec fn round_fault(event: RoundEvent, message: Seq<u8>) -> Option<RoundFault> {
    match event {
        RoundEvent::MessagePut(Err(error)) => Some(RoundFault::Put(error)),
        RoundEvent::PersistencePut(Err(error)) => Some(RoundFault::Put(error)),
        RoundEvent::OwnerRead(Err(error)) => Some(RoundFault::Read(error)),
        RoundEvent::ReplicaRead(Ok(Some(held))) => if held@ == message {
            None
        } else {
            Some(RoundFault::Mismatch)
        },
        RoundEvent::ReplicaRead(Ok(None)) => Some(RoundFault::NotFound),
        RoundEvent::ReplicaRead(Err(error)) => Some(RoundFault::Read(error)),
        _ => None,
    }
}

/// Judges what a call of a round's client brought; `message` is what the owner put for the others.
pub fn judge_round_event(event: RoundEvent, message: &[u8]) -> (fault: Option<RoundFault>)
    ensures
        fault == round_fault(event, message@),
{
    match event {
        RoundEvent::MessagePut(Err(error)) => Some(RoundFault::Put(error)),
        RoundEvent::PersistencePut(Err(error)) => Some(RoundFault::Put(error)),
        RoundEvent::OwnerRead(Err(error)) => Some(RoundFault::Read(error)),
        RoundEvent::ReplicaRead(Ok(Some(held))) => {
            if same_bytes(held.as_slice(), message) {
                None
            } else {
                Some(RoundFault::Mismatch)
            }
        },
        RoundEvent::ReplicaRead(Ok(None)) => Some(RoundFault::NotFound),
        RoundEvent::ReplicaRead(Err(error)) => Some(RoundFault::Read(error)),
        _ => None,
    }
}

/// The owner's reads of what a client that shut down had put pass exactly if none of them fails the
/// round.
pub proof fn law_strict_tally_judges_each_read(
    replies: Seq<KvResult<Option<()>>>,
    tally: PersistenceTally,
    message: Seq<u8>,
)
    requires
        tally.counts(replies),
    ensures
        tally.errors == 0 <==> forall|i: int|
            0 <= i < replies.len() ==> round_fault(
                RoundEvent::OwnerRead(#[trigger] replies[i]),
                message,
            ) is None,
{
    let fails = |reply: KvResult<Option<()>>| reply is Err;
    lemma_none_counted(replies, fails);
    assert forall|i: int| 0 <= i < replies.len() implies (round_fault(
        RoundEvent::OwnerRead(#[trigger] replies[i]),
        message,
    ) is None <==> !fails(replies[i])) by {}
    if tally.errors != 0 {
        let i = choose|i: int| 0 <= i < replies.len() && fails(#[trigger] replies[i]);
        assert(round_fault(RoundEvent::OwnerRead(replies[i]), message) is Some);
    }
}

proof fn lemma_none_counted(
    replies: Seq<KvResult<Option<()>>>,
    counts: spec_fn(KvResult<Option<()>>) -> bool,
)
    ensures
        count_of(replies, counts) == 0 <==> forall|i: int|
            0 <= i < replies.len() ==> !counts(#[trigger] replies[i]),
    decreases replies.len(),
{
    if replies.len() > 0 {
        let before = replies.drop_last();
        lemma_none_counted(before, counts);
        assert(replies.last() == replies[replies.len() - 1]);
        assert forall|i: int| 0 <= i < before.len() implies before[i] == #[trigger] replies[i] by {}
        if count_of(replies, counts) != 0 && !counts(replies.last()) {
            let i = choose|i: int| 0 <= i < before.len() && counts(#[trigger] before[i]);
            assert(counts(replies[i]));
        }
        if count_of(replies, counts) == 0 {
            assert forall|i: int| 0 <= i < replies.len() implies !counts(
                #[trigger] replies[i],
            ) by {
                if i < before.len() {
                    assert(before[i] == replies[i]);
                }
            }
        }
    }
}

/// How many owners hold a value after an owner read what another one holds.
pub const CROSS_OWNER_REPLICA_TARGET_COUNT: usize = 2;

/// How many of the replicas are on nodes that are still there.
pub open spec fn active_replicas(
    replicas: Seq<crate::master_kv_router::routes::KvRouteInfo>,
    marks: Seq<bool>,
) -> nat
    decreases replicas.len(),
{
    if replicas.len() == 0 {
        0
    } else {
        active_replicas(replicas.drop_last(), marks) + if replicas.last().tomb_tag.tombed(marks) {
            0nat
        } else {
            1nat
        }
    }
}

/// Judges the route of a key that two owners have read: `None` where the key has no route.
pub fn cross_owner_replicas(route: Option<&OneKvNodesRoutes>, board: &TombBoard) -> (verdict: Result<
    usize,
    Option<usize>,
>)
    ensures
        match route {
            None => verdict == Err::<usize, Option<usize>>(None),
            Some(route) => {
                let active = active_replicas(route@.replicas, board@);
                if active >= CROSS_OWNER_REPLICA_TARGET_COUNT {
                    verdict matches Ok(count) && count == active
                } else {
                    verdict matches Err(Some(count)) && count == active
                }
            },
        },
{
    let route = match route {
        Some(route) => route,
        None => {
            return Err(None);
        },
    };
    let mut active: usize = 0;
    let mut i: usize = 0;
    let ghost replicas = route@.replicas;
    assert(replicas.take(0) =~= Seq::empty());
    while i < route.nodes_replicas.len()
        invariant
            i <= route.nodes_replicas@.len(),
            replicas == route.nodes_replicas@,
            active <= i,
            active == active_replicas(replicas.take(i as int), board@),
        decreases route.nodes_replicas@.len() - i,
    {
        proof {
            assert(replicas.take(i + 1).drop_last() =~= replicas.take(i as int));
            assert(replicas.take(i + 1).last() == replicas[i as int]);
        }
        if !route.nodes_replicas[i].tomb_tag.is_tomb(board) {
            active = active + 1;
        }
        i = i + 1;
    }
    assert(replicas.take(i as int) =~= replicas);
    if active < CROSS_OWNER_REPLICA_TARGET_COUNT {
        return Err(Some(active));
    }
    Ok(active)
}

} // verus!
