//! The course of a test round: its checks in order, and the keys and values that they use.

use crate::kv_test::rounds::KvTestRoundProfile;
use crate::text;
use vstd::prelude::*;

verus! {

/// The part of a round.
#[derive(Debug, Clone, Copy, PartialEq, Eq, Structural)]
pub enum RoundPart {
    StartMaster,
    /// A client shuts down and leaves nothing behind; `time` counts how often this is checked.
    Shutdown { time: u32 },
    /// An owner and two external clients of it.
    StartClients,
    Crud,
    CrossReads,
    Communication,
    /// An external client shuts down, and the owner reads what it put.
    Persistence,
    StartNewClient,
    /// The data link between the new client and the owner is probed.
    DataLink,
    CrossOwnerReplicas,
    /// The new client reads what the client that shut down had put.
    PersistenceForNewClient,
    NewClientPuts,
    /// The lanes between the external clients' and the new client's side workers are probed.
    SideTransferLanes,
    Existence,
    MetaCache,
    CleanUp,
    /// External clients outlast an owner that goes away.
    Recovery,
}

/// The parts of a round, in order. Where only the last is asked for, the others are left out.
pub open spec fn round_parts(
    profile: KvTestRoundProfile,
    only_recovery: bool,
    side_workers: bool,
) -> Seq<RoundPart> {
    if only_recovery {
        seq![RoundPart::Recovery]
    } else {
        seq![
            RoundPart::StartMaster,
            RoundPart::Shutdown { time: 0 },
            RoundPart::Shutdown { time: 1 },
            RoundPart::StartClients,
            RoundPart::Crud,
            RoundPart::CrossReads,
            RoundPart::Communication,
            RoundPart::Persistence,
            RoundPart::StartNewClient,
        ] + (if profile.uses_rdma() {
            seq![RoundPart::DataLink]
        } else {
            seq![]
        }) + seq![
            RoundPart::CrossOwnerReplicas,
            RoundPart::PersistenceForNewClient,
            RoundPart::NewClientPuts,
        ] + (if side_workers {
            seq![RoundPart::SideTransferLanes]
        } else {
            seq![]
        }) + seq![
            RoundPart::Existence,
            RoundPart::MetaCache,
            RoundPart::CleanUp,
            RoundPart::Recovery,
        ]
    }
}

/// The course of a round.
pub fn plan_round(
    profile: KvTestRoundProfile,
    only_recovery: bool,
    worker_count: Option<u16>,
) -> (parts: Vec<RoundPart>)
    ensures
        parts@ == round_parts(profile, only_recovery, worker_count is Some),
{
    let mut parts: Vec<RoundPart> = Vec::new();
    if !only_recovery {
        parts.push(RoundPart::StartMaster);
        parts.push(RoundPart::Shutdown { time: 0 });
        parts.push(RoundPart::Shutdown { time: 1 });
        parts.push(RoundPart::StartClients);
        parts.push(RoundPart::Crud);
        parts.push(RoundPart::CrossReads);
        parts.push(RoundPart::Communication);
        parts.push(RoundPart::Persistence);
        parts.push(RoundPart::StartNewClient);
        match profile {
            KvTestRoundProfile::P2pOnly => {},
            _ => {
                parts.push(RoundPart::DataLink);
            },
        }
        parts.push(RoundPart::CrossOwnerReplicas);
        parts.push(RoundPart::PersistenceForNewClient);
        parts.push(RoundPart::NewClientPuts);
        if worker_count.is_some() {
            parts.push(RoundPart::SideTransferLanes);
        }
        parts.push(RoundPart::Existence);
        parts.push(RoundPart::MetaCache);
        parts.push(RoundPart::CleanUp);
    }
    parts.push(RoundPart::Recovery);
    assert(parts@ =~= round_parts(profile, only_recovery, worker_count is Some));
    parts
}

/// Every round ends with the recovery check, whatever is set, and everything else is shut down
/// before it.
pub proof fn law_round_ends_with_recovery(
    profile: KvTestRoundProfile,
    only_recovery: bool,
    side_workers: bool,
)
    ensures
        ({
            let parts = round_parts(profile, only_recovery, side_workers);
            &&& parts.last() == RoundPart::Recovery
            &&& forall|i: int|
                0 <= i < parts.len() - 1 ==> #[trigger] parts[i] != RoundPart::Recovery
            &&& !only_recovery ==> parts[parts.len() - 2] == RoundPart::CleanUp
        }),
{
}

/// The decimal digits of a number, with zeros in front up to a width.
pub open spec fn padded(number: nat, width: nat) -> Seq<char> {
    let digits = text::decimal(number);
    if digits.len() < width {
        Seq::new((width - digits.len()) as nat, |i: int| '0') + digits
    } else {
        digits
    }
}

fn append_padded(out: &mut String, number: u64, width: usize)
    ensures
        final(out)@ == old(out)@ + padded(number as nat, width as nat),
{
    let digits = text::u64_text(number);
    let digit_count: usize = text::chars_of(digits.as_str()).len();
    let ghost start = out@;
    let mut zeros: usize = 0;
    while digit_count < width && zeros < width - digit_count
        invariant
            digits@ == text::decimal(number as nat),
            digit_count == digits@.len(),
            digit_count < width ==> zeros <= width - digit_count,
            digit_count >= width ==> zeros == 0,
            out@ == start + Seq::new(zeros as nat, |i: int| '0'),
        decreases width - zeros,
    {
        out.push('0');
        zeros = zeros + 1;
        assert(out@ =~= start + Seq::new(zeros as nat, |i: int| '0'));
    }
    out.append(digits.as_str());
    assert(out@ =~= start + padded(number as nat, width as nat));
}

/// A name followed by a padded number, and what comes after it.
pub open spec fn numbered(name: Seq<char>, number: nat, width: nat, rest: Seq<char>) -> Seq<char> {
    name + padded(number, width) + rest
}

fn numbered_text(name: &str, number: u64, width: usize, rest: &str) -> (text: String)
    ensures
        text@ == numbered(name@, number as nat, width as nat, rest@),
{
    let mut text = name.to_owned();
    append_padded(&mut text, number, width);
    text.append(rest);
    text
}

/// How many keys a client puts that then shuts down.
pub const MANY_COUNT: u64 = 20;

/// A key and the text of its value.
#[derive(Debug)]
pub struct TestEntry {
    pub key: String,
    pub value: String,
}

/// An entry of a client that then shuts down.
pub fn persistence_entry(i: u64) -> (entry: TestEntry)
    ensures
        entry.key@ == numbered("persistence_key_"@, i as nat, 3, ""@),
        entry.value@ == numbered("persistence_value_"@, i as nat, 3, "_from_client2"@),
{
    TestEntry {
        key: numbered_text("persistence_key_", i, 3, ""),
        value: numbered_text("persistence_value_", i, 3, "_from_client2"),
    }
}

/// An entry of the new client.
pub fn new_client_entry(i: u64) -> (entry: TestEntry)
    ensures
        entry.key@ == numbered("new_client_key_"@, i as nat, 2, ""@),
        entry.value@ == numbered("new_client_value_"@, i as nat, 2, ""@),
{
    TestEntry {
        key: numbered_text("new_client_key_", i, 2, ""),
        value: numbered_text("new_client_value_", i, 2, ""),
    }
}

/// An entry that one of several external clients puts while the others put theirs, and which of
/// them does.
pub fn parallel_entry(i: u64, clients: u64) -> (entry: (TestEntry, u64))
    requires
        clients > 0,
    ensures
        entry.0.key@ == numbered("step8_parallel_key_"@, i as nat, 0, ""@),
        entry.0.value@ == numbered("step8_parallel_value_"@, i as nat, 0, ""@),
        entry.1 == i % clients,
{
    (
        TestEntry {
            key: numbered_text("step8_parallel_key_", i, 0, ""),
            value: numbered_text("step8_parallel_value_", i, 0, ""),
        },
        i % clients,
    )
}

/// How many entries the clients of a round put at once.
pub const CRUD_ENTRIES: u64 = 16;

/// The entry that is put as the `i`th, and the number of the client that puts it: the three clients
/// take turns.
pub fn crud_entry(i: u64) -> (entry: (TestEntry, u64))
    requires
        i < CRUD_ENTRIES,
    ensures
        entry.1 == i % 3 + 1,
        entry.0.key@ == numbered(
            "client"@,
            entry.1 as nat,
            0,
            numbered("_unique_key"@, (i / 3 + 1) as nat, 0, ""@),
        ),
        entry.0.value@ == numbered(
            "client"@,
            entry.1 as nat,
            0,
            numbered("_test_value_data"@, (i / 3 + 1) as nat, 0, ""@),
        ),
{
    let client: u64 = i % 3 + 1;
    let number: u64 = i / 3 + 1;
    let key = numbered_text("_unique_key", number, 0, "");
    let value = numbered_text("_test_value_data", number, 0, "");
    (
        TestEntry {
            key: numbered_text("client", client, 0, key.as_str()),
            value: numbered_text("client", client, 0, value.as_str()),
        },
        client,
    )
}

} // verus!
