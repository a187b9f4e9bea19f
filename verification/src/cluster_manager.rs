//! Cluster members as the master and the clients see them.

use crate::text;
use vstd::prelude::*;

verus! {

pub type NodeID = String;

pub type NodeIDString = String;

/// Metadata key of the directory under which a node offers local IPC.
pub const META_KEY_LOCAL_IPC_ROOT: &'static str = "local_ipc_root";

/// What a node does in the cluster.
#[derive(Clone, Copy, PartialEq, Eq, Structural)]
pub enum NodeRole {
    Master,
    Client,
    Other,
}

/// The key-value pairs that a node publishes about itself. A key that occurs more than once counts
/// with its first value.
pub struct Metadata {
    pub entries: Vec<(String, String)>,
}

/// The value of the first pair with this key.
pub open spec fn lookup(entries: Seq<(String, String)>, key: Seq<char>) -> Option<Seq<char>>
    decreases entries.len(),
{
    if entries.len() == 0 {
        None
    } else if entries[0].0@ == key {
        Some(entries[0].1@)
    } else {
        lookup(entries.drop_first(), key)
    }
}

/// Replacing the first pair with a key changes the value of that key alone.
proof fn lemma_lookup_set(
    entries: Seq<(String, String)>,
    i: int,
    pair: (String, String),
    key: Seq<char>,
)
    requires
        0 <= i < entries.len(),
        entries[i].0@ == pair.0@,
        forall|j: int| 0 <= j < i ==> entries[j].0@ != pair.0@,
    ensures
        lookup(entries.update(i, pair), key) == if key == pair.0@ {
            Some(pair.1@)
        } else {
            lookup(entries, key)
        },
    decreases entries.len(),
{
    let after = entries.update(i, pair);
    if i > 0 {
        assert(after.drop_first() =~= entries.drop_first().update(i - 1, pair));
        lemma_lookup_set(entries.drop_first(), i - 1, pair, key);
    } else {
        assert(after.drop_first() =~= entries.drop_first());
    }
}

/// Appending a pair gives its key a value where it had none.
pub proof fn lemma_lookup_push(entries: Seq<(String, String)>, pair: (String, String), key: Seq<char>)
    ensures
        lookup(entries.push(pair), key) == if lookup(entries, key) is None && key == pair.0@ {
            Some(pair.1@)
        } else {
            lookup(entries, key)
        },
        lookup(entries, key) is None <==> forall|j: int|
            0 <= j < entries.len() ==> (#[trigger] entries[j]).0@ != key,
    decreases entries.len(),
{
    let after = entries.push(pair);
    if entries.len() > 0 {
        let rest = entries.drop_first();
        assert(after.drop_first() =~= rest.push(pair));
        lemma_lookup_push(rest, pair, key);
        if lookup(entries, key) is None {
            assert forall|j: int| 0 <= j < entries.len() implies (#[trigger] entries[j]).0@
                != key by {
                if j > 0 {
                    assert(rest[j - 1] == entries[j]);
                }
            }
        } else if entries[0].0@ != key {
            let j = choose|j: int| 0 <= j < rest.len() && (#[trigger] rest[j]).0@ == key;
            assert(entries[j + 1].0@ == key);
        }
    } else {
        reveal_with_fuel(lookup, 2);
        assert(after.drop_first() =~= Seq::<(String, String)>::empty());
    }
}

impl Metadata {
    /// The value published under `key`.
    pub open spec fn value(self, key: Seq<char>) -> Option<Seq<char>> {
        lookup(self.entries@, key)
    }

    /// `key` is published with the value `true`.
    pub open spec fn flag(self, key: Seq<char>) -> bool {
        self.value(key) == Some("true"@)
    }

    pub fn new() -> (metadata: Self)
        ensures
            metadata.entries@.len() == 0,
            forall|key: Seq<char>| #[trigger] metadata.value(key) is None,
    {
        Metadata { entries: Vec::new() }
    }

    /// Publishes `value` under `key`, in place of an earlier value.
    pub fn insert(&mut self, key: String, value: String)
        ensures
            final(self).value(key@) == Some(value@),
            forall|other: Seq<char>|
                other != key@ ==> #[trigger] final(self).value(other) == old(self).value(other),
    {
        let ghost before = self.entries@;
        let mut i: usize = 0;
        while i < self.entries.len()
            invariant
                self.entries@ == before,
                before == old(self).entries@,
                i <= before.len(),
                forall|j: int| 0 <= j < i ==> before[j].0@ != key@,
            decreases before.len() - i,
        {
            if text::same_text(self.entries[i].0.as_str(), key.as_str()) {
                let ghost name = key@;
                let ghost pair = (key, value);
                self.entries.set(i, (key, value));
                proof {
                    lemma_lookup_set(before, i as int, pair, name);
                    assert forall|other: Seq<char>| other != name implies #[trigger] lookup(
                        self.entries@,
                        other,
                    ) == lookup(before, other) by {
                        lemma_lookup_set(before, i as int, pair, other);
                    }
                }
                return ;
            }
            i = i + 1;
        }
        let ghost name = key@;
        let ghost pair = (key, value);
        self.entries.push((key, value));
        proof {
            lemma_lookup_push(before, pair, name);
            assert forall|other: Seq<char>| other != name implies #[trigger] lookup(
                self.entries@,
                other,
            ) == lookup(before, other) by {
                lemma_lookup_push(before, pair, other);
            }
        }
    }

    pub fn get(&self, key: &str) -> (value: Option<&String>)
        ensures
            match value {
                Some(text) => self.value(key@) == Some(text@),
                None => self.value(key@) is None,
            },
    {
        let mut i: usize = 0;
        assert(self.entries@.skip(0) =~= self.entries@);
        while i < self.entries.len()
            invariant
                i <= self.entries@.len(),
                self.value(key@) == lookup(self.entries@.skip(i as int), key@),
            decreases self.entries@.len() - i,
        {
            assert(self.entries@.skip(i as int).drop_first() =~= self.entries@.skip(i + 1));
            if text::same_text(self.entries[i].0.as_str(), key) {
                return Some(&self.entries[i].1);
            }
            i = i + 1;
        }
        None
    }

    /// `key` is published with the value `true`.
    pub fn is_true(&self, key: &str) -> (is: bool)
        ensures
            is == self.flag(key@),
    {
        text::option_is(self.get(key), "true")
    }
}

/// One member of the cluster.
pub struct ClusterMember {
    pub id: NodeIDString,
    /// Start time of the node's process; it tells two incarnations of a node apart.
    pub node_start_time: i64,
    pub role: NodeRole,
    pub metadata: Metadata,
    pub sub_cluster: Option<String>,
}

/// A change of the cluster's membership.
pub enum ClusterEvent {
    MemberJoined(ClusterMember),
    MemberUpdated(ClusterMember),
    MemberLeft(NodeIDString),
}

impl ClusterEvent {
    /// The node that the event is about.
    pub open spec fn about(self) -> Seq<char> {
        match self {
            ClusterEvent::MemberJoined(member) => member.id@,
            ClusterEvent::MemberUpdated(member) => member.id@,
            ClusterEvent::MemberLeft(node_id) => node_id@,
        }
    }

    pub fn node_id(&self) -> (id: NodeIDString)
        ensures
            id@ == self.about(),
    {
        match self {
            ClusterEvent::MemberJoined(member) => member.id.clone(),
            ClusterEvent::MemberUpdated(member) => member.id.clone(),
            ClusterEvent::MemberLeft(node_id) => node_id.clone(),
        }
    }
}

} // verus!
