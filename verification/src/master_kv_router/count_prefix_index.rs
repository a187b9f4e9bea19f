//! Counting keys by name prefix.

use std::collections::HashMap;

use vstd::multiset::Multiset;
use vstd::prelude::*;

verus! {

/// Radix tree node used for prefix counting.
///
/// Each node tracks the total number of keys in its subtree via `count`.
struct Node {
    count: u64,
    children: HashMap<u8, Node>,
}

impl Node {
    /// The counter found by walking `path` down from this node; a missing child counts nothing.
    spec fn count_at(self, path: Seq<u8>) -> nat
        decreases path.len(),
    {
        if path.len() == 0 {
            self.count as nat
        } else if self.children@.contains_key(path[0]) {
            self.children@[path[0]].count_at(path.drop_first())
        } else {
            0
        }
    }

    /// This node, reached over `walked`, counts the keys of `keys`.
    spec fn counts(self, walked: Seq<u8>, keys: Multiset<Seq<char>>) -> bool {
        forall|path: Seq<u8>| #[trigger]
            self.count_at(path) == keys_under(keys, walked + path)
    }

    fn new() -> (node: Self)
        ensures
            forall|path: Seq<u8>| #[trigger] node.count_at(path) == 0,
    {
        Node { count: 0, children: HashMap::new() }
    }
}

/// How many keys have a UTF-8 encoding that begins with `path`.
spec fn keys_under(keys: Multiset<Seq<char>>, path: Seq<u8>) -> nat {
    keys.filter(|key: Seq<char>| path.is_prefix_of(vstd::utf8::encode_utf8(key))).len()
}

/// How many keys, counted as often as they were inserted, begin with `prefix`.
pub open spec fn keys_with_prefix(keys: Multiset<Seq<char>>, prefix: Seq<char>) -> nat {
    keys.filter(|key: Seq<char>| prefix.is_prefix_of(key)).len()
}

proof fn lemma_keys_under_insert(keys: Multiset<Seq<char>>, key: Seq<char>, path: Seq<u8>)
    ensures
        keys_under(keys.insert(key), path) == keys_under(keys, path) + if path.is_prefix_of(
            vstd::utf8::encode_utf8(key),
        ) {
            1nat
        } else {
            0
        },
{
    broadcast use vstd::multiset::group_multiset_axioms;

    let f = |k: Seq<char>| path.is_prefix_of(vstd::utf8::encode_utf8(k));
    if f(key) {
        assert(keys.insert(key).filter(f) =~= keys.filter(f).insert(key));
    } else {
        assert(keys.insert(key).filter(f) =~= keys.filter(f));
    }
}

proof fn lemma_keys_under_longer(keys: Multiset<Seq<char>>, path: Seq<u8>, longer: Seq<u8>)
    requires
        path.is_prefix_of(longer),
    ensures
        keys_under(keys, longer) <= keys_under(keys, path),
{
    broadcast use vstd::multiset::group_multiset_axioms;

    let f = |k: Seq<char>| path.is_prefix_of(vstd::utf8::encode_utf8(k));
    let g = |k: Seq<char>| longer.is_prefix_of(vstd::utf8::encode_utf8(k));
    assert forall|k: Seq<char>| #[trigger] g(k) implies f(k) by {
        assert(vstd::utf8::encode_utf8(k).subrange(0, path.len() as int) =~= longer.subrange(
            0,
            path.len() as int,
        ));
    }
    assert(keys.filter(g).subset_of(keys.filter(f)));
    vstd::multiset::axiom_len_sub(keys.filter(f), keys.filter(g));
}

proof fn lemma_keys_under_bound(keys: Multiset<Seq<char>>, path: Seq<u8>)
    ensures
        keys_under(keys, path) <= keys.len(),
{
    broadcast use vstd::multiset::group_multiset_axioms;

    let f = |k: Seq<char>| path.is_prefix_of(vstd::utf8::encode_utf8(k));
    assert(keys.filter(f).subset_of(keys));
    vstd::multiset::axiom_len_sub(keys, keys.filter(f));
}

/// Adds one to the counters of `node` and of every node on the rest of the key.
fn insert_inner(
    node: &mut Node,
    bytes: &[u8],
    idx: usize,
    Ghost(keys): Ghost<Multiset<Seq<char>>>,
    Ghost(key): Ghost<Seq<char>>,
)
    requires
        bytes@ == vstd::utf8::encode_utf8(key),
        idx <= bytes@.len(),
        keys.len() < u64::MAX,
        old(node).counts(bytes@.take(idx as int), keys),
    ensures
        final(node).counts(bytes@.take(idx as int), keys.insert(key)),
    decreases bytes@.len() - idx,
{
    let ghost before = *node;
    let ghost walked = bytes@.take(idx as int);
    let ghost after = keys.insert(key);
    proof {
        let none = Seq::<u8>::empty();
        assert(walked + none =~= walked);
        lemma_keys_under_bound(keys, walked);
        assert(before.count_at(none) == keys_under(keys, walked + none));
        lemma_keys_under_insert(keys, key, walked);
        assert(walked.is_prefix_of(bytes@));
    }
    node.count = node.count + 1;
    if idx < bytes.len() {
        let b: u8 = bytes[idx];
        let mut child = match node.children.remove(&b) {
            Some(child) => child,
            None => Node::new(),
        };
        let ghost below = bytes@.take(idx + 1);
        assert(child.counts(below, keys)) by {
            assert forall|path: Seq<u8>| #[trigger] child.count_at(path) == keys_under(
                keys,
                below + path,
            ) by {
                assert(walked + (seq![b] + path) =~= below + path);
                assert((seq![b] + path).drop_first() =~= path);
                assert(before.count_at(seq![b] + path) == keys_under(keys, below + path));
            }
        }
        insert_inner(&mut child, bytes, idx + 1, Ghost(keys), Ghost(key));
        let ghost new_child = child;
        node.children.insert(b, child);
        assert forall|path: Seq<u8>| #[trigger] node.count_at(path) == keys_under(
            after,
            walked + path,
        ) by {
            if path.len() == 0 {
                assert(walked + path =~= walked);
            } else if path[0] == b {
                let rest = path.drop_first();
                assert(walked + path =~= below + rest);
                assert(new_child.count_at(rest) == keys_under(after, below + rest));
            } else {
                lemma_keys_under_insert(keys, key, walked + path);
                assert((walked + path)[idx as int] != bytes@[idx as int]);
                assert(before.count_at(path) == keys_under(keys, walked + path));
            }
        }
    } else {
        assert forall|path: Seq<u8>| #[trigger] node.count_at(path) == keys_under(
            after,
            walked + path,
        ) by {
            if path.len() == 0 {
                assert(walked + path =~= walked);
            } else {
                lemma_keys_under_insert(keys, key, walked + path);
                assert(before.count_at(path) == keys_under(keys, walked + path));
            }
        }
    }
}

/// Takes one from the counters of `node` and of every node on the rest of the key, and drops
/// children whose counter reaches zero.
fn remove_inner(
    node: &mut Node,
    bytes: &[u8],
    idx: usize,
    Ghost(keys): Ghost<Multiset<Seq<char>>>,
    Ghost(key): Ghost<Seq<char>>,
) -> (should_prune: bool)
    requires
        bytes@ == vstd::utf8::encode_utf8(key),
        idx <= bytes@.len(),
        keys.contains(key),
        old(node).counts(bytes@.take(idx as int), keys),
    ensures
        final(node).counts(bytes@.take(idx as int), keys.remove(key)),
        should_prune == (final(node).count == 0),
    decreases bytes@.len() - idx,
{
    let ghost before = *node;
    let ghost walked = bytes@.take(idx as int);
    let ghost after = keys.remove(key);
    proof {
        broadcast use vstd::multiset::group_multiset_axioms;

        let none = Seq::<u8>::empty();
        assert(after.insert(key) =~= keys);
        assert(walked + none =~= walked);
        assert(before.count_at(none) == keys_under(keys, walked + none));
        lemma_keys_under_insert(after, key, walked);
        assert(walked.is_prefix_of(bytes@));
    }
    node.count = node.count - 1;
    if idx == bytes.len() {
        assert forall|path: Seq<u8>| #[trigger] node.count_at(path) == keys_under(
            after,
            walked + path,
        ) by {
            if path.len() == 0 {
                assert(walked + path =~= walked);
            } else {
                lemma_keys_under_insert(after, key, walked + path);
                assert(before.count_at(path) == keys_under(keys, walked + path));
            }
        }
        return node.count == 0;
    }
    let b: u8 = bytes[idx];
    let ghost below = bytes@.take(idx + 1);
    proof {
        let one = seq![b];
        assert(walked + one =~= below);
        assert(before.count_at(one) == keys_under(keys, below));
        assert(below.is_prefix_of(bytes@));
        lemma_keys_under_insert(after, key, below);
        assert(before.children@.contains_key(b));
    }
    if let Some(taken) = node.children.remove(&b) {
        let mut child = taken;
        assert(child.counts(below, keys)) by {
            assert forall|path: Seq<u8>| #[trigger] child.count_at(path) == keys_under(
                keys,
                below + path,
            ) by {
                assert(walked + (seq![b] + path) =~= below + path);
                assert((seq![b] + path).drop_first() =~= path);
                assert(before.count_at(seq![b] + path) == keys_under(keys, below + path));
            }
        }
        let prune_child: bool = remove_inner(&mut child, bytes, idx + 1, Ghost(keys), Ghost(key));
        let ghost new_child = child;
        if !prune_child {
            node.children.insert(b, child);
        }
        assert forall|path: Seq<u8>| #[trigger] node.count_at(path) == keys_under(
            after,
            walked + path,
        ) by {
            if path.len() == 0 {
                assert(walked + path =~= walked);
            } else if path[0] == b {
                let rest = path.drop_first();
                assert(walked + path =~= below + rest);
                assert(new_child.count_at(rest) == keys_under(after, below + rest));
                if prune_child {
                    let none = Seq::<u8>::empty();
                    assert(below + none =~= below);
                    assert(new_child.count_at(none) == keys_under(after, below + none));
                    assert(below.is_prefix_of(below + rest));
                    lemma_keys_under_longer(after, below, below + rest);
                }
            } else {
                lemma_keys_under_insert(after, key, walked + path);
                assert((walked + path)[idx as int] != bytes@[idx as int]);
                assert(before.count_at(path) == keys_under(keys, walked + path));
            }
        }
    }
    node.count == 0
}

/// Simple radix tree for string prefixes, storing counts only.
///
/// The view is the multiset of keys inserted and not removed since. Callers must ensure `insert`
/// and `remove` are balanced for each key.
pub struct PrefixRadixTree {
    root: Node,
    keys: Ghost<Multiset<Seq<char>>>,
}

impl View for PrefixRadixTree {
    type V = Multiset<Seq<char>>;

    closed spec fn view(&self) -> Multiset<Seq<char>> {
        self.keys@
    }
}

impl PrefixRadixTree {
    /// Every counter is the number of keys below it.
    pub closed spec fn wf(self) -> bool {
        self.root.counts(Seq::empty(), self.keys@)
    }

    pub fn new() -> (tree: Self)
        ensures
            tree.wf(),
            tree@ == Multiset::<Seq<char>>::empty(),
    {
        let tree = PrefixRadixTree { root: Node::new(), keys: Ghost(Multiset::empty()) };
        proof {
            broadcast use vstd::multiset::group_multiset_axioms;

            assert forall|path: Seq<u8>| #[trigger] tree.root.count_at(path) == keys_under(
                tree.keys@,
                Seq::<u8>::empty() + path,
            ) by {
                lemma_keys_under_bound(tree.keys@, Seq::<u8>::empty() + path);
            }
        }
        tree
    }

    /// Insert a new key. Must only be called once per logical key.
    pub fn insert(&mut self, key: &str)
        requires
            old(self).wf(),
            !old(self)@.contains(key@),
            old(self)@.len() < u64::MAX,
        ensures
            final(self).wf(),
            final(self)@ == old(self)@.insert(key@),
    {
        assert(vstd::utf8::encode_utf8(key@).take(0) =~= Seq::<u8>::empty());
        insert_inner(&mut self.root, key.as_bytes(), 0, self.keys, Ghost(key@));
        self.keys = Ghost(self.keys@.insert(key@));
    }

    /// Remove an existing key. Must only be called for keys that were inserted.
    pub fn remove(&mut self, key: &str)
        requires
            old(self).wf(),
            old(self)@.contains(key@),
        ensures
            final(self).wf(),
            final(self)@ == old(self)@.remove(key@),
    {
        assert(vstd::utf8::encode_utf8(key@).take(0) =~= Seq::<u8>::empty());
        remove_inner(&mut self.root, key.as_bytes(), 0, self.keys, Ghost(key@));
        self.keys = Ghost(self.keys@.remove(key@));
    }

    /// Count keys whose name starts with the given prefix.
    pub fn count_prefix(&self, prefix: &str) -> (count: u64)
        requires
            self.wf(),
        ensures
            count == keys_with_prefix(self@, prefix@),
    {
        let bytes = prefix.as_bytes();
        let mut node = &self.root;
        let mut i: usize = 0;
        proof {
            assert(bytes@.skip(0) =~= bytes@);
            assert(Seq::<u8>::empty() + bytes@ =~= bytes@);
            assert(self.root.count_at(bytes@) == keys_under(self@, Seq::<u8>::empty() + bytes@));
            let by_bytes = |key: Seq<char>| bytes@.is_prefix_of(vstd::utf8::encode_utf8(key));
            let by_chars = |key: Seq<char>| prefix@.is_prefix_of(key);
            assert forall|key: Seq<char>| #[trigger] by_bytes(key) == by_chars(key) by {
                crate::text::lemma_encoding_keeps_prefixes(prefix@, key);
            }
            assert(by_bytes =~= by_chars);
        }
        while i < bytes.len()
            invariant
                i <= bytes@.len(),
                self.root.count_at(bytes@) == node.count_at(bytes@.skip(i as int)),
                self.root.count_at(bytes@) == keys_with_prefix(self@, prefix@),
            decreases bytes@.len() - i,
        {
            let ghost rest = bytes@.skip(i as int);
            assert(rest.drop_first() =~= bytes@.skip(i + 1));
            match node.children.get(&bytes[i]) {
                Some(child) => {
                    node = child;
                },
                None => {
                    return 0;
                },
            }
            i = i + 1;
        }
        node.count
    }
}

impl Default for PrefixRadixTree {
    fn default() -> (tree: Self)
        ensures
            tree.wf(),
            tree@ == Multiset::<Seq<char>>::empty(),
    {
        PrefixRadixTree::new()
    }
}

/// Inserting a key adds one to the count of each of its prefixes and changes no other count.
pub proof fn law_insert_counts_key(keys: Multiset<Seq<char>>, key: Seq<char>, prefix: Seq<char>)
    ensures
        keys_with_prefix(keys.insert(key), prefix) == keys_with_prefix(keys, prefix)
            + if prefix.is_prefix_of(key) {
            1nat
        } else {
            0
        },
{
    broadcast use vstd::multiset::group_multiset_axioms;

    let f = |k: Seq<char>| prefix.is_prefix_of(k);
    if f(key) {
        assert(keys.insert(key).filter(f) =~= keys.filter(f).insert(key));
    } else {
        assert(keys.insert(key).filter(f) =~= keys.filter(f));
    }
}

/// Removing a key that was just inserted restores the keys that were there before.
pub proof fn law_remove_undoes_insert(keys: Multiset<Seq<char>>, key: Seq<char>)
    ensures
        keys.insert(key).contains(key),
        keys.insert(key).remove(key) == keys,
{
    broadcast use vstd::multiset::group_multiset_axioms;

    assert(keys.insert(key).remove(key) =~= keys);
}

/// Every key begins with the empty prefix, so its count is the number of keys.
pub proof fn law_empty_prefix_counts_every_key(keys: Multiset<Seq<char>>)
    ensures
        keys_with_prefix(keys, Seq::empty()) == keys.len(),
{
    broadcast use vstd::multiset::group_multiset_axioms;

    let f = |k: Seq<char>| Seq::<char>::empty().is_prefix_of(k);
    assert forall|k: Seq<char>| #[trigger] f(k) by {
        assert(k.subrange(0, 0) =~= Seq::<char>::empty());
    }
    assert(keys.filter(f) =~= keys);
}

/// A longer prefix never counts more keys than a shorter one.
pub proof fn law_longer_prefix_counts_no_more(
    keys: Multiset<Seq<char>>,
    prefix: Seq<char>,
    longer: Seq<char>,
)
    requires
        prefix.is_prefix_of(longer),
    ensures
        keys_with_prefix(keys, longer) <= keys_with_prefix(keys, prefix),
{
    broadcast use vstd::multiset::group_multiset_axioms;

    let f = |k: Seq<char>| prefix.is_prefix_of(k);
    let g = |k: Seq<char>| longer.is_prefix_of(k);
    assert forall|k: Seq<char>| #[trigger] g(k) implies f(k) by {
        assert(k.subrange(0, prefix.len() as int) =~= longer.subrange(0, prefix.len() as int));
    }
    assert(keys.filter(g).subset_of(keys.filter(f)));
    vstd::multiset::axiom_len_sub(keys.filter(f), keys.filter(g));
}

} // verus!
