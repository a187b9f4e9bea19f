//! Writing a field to a file: the bytes that are written are the field's.

use crate::external_client_api::sync_file::FlatKvValueRange;
use vstd::prelude::*;

verus! {

/// The `i`-th entry is the first of this name.
pub open spec fn is_first(
    entries: Seq<(String, FlatKvValueRange)>,
    i: int,
    name: Seq<char>,
) -> bool {
    &&& 0 <= i < entries.len()
    &&& entries[i].0@ == name
    &&& forall|j: int| 0 <= j < i ==> (#[trigger] entries[j]).0@ != name
}

proof fn lemma_first(entries: Seq<(String, FlatKvValueRange)>, name: Seq<char>)
    ensures
        match crate::external_client_api::sync_file::first_field(entries, name) {
            Some(range) => exists|i: int| #[trigger] is_first(entries, i, name) && entries[i].1 == range,
            None => forall|i: int| 0 <= i < entries.len() ==> (#[trigger] entries[i]).0@ != name,
        },
    decreases entries.len(),
{
    if entries.len() > 0 {
        if entries[0].0@ == name {
            assert(is_first(entries, 0, name));
        } else {
            let rest = entries.drop_first();
            lemma_first(rest, name);
            match crate::external_client_api::sync_file::first_field(rest, name) {
                Some(range) => {
                    let i = choose|i: int| #[trigger] is_first(rest, i, name) && rest[i].1 == range;
                    assert forall|j: int| 0 <= j < i + 1 implies (#[trigger] entries[j]).0@
                        != name by {
                        if j > 0 {
                            assert(rest[j - 1].0@ != name);
                        }
                    }
                    assert(is_first(entries, i + 1, name));
                },
                None => {
                    assert forall|i: int| 0 <= i < entries.len() implies (
                    #[trigger] entries[i]).0@ != name by {
                        if i > 0 {
                            assert(rest[i - 1].0@ != name);
                        }
                    }
                },
            }
        }
    }
}

/// The bytes that are written are those of the first field of the name, from its first to its last:
/// as many as the field has, where the field stands, and never a byte outside of the dictionary.
/// Nothing is written exactly if there is no such field, if it is not bytes, or if it does not lie
/// within the dictionary.
pub proof fn law_just_the_field_is_written(
    entries: Seq<(String, FlatKvValueRange)>,
    name: Seq<char>,
    encoded_len: usize,
)
    ensures
        match crate::external_client_api::sync_file::field_range(entries, name, encoded_len) {
            Ok((from, to)) => exists|i: int|
                #[trigger] is_first(entries, i, name) && entries[i].1 is BytesRange
                    && entries[i].1->start == from && entries[i].1->len == to - from && to
                    <= encoded_len,
            Err(_) => forall|i: int| #[trigger]
                is_first(entries, i, name) ==> entries[i].1 is Other || entries[i].1->start
                    + entries[i].1->len > encoded_len,
        },
{
    lemma_first(entries, name);
    if let Some(range) = crate::external_client_api::sync_file::first_field(entries, name) {
        let at = choose|i: int| #[trigger] is_first(entries, i, name) && entries[i].1 == range;
        assert forall|i: int| #[trigger] is_first(entries, i, name) implies i == at by {
            if i < at {
                assert(entries[i].0@ != name);
            } else if at < i {
                assert(entries[at].0@ != name);
            }
        }
    }
}

/// A request without the name of a field, or of a file, is refused before anything is read.
pub proof fn law_requests_without_names_are_refused(bytes_field_key: Seq<char>, filepath: Seq<char>)
    ensures
        crate::external_client_api::sync_file::request_error(bytes_field_key, filepath) is Some
            <==> bytes_field_key.len() == 0 || filepath.len() == 0,
{
}

} // verus!
