//! Writing a field of a stored value to a file.

use crate::error::{ApiErrorOf, KvError, KvErrorOf, KvResult};
use crate::text;
use vstd::prelude::*;

verus! {

#[derive(Debug)]
pub struct SyncKvToFileReq {
    pub key: String,
    pub bytes_field_key: String,
    pub filepath: String,
    pub file_offset: u64,
}

/// Where a field's value stands in an encoded dictionary.
pub enum FlatKvValueRange {
    BytesRange { start: usize, len: usize },
    /// A value of another type than bytes.
    Other,
}

/// The error for a request that cannot be served.
pub open spec fn invalid_argument(detail: Seq<char>) -> KvErrorOf<Seq<char>> {
    KvErrorOf::Api(ApiErrorOf::InvalidArgument { detail })
}

/// The first field of this name.
pub open spec fn first_field(
    entries: Seq<(String, FlatKvValueRange)>,
    key: Seq<char>,
) -> Option<FlatKvValueRange>
    decreases entries.len(),
{
    if entries.len() == 0 {
        None
    } else if entries[0].0@ == key {
        Some(entries[0].1)
    } else {
        first_field(entries.drop_first(), key)
    }
}

/// The bytes of a field within an encoded dictionary of this length, or why there are none.
pub open spec fn field_range(
    entries: Seq<(String, FlatKvValueRange)>,
    key: Seq<char>,
    encoded_len: usize,
) -> Result<(int, int), KvErrorOf<Seq<char>>> {
    match first_field(entries, key) {
        None => Err(invalid_argument("missing bytes field: "@ + key)),
        Some(FlatKvValueRange::Other) => Err(invalid_argument("field is not bytes: "@ + key)),
        Some(FlatKvValueRange::BytesRange { start, len }) => if start + len > usize::MAX {
            Err(invalid_argument("bytes range overflow"@))
        } else if start + len > encoded_len {
            Err(invalid_argument("bytes range out of bounds"@))
        } else {
            Ok((start as int, start + len))
        },
    }
}

/// A range, or why there is none, in mathematical terms.
pub open spec fn range_view(range: KvResult<(usize, usize)>) -> Result<
    (int, int),
    KvErrorOf<Seq<char>>,
> {
    match range {
        Ok((start, end)) => Ok((start as int, end as int)),
        Err(err) => Err(err@),
    }
}

fn invalid(detail: String) -> (err: KvError)
    ensures
        err@ == invalid_argument(detail@),
{
    KvErrorOf::Api(ApiErrorOf::InvalidArgument { detail })
}

/// The names in a request are checked before anything is read.
pub open spec fn request_error(bytes_field_key: Seq<char>, filepath: Seq<char>) -> Option<
    KvErrorOf<Seq<char>>,
> {
    if bytes_field_key.len() == 0 {
        Some(invalid_argument("bytes_field_key must be non-empty"@))
    } else if filepath.len() == 0 {
        Some(invalid_argument("filepath must be non-empty"@))
    } else {
        None
    }
}

/// Finds the bytes of a field in an encoded dictionary of `encoded_len` bytes, so that they can be
/// written to the file at the offset. `entries` is what decoding the dictionary gave.
pub fn sync_kv_bytes_field_range(
    entries: Result<Vec<(String, FlatKvValueRange)>, String>,
    encoded_len: usize,
    bytes_field_key: &str,
    filepath: &str,
) -> (range: KvResult<(usize, usize)>)
    ensures
        range_view(range) == match request_error(bytes_field_key@, filepath@) {
            Some(err) => Err(err),
            None => match entries {
                Err(error) => Err(invalid_argument("flat dict decode failed: "@ + error@)),
                Ok(entries) => field_range(entries@, bytes_field_key@, encoded_len),
            },
        },
        range matches Ok((start, end)) ==> {
            &&& entries is Ok
            &&& exists|i: int|
                0 <= i < entries->Ok_0@.len() && (#[trigger] entries->Ok_0@[i]).0@
                    == bytes_field_key@ && entries->Ok_0@[i].1 == (FlatKvValueRange::BytesRange {
                    start,
                    len: (end - start) as usize,
                }) && forall|j: int|
                    0 <= j < i ==> (#[trigger] entries->Ok_0@[j]).0@ != bytes_field_key@
            &&& start <= end <= encoded_len
        },
{
    if text::is_empty(bytes_field_key) {
        return Err(invalid("bytes_field_key must be non-empty".to_owned()));
    }
    if text::is_empty(filepath) {
        return Err(invalid("filepath must be non-empty".to_owned()));
    }
    let entries = match entries {
        Ok(entries) => entries,
        Err(error) => {
            return Err(invalid("flat dict decode failed: ".to_owned().concat(error.as_str())));
        },
    };
    let mut i: usize = 0;
    assert(entries@.skip(0) =~= entries@);
    while i < entries.len()
        invariant
            i <= entries@.len(),
            first_field(entries@.skip(i as int), bytes_field_key@) == first_field(
                entries@,
                bytes_field_key@,
            ),
            forall|j: int| 0 <= j < i ==> (#[trigger] entries@[j]).0@ != bytes_field_key@,
        ensures
            i <= entries@.len(),
            forall|j: int| 0 <= j < i ==> (#[trigger] entries@[j]).0@ != bytes_field_key@,
            first_field(entries@.skip(i as int), bytes_field_key@) == first_field(
                entries@,
                bytes_field_key@,
            ),
            i < entries@.len() ==> entries@[i as int].0@ == bytes_field_key@,
        decreases entries@.len() - i,
    {
        if text::same_text(entries[i].0.as_str(), bytes_field_key) {
            break ;
        }
        assert(entries@.skip(i as int).drop_first() =~= entries@.skip(i + 1));
        i = i + 1;
    }
    if i == entries.len() {
        return Err(invalid("missing bytes field: ".to_owned().concat(bytes_field_key)));
    }
    assert(entries@.skip(i as int)[0] == entries@[i as int]);
    match &entries[i].1 {
        FlatKvValueRange::Other => Err(
            invalid("field is not bytes: ".to_owned().concat(bytes_field_key)),
        ),
        FlatKvValueRange::BytesRange { start, len } => {
            match start.checked_add(*len) {
                None => Err(invalid("bytes range overflow".to_owned())),
                Some(end) => {
                    if end > encoded_len {
                        return Err(invalid("bytes range out of bounds".to_owned()));
                    }
                    Ok((*start, end))
                },
            }
        },
    }
}

/// The bytes that are written lie within the dictionary.
pub proof fn law_synced_range_is_in_bounds(
    entries: Seq<(String, FlatKvValueRange)>,
    key: Seq<char>,
    encoded_len: usize,
)
    ensures
        field_range(entries, key, encoded_len) matches Ok((start, end)) ==> 0 <= start <= end
            <= encoded_len,
{
}

/// Why a write cannot go on.
#[derive(Clone, Copy, PartialEq, Eq, Structural, Debug)]
pub enum WriteFault {
    /// The file took no byte.
    WriteZero,
    OffsetOverflow,
}

/// Where a write goes on after the file took `written` of the bytes that were left.
pub fn write_all_at_step(offset: u64, left: usize, written: usize) -> (next: Result<
    (u64, usize),
    WriteFault,
>)
    requires
        written <= left,
    ensures
        next == if written == 0 {
            Err::<(u64, usize), WriteFault>(WriteFault::WriteZero)
        } else if offset + written > u64::MAX {
            Err(WriteFault::OffsetOverflow)
        } else {
            Ok(((offset + written) as u64, (left - written) as usize))
        },
{
    if written == 0 {
        return Err(WriteFault::WriteZero);
    }
    match offset.checked_add(written as u64) {
        Some(offset) => Ok((offset, left - written)),
        None => Err(WriteFault::OffsetOverflow),
    }
}

/// The key of a request to write a field to a file has to be named.
pub fn check_sync_key(key: &str) -> (result: KvResult<()>)
    ensures
        if key@.len() == 0 {
            result matches Err(err) && err@ == invalid_argument("key must be non-empty"@)
        } else {
            result is Ok
        },
{
    if text::is_empty(key) {
        return Err(invalid("key must be non-empty".to_owned()));
    }
    Ok(())
}

/// A request for a key that has no value fails.
pub fn held_or_not_found<H>(held: Option<H>, key: String) -> (result: KvResult<H>)
    ensures
        match held {
            Some(holder) => result == Ok::<H, KvError>(holder),
            None => result matches Err(err) && err@ == KvErrorOf::Api(
                ApiErrorOf::KeyNotFound { key: key@ },
            ),
        },
{
    match held {
        Some(holder) => Ok(holder),
        None => Err(KvErrorOf::Api(ApiErrorOf::KeyNotFound { key })),
    }
}

} // verus!
