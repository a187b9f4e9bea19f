//! The cluster test: how its rounds are chosen and configured, and how what they see is judged.

pub mod checks;
pub mod configs;
pub mod probes;
pub mod recovery;
pub mod rounds;
pub mod script;

use crate::text;
use vstd::prelude::*;

verus! {

/// A character that a run's name may hold.
pub open spec fn is_scope_char(c: char) -> bool {
    'a' <= c <= 'z' || 'A' <= c <= 'Z' || '0' <= c <= '9' || c == '_' || c == '-'
}

/// A run's name, with an underscore in place of each character that it may not hold.
pub open spec fn scope_text(raw: Seq<char>) -> Seq<char> {
    raw.map_values(
        |c: char|
            if is_scope_char(c) {
                c
            } else {
                '_'
            },
    )
}

fn scope_from(raw: &str) -> (scope: String)
    ensures
        scope@ == scope_text(raw@),
{
    let chars = text::chars_of(raw);
    let mut scope = String::new();
    let mut i: usize = 0;
    assert(scope@ =~= scope_text(raw@).take(0));
    while i < chars.len()
        invariant
            i <= chars@.len(),
            chars@ == raw@,
            scope@ == scope_text(raw@).take(i as int),
        decreases chars@.len() - i,
    {
        let c = chars[i];
        let allowed = (c >= 'a' && c <= 'z') || (c >= 'A' && c <= 'Z') || (c >= '0' && c <= '9')
            || c == '_' || c == '-';
        if allowed {
            scope.push(c);
        } else {
            scope.push('_');
        }
        assert(scope_text(raw@).take(i + 1) =~= scope_text(raw@).take(i as int).push(
            scope_text(raw@)[i as int],
        ));
        i = i + 1;
    }
    assert(scope_text(raw@).take(i as int) =~= scope_text(raw@));
    scope
}

/// The name that keeps two runs apart: the one that is given, and else the process and the time.
pub fn kv_test_run_scope(given: Option<&str>, process_id: u32, epoch_secs: u64) -> (scope: String)
    ensures
        scope@ == match given {
            Some(given) if !text::blank(given@) => scope_text(given@),
            _ => scope_text(
                "pid"@ + text::decimal(process_id as nat) + "_ts"@ + text::decimal(
                    epoch_secs as nat,
                ),
            ),
        },
{
    if let Some(given) = given {
        if !text::is_blank(given) {
            return scope_from(given);
        }
    }
    let mut raw = "pid".to_owned();
    text::append_u64(&mut raw, process_id as u64);
    raw.append("_ts");
    text::append_u64(&mut raw, epoch_secs);
    scope_from(raw.as_str())
}

/// The items of a list, without the space around them; empty ones are left out.
pub open spec fn listed(items: Seq<Seq<char>>) -> Seq<Seq<char>>
    decreases items.len(),
{
    if items.len() == 0 {
        Seq::empty()
    } else {
        let before = listed(items.drop_last());
        let item = text::trimmed(items.last());
        if item.len() > 0 {
            before.push(item)
        } else {
            before
        }
    }
}

/// The items of a comma-separated list.
pub open spec fn comma_list(raw: Seq<char>) -> Seq<Seq<char>> {
    listed(text::parts(raw, ','))
}

/// The texts, in character sequences.
pub open spec fn text_views(texts: Seq<String>) -> Seq<Seq<char>> {
    texts.map_values(|text: String| text@)
}

/// The items of a comma-separated list.
pub fn split_comma_list(raw: &str) -> (items: Vec<String>)
    ensures
        text_views(items@) == comma_list(raw@),
{
    let chars = text::chars_of(raw);
    let split = text::split_chars(&chars, ',');
    let ghost all = text::parts(raw@, ',');
    let mut items: Vec<String> = Vec::new();
    let mut i: usize = 0;
    assert(all.take(0) =~= Seq::<Seq<char>>::empty());
    assert(text_views(items@) =~= Seq::<Seq<char>>::empty());
    while i < split.len()
        invariant
            i <= split@.len(),
            text::char_views(split@) == all,
            all.len() == split@.len(),
            text_views(items@) == listed(all.take(i as int)),
        decreases split@.len() - i,
    {
        assert(all.take(i + 1).drop_last() =~= all.take(i as int));
        assert(all.take(i + 1).last() == split@[i as int]@);
        let item = text::trim(&split[i]);
        let ghost view = item@;
        if !text::is_empty(item.as_str()) {
            let ghost before = items@;
            items.push(item);
            assert(text_views(items@) =~= text_views(before).push(view));
        }
        i = i + 1;
    }
    assert(all.take(i as int) =~= all);
    items
}

/// Each item once, where it comes first.
pub open spec fn first_occurrences(items: Seq<Seq<char>>) -> Seq<Seq<char>>
    decreases items.len(),
{
    if items.len() == 0 {
        Seq::empty()
    } else {
        let before = first_occurrences(items.drop_last());
        if before.contains(items.last()) {
            before
        } else {
            before.push(items.last())
        }
    }
}

fn contains_text(texts: &Vec<String>, wanted: &str) -> (contains: bool)
    ensures
        contains == text_views(texts@).contains(wanted@),
{
    let mut i: usize = 0;
    while i < texts.len()
        invariant
            i <= texts@.len(),
            forall|k: int| 0 <= k < i ==> text_views(texts@)[k] != wanted@,
        decreases texts@.len() - i,
    {
        assert(text_views(texts@)[i as int] == texts@[i as int]@);
        if text::same_text(texts[i].as_str(), wanted) {
            return true;
        }
        i = i + 1;
    }
    false
}

/// The RDMA devices that a test names: each once, in the order in which they are named. A list
/// without a device counts as none.
pub fn kv_test_rdma_device_names_override(raw: Option<&str>) -> (devices: Option<Vec<String>>)
    ensures
        match raw {
            Some(raw) => {
                let named = first_occurrences(comma_list(raw@));
                if named.len() == 0 {
                    devices is None
                } else {
                    devices matches Some(devices) && text_views(devices@) == named
                }
            },
            None => devices is None,
        },
{
    let raw = match raw {
        Some(raw) => raw,
        None => {
            return None;
        },
    };
    let items = split_comma_list(raw);
    let ghost all = comma_list(raw@);
    let mut devices: Vec<String> = Vec::new();
    let mut i: usize = 0;
    assert(text_views(items@).len() == items@.len());
    assert(all.take(0) =~= Seq::<Seq<char>>::empty());
    assert(text_views(devices@) =~= Seq::<Seq<char>>::empty());
    while i < items.len()
        invariant
            i <= items@.len(),
            text_views(items@) == all,
            all.len() == items@.len(),
            text_views(devices@) == first_occurrences(all.take(i as int)),
        decreases items@.len() - i,
    {
        assert(all.take(i + 1).drop_last() =~= all.take(i as int));
        assert(all.take(i + 1).last() == items@[i as int]@);
        if !contains_text(&devices, items[i].as_str()) {
            let ghost before = devices@;
            devices.push(items[i].clone());
            assert(text_views(devices@) =~= text_views(before).push(items@[i as int]@));
        }
        i = i + 1;
    }
    assert(all.take(i as int) =~= all);
    assert(text_views(devices@).len() == devices@.len());
    if devices.len() == 0 {
        return None;
    }
    Some(devices)
}

/// What is wrong with a setting.
#[derive(Debug, Clone, Copy, PartialEq, Eq, Structural)]
pub enum SettingError {
    Empty,
    NotANumber,
    /// The ports from the base on do not all exist.
    PortOverflow,
}

/// What the text of a setting for the number of side workers says: zero counts as none.
pub open spec fn worker_count_setting(trimmed: Seq<char>) -> Result<Option<int>, SettingError> {
    if trimmed.len() == 0 {
        Ok(None)
    } else {
        match text::parsed_u16(trimmed) {
            Some(number) => Ok(
                if number == 0 {
                    None
                } else {
                    Some(number)
                },
            ),
            None => Err(SettingError::NotANumber),
        }
    }
}

/// A setting that was read, in mathematical terms.
pub open spec fn setting_view(setting: Result<Option<u16>, SettingError>) -> Result<
    Option<int>,
    SettingError,
> {
    match setting {
        Ok(Some(number)) => Ok(Some(number as int)),
        Ok(None) => Ok(None),
        Err(err) => Err(err),
    }
}

/// What the text of a setting for the number of side workers says.
pub fn worker_count_from(trimmed: &str) -> (count: Result<Option<u16>, SettingError>)
    ensures
        setting_view(count) == worker_count_setting(trimmed@),
{
    if text::is_empty(trimmed) {
        return Ok(None);
    }
    match text::parse_u16(trimmed) {
        Some(number) => {
            if number == 0 {
                return Ok(None);
            }
            Ok(Some(number))
        },
        None => Err(SettingError::NotANumber),
    }
}

/// How many side workers owners get in a test; none where the setting is missing, empty or zero.
pub fn kv_test_side_transfer_worker_count(raw: Option<&str>) -> (count: Result<
    Option<u16>,
    SettingError,
>)
    ensures
        setting_view(count) == match raw {
            Some(raw) => worker_count_setting(text::trimmed(raw@)),
            None => Ok(None),
        },
{
    match raw {
        Some(raw) => worker_count_from(text::trim(&text::chars_of(raw)).as_str()),
        None => Ok(None),
    }
}

/// What the text of a setting for the first port of the side workers says.
pub open spec fn port_base_setting(trimmed: Seq<char>, worker_count: u16) -> Result<
    Option<int>,
    SettingError,
> {
    if trimmed.len() == 0 {
        Err(SettingError::Empty)
    } else {
        match text::parsed_u16(trimmed) {
            Some(base) => if base + (if worker_count > 0 {
                worker_count - 1
            } else {
                0
            }) <= u16::MAX {
                Ok(Some(base))
            } else {
                Err(SettingError::PortOverflow)
            },
            None => Err(SettingError::NotANumber),
        }
    }
}

/// What the text of a setting for the first port of the side workers says.
pub fn port_base_from(trimmed: &str, worker_count: u16) -> (base: Result<Option<u16>, SettingError>)
    ensures
        setting_view(base) == port_base_setting(trimmed@, worker_count),
{
    if text::is_empty(trimmed) {
        return Err(SettingError::Empty);
    }
    match text::parse_u16(trimmed) {
        Some(base) => match base.checked_add(worker_count.saturating_sub(1)) {
            Some(_) => Ok(Some(base)),
            None => Err(SettingError::PortOverflow),
        },
        None => Err(SettingError::NotANumber),
    }
}

/// The first port of the side workers in a test, where it is set.
pub fn kv_test_side_transfer_worker_p2p_port_base(raw: Option<&str>, worker_count: u16) -> (base:
    Result<Option<u16>, SettingError>)
    ensures
        setting_view(base) == match raw {
            Some(raw) => port_base_setting(text::trimmed(raw@), worker_count),
            None => Ok(None),
        },
{
    match raw {
        Some(raw) => port_base_from(text::trim(&text::chars_of(raw)).as_str(), worker_count),
        None => Ok(None),
    }
}

/// Whether two values hold the same bytes.
pub fn same_bytes(a: &[u8], b: &[u8]) -> (same: bool)
    ensures
        same == (a@ == b@),
{
    if a.len() != b.len() {
        return false;
    }
    let mut i: usize = 0;
    while i < a.len()
        invariant
            i <= a@.len(),
            a@.len() == b@.len(),
            forall|k: int| 0 <= k < i ==> a@[k] == b@[k],
        decreases a@.len() - i,
    {
        if a[i] != b[i] {
            assert(a@[i as int] != b@[i as int]);
            return false;
        }
        i = i + 1;
    }
    assert(a@ =~= b@);
    true
}

/// The settings that make a test run skip to its last step.
pub fn kv_test_only_step8(raw: Option<&str>) -> (only: bool)
    ensures
        only == (raw matches Some(raw) && (raw@ == "1"@ || raw@ == "true"@ || raw@ == "TRUE"@
            || raw@ == "yes"@ || raw@ == "YES"@)),
{
    match raw {
        Some(raw) => text::same_text(raw, "1") || text::same_text(raw, "true") || text::same_text(
            raw,
            "TRUE",
        ) || text::same_text(raw, "yes") || text::same_text(raw, "YES"),
        None => false,
    }
}

} // verus!
