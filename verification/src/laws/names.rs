//! Names: of programs, of what members publish, and of the places where processes meet.

use crate::exe_name;
use crate::laws::texts;
use crate::local_ipc;
use crate::text;
use vstd::prelude::*;

verus! {

/// What a member publishes under a key is the value of the first entry with that key.
pub proof fn law_published_values_are_found(
    entries: Seq<(String, String)>,
    key: Seq<char>,
    i: int,
)
    requires
        0 <= i <= entries.len(),
        forall|j: int| 0 <= j < i ==> (#[trigger] entries[j]).0@ != key,
        i < entries.len() ==> entries[i].0@ == key,
    ensures
        crate::cluster_manager::lookup(entries, key) == if i < entries.len() {
            Some(entries[i].1@)
        } else {
            None
        },
    decreases entries.len(),
{
    if i > 0 {
        assert(entries[0].0@ != key);
        let rest = entries.drop_first();
        assert forall|j: int| 0 <= j < i - 1 implies (#[trigger] rest[j]).0@ != key by {
            assert(entries[j + 1].0@ != key);
        }
        law_published_values_are_found(rest, key, i - 1);
    }
}

/// The last component of a path is the name of its file, unless it stands for the directory itself or
/// for the one above.
pub proof fn law_last_component_names_the_file(dir: Seq<char>, name: Seq<char>)
    requires
        !name.contains('/'),
        name.len() > 0,
        name != seq!['.'],
        name != seq!['.', '.'],
    ensures
        exe_name::file_name(dir.push('/') + name) == Some(name),
{
    texts::lemma_parts_after_separator(dir, name, '/');
    let components = text::parts(dir.push('/') + name, '/');
    assert(components.last() == name);
}

/// A separator at the end of a path, or a component that stands for the directory itself, changes
/// nothing.
pub proof fn law_empty_components_name_nothing(path: Seq<char>)
    ensures
        exe_name::file_name(path.push('/')) == exe_name::file_name(path),
        exe_name::file_name(path + seq!['/', '.']) == exe_name::file_name(path),
{
    texts::lemma_parts_after_separator(path, Seq::empty(), '/');
    assert(path.push('/') + Seq::empty() =~= path.push('/'));
    assert(text::parts(path.push('/'), '/').drop_last() =~= text::parts(path, '/'));
    texts::lemma_parts_after_separator(path, seq!['.'], '/');
    assert(path.push('/') + seq!['.'] =~= path + seq!['/', '.']);
    assert(text::parts(path + seq!['/', '.'], '/').drop_last() =~= text::parts(path, '/'));
    reveal_with_fuel(exe_name::last_name, 2);
}

/// What stands before the last dot of a name is its stem. A dot at the beginning begins no extension.
pub proof fn law_stem_stands_before_the_last_dot(stem: Seq<char>, extension: Seq<char>)
    requires
        !extension.contains('.'),
    ensures
        stem.len() > 0 ==> exe_name::stem_of_name(stem.push('.') + extension) == stem,
        exe_name::stem_of_name(seq!['.'] + extension) == seq!['.'] + extension,
        exe_name::stem_of_name(extension) == extension,
{
    lemma_last_dot(stem.push('.') + extension, stem.len() as int);
    assert((stem.push('.') + extension).take(stem.len() as int) =~= stem);
    lemma_last_dot(seq!['.'] + extension, 0);
    lemma_last_dot(extension, -1);
}

proof fn lemma_last_dot(name: Seq<char>, at: int)
    requires
        -1 <= at < name.len(),
        at >= 0 ==> name[at] == '.',
        forall|j: int| at < j < name.len() ==> #[trigger] name[j] != '.',
    ensures
        exe_name::last_dot(name) == at,
    decreases name.len(),
{
    if name.len() > 0 && at < name.len() - 1 {
        assert(name[name.len() - 1] != '.');
        lemma_last_dot(name.drop_last(), at);
    }
}

/// A program is Python's by the letters that its name begins with, small or large.
pub proof fn law_python_is_told_by_its_name(dir: Seq<char>, name: Seq<char>)
    requires
        !name.contains('/'),
        name.len() > 2,
    ensures
        exe_name::is_python(dir.push('/') + name) <==> name.len() >= 6 && (name[0] == 'p' || name[0] == 'P') && (
        name[1] == 'y' || name[1] == 'Y') && (name[2] == 't' || name[2] == 'T') && (name[3] == 'h'
            || name[3] == 'H') && (name[4] == 'o' || name[4] == 'O') && (name[5] == 'n' || name[5]
            == 'N'),
{
    reveal_strlit("python");
    law_last_component_names_the_file(dir, name);
    let p = "python"@;
    assert(p[0] == 'p' && p[1] == 'y' && p[2] == 't' && p[3] == 'h' && p[4] == 'o' && p[5] == 'n');
    if exe_name::is_python(dir.push('/') + name) {
        assert(exe_name::ascii_lower(name[0]) == p[0] && exe_name::ascii_lower(name[1]) == p[1] && exe_name::ascii_lower(name[2])
            == p[2] && exe_name::ascii_lower(name[3]) == p[3] && exe_name::ascii_lower(name[4]) == p[4] && exe_name::ascii_lower(
            name[5],
        ) == p[5]);
    }
}

/// The number that a small hexadecimal digit stands for.
pub open spec fn nibble(c: char) -> int {
    if '0' <= c <= '9' {
        c as int - '0' as int
    } else {
        c as int - 'a' as int + 10
    }
}

/// Each byte is written as two digits, the high one first.
pub proof fn law_bytes_are_written_in_two_digits(data: Seq<u8>)
    ensures
        local_ipc::hex_text(data).len() == 2 * data.len(),
        forall|i: int|
            0 <= i < data.len() ==> nibble(local_ipc::hex_text(data)[2 * i]) * 16 + nibble(
                local_ipc::hex_text(data)[2 * i + 1],
            ) == #[trigger] data[i],
    decreases data.len(),
{
    if data.len() > 0 {
        let fewer = data.drop_last();
        law_bytes_are_written_in_two_digits(fewer);
        assert forall|i: int| 0 <= i < data.len() implies nibble(local_ipc::hex_text(data)[2 * i]) * 16 + nibble(
            local_ipc::hex_text(data)[2 * i + 1],
        ) == #[trigger] data[i] by {
            if i < fewer.len() {
                assert(fewer[i] == data[i]);
                assert(local_ipc::hex_text(data)[2 * i] == local_ipc::hex_text(fewer)[2 * i]);
                assert(local_ipc::hex_text(data)[2 * i + 1] == local_ipc::hex_text(fewer)[2 * i + 1]);
            }
        }
    }
}

/// Two digests that differ in their first ten bytes have different meeting places.
pub proof fn law_meeting_places_are_told_apart(a: Seq<u8>, b: Seq<u8>)
    requires
        a.len() >= 10,
        b.len() >= 10,
        a.take(10) != b.take(10),
    ensures
        local_ipc::ipc_root_for_digest(a) != local_ipc::ipc_root_for_digest(b),
{
    law_bytes_are_written_in_two_digits(a);
    law_bytes_are_written_in_two_digits(b);
    let prefix = "/tmp/fluxon_ipc/"@;
    let x = local_ipc::ipc_root_for_digest(a);
    let y = local_ipc::ipc_root_for_digest(b);
    if x == y {
        assert forall|i: int| 0 <= i < 10 implies a.take(10)[i] == b.take(10)[i] by {
            assert(x[prefix.len() + 2 * i] == local_ipc::hex_text(a)[2 * i]);
            assert(y[prefix.len() + 2 * i] == local_ipc::hex_text(b)[2 * i]);
            assert(x[prefix.len() + 2 * i + 1] == local_ipc::hex_text(a)[2 * i + 1]);
            assert(y[prefix.len() + 2 * i + 1] == local_ipc::hex_text(b)[2 * i + 1]);
            assert(a[i] == b[i]);
        }
        assert(a.take(10) =~= b.take(10));
    }
}

/// The programs of this project are told by the stems of their names.
pub proof fn law_own_programs_are_told_by_their_stems(dir: Seq<char>, name: Seq<char>)
    requires
        !name.contains('/'),
        name.len() > 2,
    ensures
        exe_name::is_fluxon_kv(dir.push('/') + name) <==> exe_name::stem_of_name(name) == "fluxon_kv"@ || exe_name::stem_of_name(
            name,
        ) == "kv_test"@,
{
    law_last_component_names_the_file(dir, name);
}

/// A meeting place for processes has a short plain name in one directory.
pub proof fn law_meeting_places_are_short(root: Seq<char>)
    requires
        local_ipc::is_short_alias(root),
    ensures
        root.len() == 36,
        vstd::utf8::encode_utf8(root).len() == 36,
        root.take(16) == "/tmp/fluxon_ipc/"@,
        forall|i: int|
            16 <= i < 36 ==> '0' <= #[trigger] root[i] <= '9' || 'a' <= root[i] <= 'f',
{
}

} // verus!
