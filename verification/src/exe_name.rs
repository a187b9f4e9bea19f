//! What an executable's path says about the program.

use crate::text;
use vstd::prelude::*;

verus! {

/// A component that names nothing: an empty one, or a single dot.
pub open spec fn names_nothing(component: Seq<char>) -> bool {
    component.len() == 0 || component == seq!['.']
}

/// The last component that names something.
pub open spec fn last_name(components: Seq<Seq<char>>) -> Option<Seq<char>>
    decreases components.len(),
{
    if components.len() == 0 {
        None
    } else if names_nothing(components.last()) {
        last_name(components.drop_last())
    } else {
        Some(components.last())
    }
}

/// The final component of a path, as `Path::file_name` gives it on Unix: trailing slashes and
/// single dots do not count, and two dots are no file.
pub open spec fn file_name(path: Seq<char>) -> Option<Seq<char>> {
    match last_name(text::parts(path, '/')) {
        Some(name) => if name == seq!['.', '.'] {
            None
        } else {
            Some(name)
        },
        None => None,
    }
}

/// The position of the last dot; -1 where there is none.
pub open spec fn last_dot(name: Seq<char>) -> int
    decreases name.len(),
{
    if name.len() == 0 {
        -1
    } else if name.last() == '.' {
        name.len() - 1
    } else {
        last_dot(name.drop_last())
    }
}

/// The part of a file name before its last dot, as `Path::file_stem` gives it: the whole name where
/// there is no dot but at the front.
pub open spec fn stem_of_name(name: Seq<char>) -> Seq<char> {
    if last_dot(name) > 0 {
        name.take(last_dot(name))
    } else {
        name
    }
}

/// A letter of the English alphabet in lower case; any other character unchanged.
pub open spec fn ascii_lower(c: char) -> char {
    if 'A' <= c <= 'Z' {
        (c as u32 + 32) as char
    } else {
        c
    }
}

/// The text begins with the prefix, where upper and lower case are the same.
pub open spec fn begins_with_ignoring_case(text: Seq<char>, prefix: Seq<char>) -> bool {
    &&& prefix.len() <= text.len()
    &&& forall|i: int| 0 <= i < prefix.len() ==> ascii_lower(#[trigger] text[i]) == prefix[i]
}

/// The executable is a Python interpreter, by its name.
pub open spec fn is_python(path: Seq<char>) -> bool {
    file_name(path) matches Some(name) && begins_with_ignoring_case(name, "python"@)
}

/// The executable is this program, by its name.
pub open spec fn is_fluxon_kv(path: Seq<char>) -> bool {
    file_name(path) matches Some(name) && (stem_of_name(name) == "fluxon_kv"@ || stem_of_name(name)
        == "kv_test"@)
}

/// The final component of a path.
fn find_file_name(path: &str) -> (name: Option<Vec<char>>)
    ensures
        match name {
            Some(name) => file_name(path@) == Some(name@),
            None => file_name(path@) is None,
        },
{
    let chars = text::chars_of(path);
    let split = text::split_chars(&chars, '/');
    let ghost all = text::parts(path@, '/');
    let mut end: usize = split.len();
    assert(all.len() == split@.len());
    assert(all.take(end as int) =~= all);
    while end > 0
        invariant
            end <= split@.len(),
            all == text::parts(path@, '/'),
            text::char_views(split@) == all,
            all.len() == split@.len(),
            last_name(all.take(end as int)) == last_name(all),
        decreases end,
    {
        let part = &split[end - 1];
        let ghost head = all.take(end as int);
        assert(head.last() == part@);
        assert(head.drop_last() =~= all.take(end - 1));
        let nothing = part.len() == 0 || (part.len() == 1 && part[0] == '.');
        proof {
            if part@.len() == 1 && part@[0] == '.' {
                assert(part@ =~= seq!['.']);
            } else if part@ == seq!['.'] {
                assert(part@.len() == 1 && part@[0] == '.');
            }
        }
        if !nothing {
            if part.len() == 2 && part[0] == '.' && part[1] == '.' {
                assert(part@ =~= seq!['.', '.']);
                return None;
            }
            proof {
                if part@ == seq!['.', '.'] {
                    assert(part@.len() == 2 && part@[0] == '.' && part@[1] == '.');
                }
            }
            let name: Vec<char> = part.clone();
            assert(name@ =~= part@);
            return Some(name);
        }
        end = end - 1;
    }
    assert(all.take(0) =~= Seq::<Seq<char>>::empty());
    None
}

/// The executable is a Python interpreter, by its name.
pub fn current_exe_looks_like_python(path: &str) -> (python: bool)
    ensures
        python == is_python(path@),
{
    let prefix = text::chars_of("python");
    match find_file_name(path) {
        None => false,
        Some(name) => {
            if name.len() < prefix.len() {
                return false;
            }
            let mut i: usize = 0;
            while i < prefix.len()
                invariant
                    i <= prefix@.len(),
                    prefix@ == "python"@,
                    prefix@.len() <= name@.len(),
                    file_name(path@) == Some(name@),
                    forall|j: int| 0 <= j < i ==> ascii_lower(#[trigger] name@[j]) == prefix@[j],
                decreases prefix@.len() - i,
            {
                if lower(name[i]) != prefix[i] {
                    return false;
                }
                i = i + 1;
            }
            true
        },
    }
}

fn lower(c: char) -> (lowered: char)
    ensures
        lowered == ascii_lower(c),
{
    match c {
        'A' => 'a',
        'B' => 'b',
        'C' => 'c',
        'D' => 'd',
        'E' => 'e',
        'F' => 'f',
        'G' => 'g',
        'H' => 'h',
        'I' => 'i',
        'J' => 'j',
        'K' => 'k',
        'L' => 'l',
        'M' => 'm',
        'N' => 'n',
        'O' => 'o',
        'P' => 'p',
        'Q' => 'q',
        'R' => 'r',
        'S' => 's',
        'T' => 't',
        'U' => 'u',
        'V' => 'v',
        'W' => 'w',
        'X' => 'x',
        'Y' => 'y',
        'Z' => 'z',
        _ => c,
    }
}

/// The executable is this program, by its name.
pub fn current_exe_looks_like_fluxon_kv(path: &str) -> (fluxon_kv: bool)
    ensures
        fluxon_kv == is_fluxon_kv(path@),
{
    match find_file_name(path) {
        None => false,
        Some(name) => {
            let mut end: usize = name.len();
            while end > 0 && name[end - 1] != '.'
                invariant
                    end <= name@.len(),
                    forall|j: int| end <= j < name@.len() ==> name@[j] != '.',
                decreases end,
            {
                end = end - 1;
            }
            let stem = if end > 1 {
                proof {
                    lemma_last_dot(name@, end - 1);
                }
                text::first_chars(text::text_of(&name).as_str(), end - 1)
            } else {
                proof {
                    lemma_no_inner_dot(name@);
                }
                text::text_of(&name)
            };
            text::same_text(stem.as_str(), "fluxon_kv") || text::same_text(
                stem.as_str(),
                "kv_test",
            )
        },
    }
}

proof fn lemma_last_dot(name: Seq<char>, at: int)
    requires
        0 <= at < name.len(),
        name[at] == '.',
        forall|k: int| at < k < name.len() ==> name[k] != '.',
    ensures
        last_dot(name) == at,
    decreases name.len(),
{
    if at < name.len() - 1 {
        lemma_last_dot(name.drop_last(), at);
    }
}

proof fn lemma_no_inner_dot(name: Seq<char>)
    requires
        forall|k: int| 0 < k < name.len() ==> name[k] != '.',
    ensures
        last_dot(name) <= 0,
    decreases name.len(),
{
    if name.len() > 0 {
        lemma_no_inner_dot(name.drop_last());
    }
}

} // verus!
