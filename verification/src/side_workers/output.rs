//! The end of what a side worker printed.

use crate::text;
use vstd::prelude::*;

verus! {

/// How many lines of a worker's output are shown.
pub const OUTPUT_TAIL_LINES: usize = 40;

/// A part that ends a line, without the carriage return that may stand before the newline.
pub open spec fn without_return(part: Seq<char>) -> Seq<char> {
    if part.len() > 0 && part.last() == '\r' {
        part.drop_last()
    } else {
        part
    }
}

/// The lines of a text, as `str::lines` gives them: without their ends, and without an empty line
/// behind the last newline.
pub open spec fn lines(raw: Seq<char>) -> Seq<Seq<char>> {
    let parts = text::parts(raw, '\n');
    let ended = parts.drop_last().map_values(|part: Seq<char>| without_return(part));
    if parts.last().len() == 0 {
        ended
    } else {
        ended.push(parts.last())
    }
}

/// The lines with newlines between them.
pub open spec fn joined(lines: Seq<Seq<char>>) -> Seq<char>
    decreases lines.len(),
{
    if lines.len() == 0 {
        Seq::empty()
    } else if lines.len() == 1 {
        lines[0]
    } else {
        joined(lines.drop_last()) + seq!['\n'] + lines.last()
    }
}

/// The last lines of an output; nothing where it holds only white space.
pub open spec fn output_tail(raw: Seq<char>) -> Option<Seq<char>> {
    if text::blank(raw) {
        None
    } else if lines(raw).len() > OUTPUT_TAIL_LINES {
        Some(joined(lines(raw).skip(lines(raw).len() - OUTPUT_TAIL_LINES)))
    } else {
        Some(raw)
    }
}

fn lines_of(chars: &Vec<char>) -> (out: Vec<Vec<char>>)
    ensures
        text::char_views(out@) == lines(chars@),
{
    let parts = text::split_chars(chars, '\n');
    let ghost all = text::parts(chars@, '\n');
    assert(text::char_views(parts@).len() == parts@.len());
    let count: usize = parts.len();
    let mut out: Vec<Vec<char>> = Vec::new();
    let mut i: usize = 0;
    let ghost ended = all.drop_last().map_values(|part: Seq<char>| without_return(part));
    assert(text::char_views(out@) =~= ended.take(0));
    while i < count - 1
        invariant
            count == parts@.len(),
            count > 0,
            i <= count - 1,
            text::char_views(parts@) == all,
            ended == all.drop_last().map_values(|part: Seq<char>| without_return(part)),
            text::char_views(out@) == ended.take(i as int),
        decreases count - i,
    {
        let mut line: Vec<char> = parts[i].clone();
        assert(line@ =~= parts@[i as int]@);
        assert(all[i as int] == parts@[i as int]@);
        if line.len() > 0 && line[line.len() - 1] == '\r' {
            let _ = line.pop();
        }
        assert(line@ =~= without_return(all[i as int]));
        assert(ended[i as int] == without_return(all.drop_last()[i as int]));
        let ghost out_before = out@;
        let ghost line_view = line@;
        out.push(line);
        assert(text::char_views(out@) =~= text::char_views(out_before).push(line_view));
        assert(ended.take(i + 1) =~= ended.take(i as int).push(ended[i as int]));
        i = i + 1;
    }
    assert(ended.take(i as int) =~= ended);
    let last: Vec<char> = parts[count - 1].clone();
    assert(last@ =~= parts@[count - 1]@);
    assert(all.last() == parts@[count - 1]@);
    if last.len() > 0 {
        let ghost out_before = out@;
        let ghost last_view = last@;
        out.push(last);
        assert(text::char_views(out@) =~= text::char_views(out_before).push(last_view));
    }
    out
}

fn join_lines(parts: &Vec<Vec<char>>, from: usize) -> (tail: String)
    requires
        from <= parts@.len(),
    ensures
        tail@ == joined(text::char_views(parts@).skip(from as int)),
{
    let ghost views = text::char_views(parts@).skip(from as int);
    let mut tail = String::new();
    let mut i: usize = from;
    assert(views.take(0) =~= Seq::<Seq<char>>::empty());
    assert(tail@ =~= Seq::<char>::empty());
    while i < parts.len()
        invariant
            from <= i <= parts@.len(),
            views == text::char_views(parts@).skip(from as int),
            tail@ == joined(views.take(i - from)),
        decreases parts@.len() - i,
    {
        let ghost before = tail@;
        let ghost head = views.take(i + 1 - from);
        proof {
            assert(head.drop_last() =~= views.take(i - from));
            assert(head.last() == parts@[i as int]@);
        }
        if i > from {
            tail.push('\n');
        }
        text::push_chars(&mut tail, &parts[i]);
        proof {
            if i == from {
                assert(tail@ =~= parts@[i as int]@);
                assert(head[0] == head.last());
            } else {
                assert(tail@ =~= before + seq!['\n'] + parts@[i as int]@);
            }
        }
        i = i + 1;
    }
    assert(views.take(i - from) =~= views);
    tail
}

/// The last lines of an output; nothing where it holds only white space.
pub fn side_transfer_worker_output_tail(raw: String) -> (tail: Option<String>)
    ensures
        match tail {
            Some(tail) => output_tail(raw@) == Some(tail@),
            None => output_tail(raw@) is None,
        },
{
    if text::is_blank(raw.as_str()) {
        return None;
    }
    let chars = text::chars_of(raw.as_str());
    let all = lines_of(&chars);
    assert(text::char_views(all@).len() == all@.len());
    if all.len() > OUTPUT_TAIL_LINES {
        return Some(join_lines(&all, all.len() - OUTPUT_TAIL_LINES));
    }
    Some(raw)
}

/// What is shown of one output.
pub open spec fn shown_output(name: Seq<char>, path: Seq<char>, tail: Option<Seq<char>>) -> Seq<
    char,
> {
    match tail {
        Some(tail) => name + "_log="@ + path + "\n--- "@ + name + " tail ---\n"@ + tail
            + "\n--- end "@ + name + " tail ---"@,
        None => name + "_log="@ + path + " (empty)"@,
    }
}

fn show_output(name: &str, path: &str, raw: Option<String>) -> (shown: String)
    ensures
        shown@ == shown_output(
            name@,
            path@,
            match raw {
                Some(raw) => output_tail(raw@),
                None => None,
            },
        ),
{
    let tail = match raw {
        Some(raw) => side_transfer_worker_output_tail(raw),
        None => None,
    };
    match tail {
        Some(tail) => name.to_owned().concat("_log=").concat(path).concat("\n--- ").concat(
            name,
        ).concat(" tail ---\n").concat(tail.as_str()).concat("\n--- end ").concat(name).concat(
            " tail ---",
        ),
        None => name.to_owned().concat("_log=").concat(path).concat(" (empty)"),
    }
}

/// The end of a read output, if it could be read.
pub open spec fn tail_of_read(raw: Option<String>) -> Option<Seq<char>> {
    match raw {
        Some(raw) => output_tail(raw@),
        None => None,
    }
}

/// What a worker printed last, on both its outputs. `stdout` and `stderr` are what could be read.
pub fn format_side_transfer_worker_output_tails(
    stdout_path: &str,
    stdout: Option<String>,
    stderr_path: &str,
    stderr: Option<String>,
) -> (shown: String)
    ensures
        shown@ == shown_output("stdout"@, stdout_path@, tail_of_read(stdout)) + "\n"@
            + shown_output("stderr"@, stderr_path@, tail_of_read(stderr)),
{
    let first = show_output("stdout", stdout_path, stdout);
    let second = show_output("stderr", stderr_path, stderr);
    first.concat("\n").concat(second.as_str())
}

} // verus!
