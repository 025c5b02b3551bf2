//! What the multiplexer is asked, and how its answers are read.

use vstd::prelude::*;
use vstd::string::*;
use crate::number::{parse_unsigned, parse_usize};
use crate::text::{chars_of, join, joined, slice_of, split, split_on, texts};

verus! {

/// Whether `c` is white space: a character that Unicode gives the property
/// `White_Space`.
pub open spec fn is_space(c: char) -> bool {
    let u = c as u32;
    ||| 0x09 <= u <= 0x0d
    ||| u == 0x20
    ||| u == 0x85
    ||| u == 0xa0
    ||| u == 0x1680
    ||| 0x2000 <= u <= 0x200a
    ||| u == 0x2028
    ||| u == 0x2029
    ||| u == 0x202f
    ||| u == 0x205f
    ||| u == 0x3000
}

/// `s` without the white space at its start.
pub open spec fn trim_start(s: Seq<char>) -> Seq<char>
    decreases s.len(),
{
    if s.len() > 0 && is_space(s[0]) {
        trim_start(s.skip(1))
    } else {
        s
    }
}

/// `s` without the white space at its end.
pub open spec fn trim_end(s: Seq<char>) -> Seq<char>
    decreases s.len(),
{
    if s.len() > 0 && is_space(s.last()) {
        trim_end(s.drop_last())
    } else {
        s
    }
}

/// `s` without the white space at its start and at its end.
pub open spec fn trimmed(s: Seq<char>) -> Seq<char> {
    trim_end(trim_start(s))
}

/// Whether `c` is white space.
fn space(c: char) -> (r: bool)
    ensures
        r == is_space(c),
{
    let u: u32 = c as u32;
    (0x09 <= u && u <= 0x0d) || u == 0x20 || u == 0x85 || u == 0xa0 || u == 0x1680 || (0x2000 <= u
        && u <= 0x200a) || u == 0x2028 || u == 0x2029 || u == 0x202f || u == 0x205f || u == 0x3000
}

/// Removes the white space at the start and at the end of `s`.
pub fn trim(s: &str) -> (r: String)
    ensures
        r@ == trimmed(s@),
{
    let chars = chars_of(s);
    let n: usize = chars.len();
    let mut start: usize = 0;
    proof {
        assert(s@.skip(0) =~= s@);
    }
    while start < n && space(chars[start])
        invariant
            start <= n,
            n == chars@.len(),
            chars@ == s@,
            trim_start(s@) == trim_start(s@.skip(start as int)),
        decreases n - start,
    {
        proof {
            assert(s@.skip(start as int).skip(1) =~= s@.skip(start + 1));
        }
        start += 1;
    }
    let ghost rest = s@.skip(start as int);
    proof {
        assert(rest.take(n - start) =~= rest);
    }
    let mut end: usize = n;
    while end > start && space(chars[end - 1])
        invariant
            start <= end <= n,
            n == chars@.len(),
            chars@ == s@,
            rest == s@.skip(start as int),
            trim_end(rest) == trim_end(rest.take(end - start)),
        decreases end,
    {
        proof {
            assert(rest.take(end - start).drop_last() =~= rest.take(end - start - 1));
        }
        end -= 1;
    }
    slice_of(s, start, end)
}

/// What the multiplexer prints for each pane, in the order of a record's fields.
pub open spec fn list_fields() -> Seq<Seq<char>> {
    seq![
        "#{session_id}"@,
        "#{session_name}"@,
        "#{window_id}"@,
        "#{window_index}"@,
        "#{window_name}"@,
        "#{pane_id}"@,
        "#{pane_index}"@,
        "#{pane_title}"@,
    ]
}

/// The format of a line of the list of panes: the fields with a tab between them.
pub fn list_format() -> (r: String)
    ensures
        r@ == joined(list_fields(), "\t"@),
{
    let mut fields: Vec<String> = Vec::new();
    // session
    fields.push(String::from_str("#{session_id}"));
    fields.push(String::from_str("#{session_name}"));
    // window
    fields.push(String::from_str("#{window_id}"));
    fields.push(String::from_str("#{window_index}"));
    fields.push(String::from_str("#{window_name}"));
    // pane
    fields.push(String::from_str("#{pane_id}"));
    fields.push(String::from_str("#{pane_index}"));
    fields.push(String::from_str("#{pane_title}"));
    proof {
        assert(texts(fields@) =~= list_fields());
    }
    join(&fields, "\t")
}

/// The arguments that make the multiplexer list all panes.
pub fn list_arguments() -> (arguments: Vec<String>)
    ensures
        texts(arguments@) == seq!["list-panes"@, "-a"@, "-F"@, joined(list_fields(), "\t"@)],
{
    let mut arguments: Vec<String> = Vec::new();
    arguments.push(String::from_str("list-panes"));
    arguments.push(String::from_str("-a"));
    arguments.push(String::from_str("-F"));
    arguments.push(list_format());
    arguments
}

/// The texts that are not empty, in their order.
pub open spec fn non_empty(parts: Seq<Seq<char>>) -> Seq<Seq<char>>
    decreases parts.len(),
{
    if parts.len() == 0 {
        Seq::empty()
    } else if parts.last().len() == 0 {
        non_empty(parts.drop_last())
    } else {
        non_empty(parts.drop_last()).push(parts.last())
    }
}

/// The lines of what the multiplexer printed, without the empty ones.
pub fn list_lines(output: &str) -> (lines: Vec<String>)
    ensures
        texts(lines@) == non_empty(split_on(output@, '\n')),
{
    let parts: Vec<String> = split(output, '\n');
    let ghost all = texts(parts@);
    let n: usize = parts.len();
    let mut lines: Vec<String> = Vec::new();
    let mut k: usize = 0;
    while k < n
        invariant
            k <= n,
            n == parts@.len(),
            all == texts(parts@),
            texts(lines@) == non_empty(all.take(k as int)),
        decreases n - k,
    {
        proof {
            assert(all.take(k + 1).drop_last() =~= all.take(k as int));
        }
        if !parts[k].as_str().is_empty() {
            let line: String = parts[k].clone();
            lines.push(line);
        }
        k += 1;
    }
    proof {
        assert(all.take(n as int) =~= all);
    }
    lines
}

/// The arguments that make the multiplexer print the size of its client.
pub fn size_arguments() -> (arguments: Vec<String>)
    ensures
        texts(arguments@) == seq![
            "display-message"@,
            "-p"@,
            "#{client_width}\t#{client_height}"@,
        ],
{
    let mut arguments: Vec<String> = Vec::new();
    arguments.push(String::from_str("display-message"));
    arguments.push(String::from_str("-p"));
    arguments.push(String::from_str("#{client_width}\t#{client_height}"));
    arguments
}

/// The width and the height that the multiplexer printed: the first two
/// fields, after white space around all of them is removed, if both are
/// numbers that a `usize` holds.
pub open spec fn client_size_of(output: Seq<char>) -> Option<(nat, nat)> {
    let fields = split_on(trimmed(output), '\t');
    if fields.len() < 2 {
        None
    } else {
        match (
            parse_unsigned(fields[0], usize::MAX as nat),
            parse_unsigned(fields[1], usize::MAX as nat),
        ) {
            (Some(width), Some(height)) => Some((width, height)),
            _ => None,
        }
    }
}

/// Reads the size of the client from what the multiplexer printed.
pub fn client_size(output: &str) -> (r: Option<(usize, usize)>)
    ensures
        match r {
            Some((width, height)) => client_size_of(output@) == Some((width as nat, height as nat)),
            None => client_size_of(output@).is_none(),
        },
{
    let text = trim(output);
    let fields = split(text.as_str(), '\t');
    if fields.len() < 2 {
        return None;
    }
    let width: usize = match parse_usize(fields[0].as_str()) {
        Some(n) => n,
        None => {
            return None;
        },
    };
    let height: usize = match parse_usize(fields[1].as_str()) {
        Some(n) => n,
        None => {
            return None;
        },
    };
    Some((width, height))
}

/// The arguments that make the multiplexer switch its client to a session
/// or window.
pub fn switch_arguments(target: &str) -> (arguments: Vec<String>)
    ensures
        texts(arguments@) == seq!["switch-client"@, "-t"@, target@],
{
    let mut arguments: Vec<String> = Vec::new();
    arguments.push(String::from_str("switch-client"));
    arguments.push(String::from_str("-t"));
    arguments.push(String::from_str(target));
    arguments
}

} // verus!
