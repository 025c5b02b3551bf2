//! File names and paths as text, with `/` between the parts of a path.

use vstd::prelude::*;
use vstd::string::*;
use crate::text::{chars_of, ends_with, has_at, slice_of};

verus! {

/// `base` extended by `rel`. A `rel` that begins with `/` stands for itself;
/// otherwise it follows `base`, after a `/` unless `base` is empty or ends in one.
pub open spec fn path_join(base: Seq<char>, rel: Seq<char>) -> Seq<char> {
    if rel.len() > 0 && rel[0] == '/' {
        rel
    } else if base.len() == 0 || base.last() == '/' {
        base + rel
    } else {
        base + seq!['/'] + rel
    }
}

/// Extends the path `base` by `rel`.
pub fn join_path(base: &str, rel: &str) -> (r: String)
    ensures
        r@ == path_join(base@, rel@),
{
    proof {
        reveal_strlit("/");
    }
    let head = chars_of(base);
    let tail = chars_of(rel);
    if tail.len() > 0 && tail[0] == '/' {
        return String::from_str(rel);
    }
    let mut r = String::from_str(base);
    if head.len() > 0 && head[head.len() - 1] != '/' {
        r.append("/");
    }
    r.append(rel);
    r
}

/// Position of the last `c` in `s`, or -1 when `s` holds none.
pub open spec fn last_index_of(s: Seq<char>, c: char) -> int
    decreases s.len(),
{
    if s.len() == 0 {
        -1
    } else if s.last() == c {
        s.len() - 1
    } else {
        last_index_of(s.drop_last(), c)
    }
}

/// A file name without its extension: what stands before the last `.`,
/// unless there is none, or the only one comes first, or the name is `..`.
pub open spec fn file_stem(name: Seq<char>) -> Seq<char> {
    let dot = last_index_of(name, '.');
    if name == seq!['.', '.'] || dot <= 0 {
        name
    } else {
        name.take(dot)
    }
}

/// `s` without `suffix` at its end, if it ends with it.
pub open spec fn strip_suffix(s: Seq<char>, suffix: Seq<char>) -> Option<Seq<char>> {
    if ends_with(s, suffix) {
        Some(s.take(s.len() - suffix.len()))
    } else {
        None
    }
}

/// The name of the session that a script creates: the script's file name
/// without its extension, and without `.tmux-session` before that. A file
/// name that does not end so is no session's script.
pub open spec fn script_session(file_name: Seq<char>) -> Option<Seq<char>> {
    strip_suffix(file_stem(file_name), ".tmux-session"@)
}

/// The name of the session that the script `file_name` creates.
pub fn session_of_script(file_name: &str) -> (r: Option<String>)
    ensures
        match r {
            Some(name) => script_session(file_name@) == Some(name@),
            None => script_session(file_name@).is_none(),
        },
{
    let chars = chars_of(file_name);
    let n: usize = chars.len();
    // the extension
    let mut dot: usize = n;
    proof {
        assert(chars@.take(n as int) =~= chars@);
    }
    while dot > 0 && chars[dot - 1] != '.'
        invariant
            dot <= n,
            n == chars@.len(),
            last_index_of(chars@, '.') == last_index_of(chars@.take(dot as int), '.'),
        decreases dot,
    {
        proof {
            assert(chars@.take(dot as int).drop_last() =~= chars@.take(dot - 1));
        }
        dot -= 1;
    }
    let both_dots: bool = n == 2 && chars[0] == '.' && chars[1] == '.';
    proof {
        if both_dots {
            assert(chars@ =~= seq!['.', '.']);
        }
    }
    let end: usize = if both_dots || dot <= 1 {
        n
    } else {
        dot - 1
    };
    let ghost stem = file_stem(file_name@);
    // the marker before it
    let marker = chars_of(".tmux-session");
    let m: usize = marker.len();
    if m > end {
        return None;
    }
    let found: bool = has_at(&chars, &marker, end - m);
    proof {
        assert(stem.skip(stem.len() - m) =~= chars@.subrange(end - m, end as int));
    }
    if found {
        Some(slice_of(file_name, 0, end - m))
    } else {
        None
    }
}

} // verus!
