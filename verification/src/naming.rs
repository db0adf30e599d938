use crate::text::chars_of;
use vstd::prelude::*;

verus! {

/// Where the last component of `path` starts: just behind its last `/`, or at
/// the front where it has none.
pub open spec fn component_start(path: Seq<char>) -> int
    decreases path.len(),
{
    if path.len() == 0 || path.last() == '/' {
        path.len() as int
    } else {
        component_start(path.drop_last())
    }
}

/// The final component of `path`, where it names a file or directory.
/// Components are separated by `/`; empty components and `.` are passed over,
/// and a path that ends in `..` has no file name.
pub open spec fn file_name(path: Seq<char>) -> Option<Seq<char>>
    decreases path.len(),
{
    if path.len() == 0 {
        None
    } else {
        let last = path.skip(component_start(path));
        if last.len() == 0 || last == seq!['.'] {
            file_name(path.drop_last())
        } else if last == seq!['.', '.'] {
            None
        } else {
            Some(last)
        }
    }
}

/// The position of the last `.` in `name`, or -1 where it has none.
pub open spec fn last_dot(name: Seq<char>) -> int
    decreases name.len(),
{
    if name.len() == 0 {
        -1
    } else if name.last() == '.' {
        name.len() - 1
    } else {
        last_dot(name.drop_last())
    }
}

/// The file name without its extension: what stands before the last `.`,
/// or the whole name where the only `.` leads it or it has none.
pub open spec fn file_stem(path: Seq<char>) -> Option<Seq<char>> {
    match file_name(path) {
        Some(name) => if last_dot(name) <= 0 {
            Some(name)
        } else {
            Some(name.take(last_dot(name)))
        },
        None => None,
    }
}

/// The extension of the file name: what stands behind the last `.`, unless
/// that `.` leads the name.
pub open spec fn extension(path: Seq<char>) -> Option<Seq<char>> {
    match file_name(path) {
        Some(name) => if last_dot(name) <= 0 {
            None
        } else {
            Some(name.skip(last_dot(name) + 1))
        },
        None => None,
    }
}

/// The name recorded for a source file: its stem, or `file` where the path
/// has none.
pub open spec fn original_name_of(path: Seq<char>) -> Seq<char> {
    match file_stem(path) {
        Some(stem) => stem,
        None => "file"@,
    }
}

/// The extension recorded for a source file: empty where the path has none.
pub open spec fn extension_of(path: Seq<char>) -> Seq<char> {
    match extension(path) {
        Some(extension) => extension,
        None => Seq::empty(),
    }
}

/// A stretch without `/` that starts behind a `/`, or at the front, is the
/// last component of the path that ends with it.
proof fn lemma_component_start(path: Seq<char>, start: int, end: int)
    requires
        0 <= start <= end <= path.len(),
        start == 0 || path[start - 1] == '/',
        forall|k: int| start <= k < end ==> path[k] != '/',
    ensures
        component_start(path.take(end)) == start,
    decreases end - start,
{
    if start < end {
        assert(path.take(end).drop_last() == path.take(end - 1));
        lemma_component_start(path, start, end - 1);
    }
}

/// A `.` with no `.` behind it is the last one.
proof fn lemma_last_dot(name: Seq<char>, dot: int)
    requires
        -1 <= dot < name.len(),
        dot >= 0 ==> name[dot] == '.',
        forall|k: int| dot < k < name.len() ==> name[k] != '.',
    ensures
        last_dot(name) == dot,
    decreases name.len(),
{
    if name.len() > 0 && dot < name.len() - 1 {
        let shorter = name.drop_last();
        lemma_last_dot(shorter, dot);
    }
}

/// The span of the file name in `chars`, as `file_name` defines it.
fn file_name_span(chars: &Vec<char>) -> (span: Option<(usize, usize)>)
    ensures
        match span {
            Some((start, end)) => start < end <= chars.len() && file_name(chars@) == Some(
                chars@.subrange(start as int, end as int),
            ),
            None => file_name(chars@) is None,
        },
{
    let mut end: usize = chars.len();
    assert(chars@.take(end as int) == chars@);
    while end > 0
        invariant
            end <= chars.len(),
            file_name(chars@) == file_name(chars@.take(end as int)),
        decreases end,
    {
        let mut start: usize = end;
        while start > 0 && chars[start - 1] != '/'
            invariant
                start <= end <= chars.len(),
                forall|k: int| start <= k < end ==> chars@[k] != '/',
            decreases start,
        {
            start -= 1;
        }
        let ghost prefix = chars@.take(end as int);
        let ghost last = chars@.subrange(start as int, end as int);
        proof {
            lemma_component_start(chars@, start as int, end as int);
            assert(prefix.skip(start as int) == last);
            assert(prefix.drop_last() == chars@.take(end - 1));
        }
        let length = end - start;
        if length == 0 || (length == 1 && chars[start] == '.') {
            proof {
                if length == 1 {
                    assert(last == seq!['.']);
                }
            }
            end -= 1;
        } else if length == 2 && chars[start] == '.' && chars[start + 1] == '.' {
            proof {
                assert(last == seq!['.', '.']);
            }
            return None;
        } else {
            proof {
                if length == 1 {
                    assert(last[0] != '.');
                }
            }
            return Some((start, end));
        }
    }
    None
}

/// The names recorded for a source file: `original_name_of` and
/// `extension_of` its path.
pub fn name_parts(path: &str) -> (parts: (String, String))
    ensures
        parts.0@ == original_name_of(path@),
        parts.1@ == extension_of(path@),
{
    let chars = chars_of(path);
    match file_name_span(&chars) {
        Some((start, end)) => {
            let ghost name = chars@.subrange(start as int, end as int);
            let mut dot: usize = end;
            while dot > start && chars[dot - 1] != '.'
                invariant
                    start <= dot <= end <= chars.len(),
                    forall|k: int| dot <= k < end ==> chars@[k] != '.',
                decreases dot,
            {
                dot -= 1;
            }
            proof {
                lemma_last_dot(name, dot - start - 1);
            }
            if dot <= start + 1 {
                let stem = path.substring_char(start, end);
                (stem.to_owned(), String::new())
            } else {
                let stem = path.substring_char(start, dot - 1);
                let extension = path.substring_char(dot, end);
                proof {
                    assert(name.take(dot - start - 1) == chars@.subrange(
                        start as int,
                        dot - 1,
                    ));
                }
                (stem.to_owned(), extension.to_owned())
            }
        },
        None => ("file".to_owned(), String::new()),
    }
}

} // verus!
