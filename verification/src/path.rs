//! Paths as texts whose components are separated by `/`.

use crate::text::to_chars;
use vstd::prelude::*;

verus! {

/// The position of the last `mark` in a text, or -1 where it holds none.
pub open spec fn last_position(s: Seq<char>, mark: char) -> int
    decreases s.len(),
{
    if s.len() == 0 {
        -1
    } else if s.last() == mark {
        s.len() - 1
    } else {
        last_position(s.drop_last(), mark)
    }
}

/// A path without what trails its final component: every `/` at its end,
/// and every `.` at its end that follows a `/`.
pub open spec fn without_trailing(path: Seq<char>) -> Seq<char>
    decreases path.len(),
{
    if path.len() > 0 && path.last() == '/' {
        without_trailing(path.drop_last())
    } else if path.len() >= 2 && path.last() == '.' && path[path.len() - 2] == '/' {
        without_trailing(path.drop_last())
    } else {
        path
    }
}

/// The final component of a path: what follows the last `/` of the path
/// once what trails that component is left out.
pub open spec fn final_component(path: Seq<char>) -> Seq<char> {
    let kept = without_trailing(path);
    kept.subrange(last_position(kept, '/') + 1, kept.len() as int)
}

/// The file name of a path: its final component. A path whose final
/// component is empty, `.` or `..` names no file.
pub open spec fn file_name_of(path: Seq<char>) -> Option<Seq<char>> {
    let name = final_component(path);
    if name.len() == 0 || name == seq!['.'] || name == seq!['.', '.'] {
        None
    } else {
        Some(name)
    }
}

/// `tail` adjoined to the path `base`, with `/` between the two. A `tail`
/// that begins with `/` stands alone; a `base` that is empty or ends in `/`
/// takes no further `/`.
pub open spec fn joined(base: Seq<char>, tail: Seq<char>) -> Seq<char> {
    if tail.len() > 0 && tail[0] == '/' {
        tail
    } else if base.len() == 0 || base.last() == '/' {
        base + tail
    } else {
        base + seq!['/'] + tail
    }
}

/// `last_position` is the one position that holds `mark` and has none after
/// it.
pub proof fn lemma_last_position(s: Seq<char>, mark: char, k: int)
    requires
        -1 <= k < s.len(),
        k >= 0 ==> s[k] == mark,
        forall|i: int| k < i < s.len() ==> s[i] != mark,
    ensures
        last_position(s, mark) == k,
    decreases s.len(),
{
    if s.len() > 0 && k < s.len() - 1 {
        let front = s.drop_last();
        assert(s.last() != mark);
        assert forall|i: int| k < i < front.len() implies front[i] != mark by {
            assert(front[i] == s[i]);
        }
        lemma_last_position(front, mark, k);
    }
}

/// The last position lies within the text and holds the mark, and no later
/// position does.
pub proof fn lemma_last_position_bounds(s: Seq<char>, mark: char)
    ensures
        -1 <= last_position(s, mark) < s.len(),
        last_position(s, mark) >= 0 ==> s[last_position(s, mark)] == mark,
        forall|i: int| last_position(s, mark) < i < s.len() ==> s[i] != mark,
    decreases s.len(),
{
    if s.len() > 0 && s.last() != mark {
        let front = s.drop_last();
        lemma_last_position_bounds(front, mark);
        assert forall|i: int| last_position(s, mark) < i < s.len() implies s[i] != mark by {
            if i < front.len() {
                assert(front[i] == s[i]);
            }
        }
    }
}

/// What is kept of a path leads the path, and neither ends in `/` nor in a
/// `.` that follows a `/`.
pub proof fn lemma_without_trailing(path: Seq<char>)
    ensures
        without_trailing(path).is_prefix_of(path),
        without_trailing(path).len() > 0 ==> without_trailing(path).last() != '/',
        without_trailing(path).len() >= 2 && without_trailing(path).last() == '.'
            ==> without_trailing(path)[without_trailing(path).len() - 2] != '/',
    decreases path.len(),
{
    let kept = without_trailing(path);
    if (path.len() > 0 && path.last() == '/') || (path.len() >= 2 && path.last() == '.' && path[path.len()
        - 2] == '/') {
        let front = path.drop_last();
        lemma_without_trailing(front);
        assert(kept == without_trailing(front));
        assert(front.subrange(0, kept.len() as int) =~= path.subrange(0, kept.len() as int));
    } else {
        assert(path.subrange(0, path.len() as int) =~= path);
    }
}

/// The file name of a path is not empty and holds no `/`; and a text that is
/// not empty, holds no `/` and is neither `.` nor `..` is its own file name.
pub proof fn lemma_file_name(path: Seq<char>)
    ensures
        file_name_of(path) matches Some(name) ==> name.len() > 0 && forall|i: int|
            0 <= i < name.len() ==> name[i] != '/',
        path.len() > 0 && path != seq!['.'] && path != seq!['.', '.'] && (forall|i: int|
            0 <= i < path.len() ==> path[i] != '/') ==> file_name_of(path) == Some(path),
{
    let kept = without_trailing(path);
    lemma_last_position_bounds(kept, '/');
    let k = last_position(kept, '/');
    let name = final_component(path);
    assert forall|i: int| 0 <= i < name.len() implies name[i] != '/' by {
        assert(name[i] == kept[k + 1 + i]);
    }
    if path.len() > 0 && path != seq!['.'] && path != seq!['.', '.'] && (forall|i: int|
        0 <= i < path.len() ==> path[i] != '/') {
        assert(kept == path);
        assert(k == -1);
        assert(name =~= path);
    }
}

/// The number of characters of `chars` up to and with its last `mark`: the
/// position after that mark, or 0 where there is none.
pub fn after_last(chars: &Vec<char>, mark: char) -> (r: usize)
    ensures
        r == last_position(chars@, mark) + 1,
        r <= chars.len(),
{
    let n: usize = chars.len();
    let mut i: usize = n;
    while i > 0 && chars[i - 1] != mark
        invariant
            i <= n == chars.len(),
            forall|k: int| i <= k < n ==> chars@[k] != mark,
        decreases i,
    {
        i -= 1;
    }
    proof {
        lemma_last_position(chars@, mark, i - 1);
    }
    i
}

/// The characters of the file name of a path, where it names a file.
pub fn file_name_chars(path: &str) -> (r: Option<Vec<char>>)
    ensures
        match r {
            Some(name) => file_name_of(path@) == Some(name@),
            None => file_name_of(path@) is None,
        },
{
    let mut chars = to_chars(path);
    let ghost whole = chars@;
    let mut end: usize = chars.len();
    assert(whole.take(end as int) =~= whole);
    while end > 0 && (chars[end - 1] == '/' || (end >= 2 && chars[end - 1] == '.' && chars[end
        - 2] == '/'))
        invariant
            end <= chars.len(),
            chars@ == whole,
            without_trailing(whole) == without_trailing(whole.take(end as int)),
        decreases end,
    {
        assert(whole.take(end as int).drop_last() =~= whole.take(end - 1));
        end -= 1;
    }
    chars.truncate(end);
    assert(chars@ =~= whole.take(end as int));
    assert(without_trailing(chars@) == chars@);
    let start: usize = after_last(&chars, '/');
    let mut name: Vec<char> = Vec::new();
    let mut i: usize = start;
    while i < end
        invariant
            start <= i <= end == chars.len(),
            name@ == chars@.subrange(start as int, i as int),
        decreases end - i,
    {
        name.push(chars[i]);
        i += 1;
    }
    let n: usize = name.len();
    let dot: bool = n == 1 && name[0] == '.';
    let dots: bool = n == 2 && name[0] == '.' && name[1] == '.';
    assert(dot == (name@ =~= seq!['.']));
    assert(dots == (name@ =~= seq!['.', '.']));
    if n == 0 || dot || dots {
        None
    } else {
        Some(name)
    }
}

/// Adjoins `tail` to the path `base`.
pub fn join_path(base: &str, tail: &str) -> (r: String)
    ensures
        r@ == joined(base@, tail@),
{
    let head = to_chars(base);
    let rest = to_chars(tail);
    if rest.len() > 0 && rest[0] == '/' {
        return String::from_str(tail);
    }
    let mut r = String::from_str(base);
    if head.len() > 0 && head[head.len() - 1] != '/' {
        proof {
            reveal_strlit("/");
            assert("/"@ =~= seq!['/']);
        }
        r.append("/");
    }
    r.append(tail);
    r
}

} // verus!
