//! Paths as text: components separated by `/`, as on the hosts that a run
//! talks to.

use vstd::prelude::*;

verus! {

/// A path is absolute when it starts at the root.
pub open spec fn is_absolute(path: Seq<char>) -> bool {
    path.len() > 0 && path[0] == '/'
}

/// `tail` put below `base`: the two with one `/` between them, unless `base`
/// is empty or already ends in one.
pub open spec fn appended(base: Seq<char>, tail: Seq<char>) -> Seq<char> {
    if base.len() == 0 || base.last() == '/' {
        base + tail
    } else {
        base + seq!['/'] + tail
    }
}

/// The position of the last `/` in `path`, or -1 when it has none.
pub open spec fn last_slash(path: Seq<char>) -> int
    decreases path.len(),
{
    if path.len() == 0 {
        -1
    } else if path.last() == '/' {
        path.len() - 1
    } else {
        last_slash(path.drop_last())
    }
}

/// A component that names nothing: the empty one left by a doubled or
/// trailing `/`, and `.`.
pub open spec fn is_blank(component: Seq<char>) -> bool {
    component.len() == 0 || component == seq!['.']
}

/// The final component of `path`, if it names something: blank components at
/// the end are passed over, and a path that ends in `..` has no name.
pub open spec fn base_name(path: Seq<char>) -> Option<Seq<char>>
    decreases path.len(),
{
    let slash = last_slash(path);
    let component = path.subrange(slash + 1, path.len() as int);
    if is_blank(component) {
        if 0 <= slash < path.len() {
            base_name(path.subrange(0, slash))
        } else {
            None
        }
    } else if component == seq!['.', '.'] {
        None
    } else {
        Some(component)
    }
}

/// The last `/` of a path stands just before a final stretch without one.
pub proof fn lemma_last_slash(path: Seq<char>, start: int)
    requires
        0 <= start <= path.len(),
        start > 0 ==> path[start - 1] == '/',
        forall|k: int| start <= k < path.len() ==> path[k] != '/',
    ensures
        last_slash(path) == start - 1,
    decreases path.len() - start,
{
    if start < path.len() {
        lemma_last_slash(path.drop_last(), start);
    }
}

/// The position that `last_slash` gives is -1 or that of a `/`, and no `/`
/// comes after it.
pub proof fn lemma_last_slash_is_last(path: Seq<char>)
    ensures
        -1 <= last_slash(path) < path.len(),
        last_slash(path) >= 0 ==> path[last_slash(path)] == '/',
        forall|k: int| last_slash(path) < k < path.len() ==> path[k] != '/',
    decreases path.len(),
{
    if path.len() > 0 && path.last() != '/' {
        lemma_last_slash_is_last(path.drop_last());
        assert forall|k: int| last_slash(path) < k < path.len() implies path[k] != '/' by {
            if k < path.len() - 1 {
                assert(path[k] == path.drop_last()[k]);
            }
        }
    }
}

/// A base name is one component that names something: it is not empty, holds
/// no `/`, and is neither `.` nor `..`.
pub proof fn lemma_base_name_is_component(path: Seq<char>)
    ensures
        base_name(path) matches Some(name) ==> name.len() > 0 && !name.contains('/') && name
            != seq!['.'] && name != seq!['.', '.'] && !is_absolute(name),
    decreases path.len(),
{
    lemma_last_slash_is_last(path);
    let slash = last_slash(path);
    let component = path.subrange(slash + 1, path.len() as int);
    if is_blank(component) {
        if 0 <= slash < path.len() {
            lemma_base_name_is_component(path.subrange(0, slash));
        }
    } else if component != seq!['.', '.'] {
        assert forall|k: int| 0 <= k < component.len() implies component[k] != '/' by {
            assert(component[k] == path[slash + 1 + k]);
        }
    }
}

/// What is put below a base starts with the base and ends with what was put
/// there.
pub proof fn lemma_appended_below(base: Seq<char>, tail: Seq<char>)
    ensures
        base.is_prefix_of(appended(base, tail)),
        tail.is_suffix_of(appended(base, tail)),
{
    let whole = appended(base, tail);
    assert(whole.subrange(0, base.len() as int) == base);
    assert(whole.subrange(whole.len() - tail.len(), whole.len() as int) == tail);
}

/// Whether `path` starts at the root.
pub fn path_is_absolute(path: &str) -> (absolute: bool)
    ensures
        absolute == is_absolute(path@),
{
    path.unicode_len() > 0 && path.get_char(0) == '/'
}

/// Puts `tail` below `base`.
pub fn append_path(base: &str, tail: &str) -> (path: String)
    ensures
        path@ == appended(base@, tail@),
{
    let n = base.unicode_len();
    let mut path = String::from_str(base);
    if n > 0 && base.get_char(n - 1) != '/' {
        proof {
            reveal_strlit("/");
        }
        path.append("/");
        assert("/"@ == seq!['/']);
    }
    path.append(tail);
    path
}

/// The final component of `path`, if it names something.
pub fn file_name(path: &str) -> (name: Option<String>)
    ensures
        match name {
            Some(text) => base_name(path@) == Some(text@),
            None => base_name(path@) is None,
        },
{
    let mut end: usize = path.unicode_len();
    assert(path@.subrange(0, end as int) == path@);
    loop
        invariant
            end <= path@.len(),
            base_name(path@) == base_name(path@.subrange(0, end as int)),
        decreases end,
    {
        let ghost head = path@.subrange(0, end as int);
        let mut start: usize = end;
        while start > 0 && path.get_char(start - 1) != '/'
            invariant
                start <= end <= path@.len(),
                forall|k: int| start <= k < end ==> path@[k] != '/',
            decreases start,
        {
            start -= 1;
        }
        proof {
            lemma_last_slash(head, start as int);
            assert(head.subrange(start as int, end as int) == path@.subrange(
                start as int,
                end as int,
            ));
        }
        let length: usize = end - start;
        let blank = length == 0 || (length == 1 && path.get_char(start) == '.');
        proof {
            let component = path@.subrange(start as int, end as int);
            if length == 1 && path@[start as int] == '.' {
                assert(component == seq!['.']);
            }
            if blank == false && length == 1 {
                assert(component[0] != '.');
            }
        }
        if blank {
            if start == 0 {
                return None;
            }
            proof {
                assert(head.subrange(0, start - 1) == path@.subrange(0, start - 1));
            }
            end = start - 1;
        } else {
            let parent = length == 2 && path.get_char(start) == '.' && path.get_char(start + 1)
                == '.';
            proof {
                let component = path@.subrange(start as int, end as int);
                if parent {
                    assert(component == seq!['.', '.']);
                } else if length == 2 {
                    assert(component[0] != '.' || component[1] != '.');
                }
            }
            if parent {
                return None;
            }
            let component = path.substring_char(start, end);
            return Some(String::from_str(component));
        }
    }
}

} // verus!
