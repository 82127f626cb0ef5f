use vstd::prelude::*;
use vstd::string::*;

verus! {

/// The length of the suffix that the name of an item declared inside a
/// function adds to the path of that function: two colons and one letter.
pub const ITEM_SUFFIX: usize = 3;

/// Where the last `::` that lies wholly before `end` begins, or -1 if there
/// is none.
pub open spec fn last_separator(path: Seq<char>, end: int) -> int
    decreases end,
{
    if end < 2 {
        -1
    } else if path[end - 2] == ':' && path[end - 1] == ':' {
        end - 2
    } else {
        last_separator(path, end - 1)
    }
}

/// Where a path ends after `skip` of its last segments are taken away, each
/// with the `::` before it; -1 if the path before `end` has fewer than `skip`
/// separators.
pub open spec fn end_without(path: Seq<char>, end: int, skip: nat) -> int
    decreases skip,
{
    if skip == 0 {
        end
    } else {
        let at = last_separator(path, end);
        if at < 0 {
            -1
        } else {
            end_without(path, at, (skip - 1) as nat)
        }
    }
}

/// The path of the function in which an item of the given name is
/// declared: the name without its last three characters.
pub open spec fn caller_path(item: Seq<char>) -> Seq<char> {
    item.take(item.len() - ITEM_SUFFIX)
}

/// The path of the caller without its last `skip` segments; the whole path
/// where it has fewer than `skip` separators.
pub open spec fn caller_path_skip(item: Seq<char>, skip: nat) -> Seq<char> {
    let path = caller_path(item);
    let end = end_without(path, path.len() as int, skip);
    if end < 0 {
        path
    } else {
        path.take(end)
    }
}

/// Where the last colon before `end` stands, or -1 if there is none.
pub open spec fn last_colon(path: Seq<char>, end: int) -> int
    decreases end,
{
    if end < 1 {
        -1
    } else if path[end - 1] == ':' {
        end - 1
    } else {
        last_colon(path, end - 1)
    }
}

/// The name of the caller: what follows the last colon of its path, and the
/// whole path where it has no colon.
pub open spec fn caller_name(item: Seq<char>) -> Seq<char> {
    let path = caller_path(item);
    path.skip(last_colon(path, path.len() as int) + 1)
}

/// Finds the last `::` that lies wholly before `end`.
fn find_separator(path: &str, end: usize) -> (at: Option<usize>)
    requires
        end <= path@.len(),
    ensures
        match at {
            Some(p) => p == last_separator(path@, end as int) && p + 2 <= end,
            None => last_separator(path@, end as int) == -1,
        },
{
    let mut e: usize = end;
    while e >= 2
        invariant
            e <= end <= path@.len(),
            last_separator(path@, e as int) == last_separator(path@, end as int),
        decreases e,
    {
        if path.get_char(e - 2) == ':' && path.get_char(e - 1) == ':' {
            return Some(e - 2);
        }
        e -= 1;
    }
    None
}

/// Finds the last colon before `end`.
fn find_colon(path: &str, end: usize) -> (at: Option<usize>)
    requires
        end <= path@.len(),
    ensures
        match at {
            Some(p) => p == last_colon(path@, end as int) && p < end,
            None => last_colon(path@, end as int) == -1,
        },
{
    let mut e: usize = end;
    while e >= 1
        invariant
            e <= end <= path@.len(),
            last_colon(path@, e as int) == last_colon(path@, end as int),
        decreases e,
    {
        if path.get_char(e - 1) == ':' {
            return Some(e - 1);
        }
        e -= 1;
    }
    None
}

/// The path of the function in which an item of the given name is
/// declared, such as `app::handler` for `app::handler::f`.
pub fn caller(item: &str) -> (path: &str)
    requires
        item@.len() >= ITEM_SUFFIX,
    ensures
        path@ == caller_path(item@),
{
    let n = item.unicode_len();
    item.substring_char(0, n - ITEM_SUFFIX)
}

/// The path of the caller without its last `skip` segments, such as `app`
/// for `app::handler::f` and a `skip` of 1. A path with fewer than `skip`
/// separators is returned whole, and so is every path for a `skip` of 0.
pub fn caller_skip(item: &str, skip: usize) -> (path: &str)
    requires
        item@.len() >= ITEM_SUFFIX,
    ensures
        path@ == caller_path_skip(item@, skip as nat),
{
    let name = caller(item);
    let n = name.unicode_len();
    let mut end: usize = n;
    let mut left: usize = skip;
    while left > 0
        invariant
            name@ == caller_path(item@),
            n == name@.len(),
            end <= n,
            end_without(name@, end as int, left as nat) == end_without(
                name@,
                n as int,
                skip as nat,
            ),
        decreases left,
    {
        match find_separator(name, end) {
            None => {
                return name;
            },
            Some(at) => {
                end = at;
            },
        }
        left -= 1;
    }
    let path = name.substring_char(0, end);
    assert(path@ =~= name@.take(end as int));
    path
}

/// The name of the caller, such as `handler` for `app::handler::f`.
pub fn fn_name(item: &str) -> (name: &str)
    requires
        item@.len() >= ITEM_SUFFIX,
    ensures
        name@ == caller_name(item@),
{
    let path = caller(item);
    let n = path.unicode_len();
    let start = match find_colon(path, n) {
        Some(at) => at + 1,
        None => 0,
    };
    let name = path.substring_char(start, n);
    assert(name@ =~= path@.skip(start as int));
    name
}

} // verus!
