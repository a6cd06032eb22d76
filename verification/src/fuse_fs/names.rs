//! Remote paths: parents, children, and the names of directory entries.

use crate::text::{chars_of, join3, text_of};
use vstd::prelude::*;

verus! {

/// The position of the last `/` of `s`, -1 where there is none.
pub open spec fn last_slash(s: Seq<char>) -> int
    decreases s.len(),
{
    if s.len() == 0 {
        -1
    } else if s.last() == '/' {
        s.len() - 1
    } else {
        last_slash(s.drop_last())
    }
}

/// What follows the last `/`; all of `s` where there is none.
pub open spec fn basename_of(s: Seq<char>) -> Seq<char> {
    s.skip(last_slash(s) + 1)
}

/// What stands before the last `/`. The root is the empty path.
pub open spec fn parent_of(s: Seq<char>) -> Seq<char> {
    if last_slash(s) <= 0 {
        Seq::empty()
    } else {
        s.take(last_slash(s))
    }
}

/// `s` without the slashes at its end.
pub open spec fn without_end_slashes(s: Seq<char>) -> Seq<char>
    decreases s.len(),
{
    if s.len() > 0 && s.last() == '/' {
        without_end_slashes(s.drop_last())
    } else {
        s
    }
}

/// `s` without the slashes at its start.
pub open spec fn without_start_slashes(s: Seq<char>) -> Seq<char>
    decreases s.len(),
{
    if s.len() > 0 && s[0] == '/' {
        without_start_slashes(s.drop_first())
    } else {
        s
    }
}

/// The path of the entry `name` that is looked up in `parent`.
pub open spec fn entry_path(parent: Seq<char>, name: Seq<char>) -> Seq<char> {
    parent + "/"@ + name
}

/// The path of the entry `name` that is made, moved or removed in `parent`.
pub open spec fn child_of(parent: Seq<char>, name: Seq<char>) -> Seq<char> {
    without_end_slashes(parent) + "/"@ + name
}

/// `name` holds no slash, as the name of a directory entry does.
pub open spec fn plain_name(name: Seq<char>) -> bool {
    !name.contains('/')
}

proof fn lemma_last_slash_bounds(s: Seq<char>)
    ensures
        -1 <= last_slash(s) < s.len(),
        last_slash(s) >= 0 ==> s[last_slash(s)] == '/',
        forall|i: int| last_slash(s) < i < s.len() ==> s[i] != '/',
    decreases s.len(),
{
    if s.len() > 0 && s.last() != '/' {
        lemma_last_slash_bounds(s.drop_last());
        assert forall|i: int| last_slash(s) < i < s.len() implies s[i] != '/' by {
            if i < s.len() - 1 {
                assert(s.drop_last()[i] == s[i]);
            }
        }
    }
}

/// A position that holds a slash and has none after it is the last slash.
proof fn lemma_last_slash_is(s: Seq<char>, at: int)
    requires
        0 <= at < s.len(),
        s[at] == '/',
        forall|i: int| at < i < s.len() ==> s[i] != '/',
    ensures
        last_slash(s) == at,
{
    lemma_last_slash_bounds(s);
}

fn find_last_slash(v: &Vec<char>) -> (r: Option<usize>)
    ensures
        match r {
            Some(i) => i == last_slash(v@),
            None => last_slash(v@) == -1,
        },
{
    let mut n: usize = v.len();
    assert(v@.take(n as int) =~= v@);
    while n > 0
        invariant
            n <= v@.len(),
            last_slash(v@.take(n as int)) == last_slash(v@),
        decreases n,
    {
        if v[n - 1] == '/' {
            return Some(n - 1);
        }
        assert(v@.take(n as int).drop_last() =~= v@.take(n - 1));
        n = n - 1;
    }
    None
}

/// What follows the last `/` of a path.
pub fn basename(path: &str) -> (r: String)
    ensures
        r@ == basename_of(path@),
{
    let v = chars_of(path);
    proof {
        lemma_last_slash_bounds(path@);
    }
    let from: usize = match find_last_slash(&v) {
        Some(i) => i + 1,
        None => 0,
    };
    let r = text_of(&v, from, v.len());
    assert(r@ =~= basename_of(path@));
    r
}

/// The path of the directory that holds `child`: the empty path for what
/// stands in the root.
pub fn parent_prefix(child: &str) -> (r: String)
    ensures
        r@ == parent_of(child@),
{
    let v = chars_of(child);
    proof {
        lemma_last_slash_bounds(child@);
    }
    let to: usize = match find_last_slash(&v) {
        Some(i) => i,
        None => 0,
    };
    let r = text_of(&v, 0, to);
    assert(r@ =~= parent_of(child@));
    r
}

/// `s` without the slashes at its end.
pub fn trim_end_slashes(s: &str) -> (r: String)
    ensures
        r@ == without_end_slashes(s@),
{
    let v = chars_of(s);
    let mut n: usize = v.len();
    assert(v@.take(n as int) =~= v@);
    while n > 0 && v[n - 1] == '/'
        invariant
            n <= v@.len(),
            without_end_slashes(v@.take(n as int)) == without_end_slashes(v@),
        decreases n,
    {
        assert(v@.take(n as int).drop_last() =~= v@.take(n - 1));
        n = n - 1;
    }
    assert(v@.subrange(0, n as int) =~= v@.take(n as int));
    text_of(&v, 0, n)
}

/// `s` without the slashes at its start.
pub fn trim_start_slashes(s: &str) -> (r: String)
    ensures
        r@ == without_start_slashes(s@),
{
    let v = chars_of(s);
    let mut n: usize = 0;
    assert(v@.skip(0) =~= v@);
    while n < v.len() && v[n] == '/'
        invariant
            n <= v@.len(),
            without_start_slashes(v@.skip(n as int)) == without_start_slashes(v@),
        decreases v@.len() - n,
    {
        assert(v@.skip(n as int).drop_first() =~= v@.skip(n + 1));
        n = n + 1;
    }
    assert(v@.subrange(n as int, v@.len() as int) =~= v@.skip(n as int));
    text_of(&v, n, v.len())
}

/// The path of the entry `name` of `parent`, as it is looked up.
pub fn join_entry(parent: &str, name: &str) -> (r: String)
    ensures
        r@ == entry_path(parent@, name@),
{
    join3(parent, "/", name)
}

/// The path of the entry `name` of `parent`, as it is made, moved or removed.
pub fn join_child(parent: &str, name: &str) -> (r: String)
    ensures
        r@ == child_of(parent@, name@),
{
    let trimmed = trim_end_slashes(parent);
    join3(trimmed.as_str(), "/", name)
}

/// An entry's path leads back to its directory and to its name.
pub proof fn entry_path_splits(parent: Seq<char>, name: Seq<char>)
    requires
        plain_name(name),
    ensures
        parent_of(entry_path(parent, name)) == parent,
        basename_of(entry_path(parent, name)) == name,
{
    reveal_strlit("/");
    let path = entry_path(parent, name);
    assert forall|i: int| parent.len() < i < path.len() implies path[i] != '/' by {
        assert(path[i] == name[i - parent.len() - 1]);
        assert(name.contains(name[i - parent.len() - 1]));
    }
    assert(path[parent.len() as int] == '/');
    lemma_last_slash_is(path, parent.len() as int);
    assert(parent_of(path) =~= parent);
    assert(basename_of(path) =~= name);
}

/// A directory path that does not end in a slash names the same child for a
/// lookup as for a change.
pub proof fn child_paths_agree(parent: Seq<char>, name: Seq<char>)
    requires
        parent.len() > 0 ==> parent.last() != '/',
    ensures
        child_of(parent, name) == entry_path(parent, name),
{
}

/// A path with a slash is its parent, a slash and its last part, which holds no
/// slash. A path without one stands in the root.
pub proof fn path_is_parent_and_name(s: Seq<char>)
    ensures
        !basename_of(s).contains('/'),
        s.contains('/') ==> s == parent_of(s) + seq!['/'] + basename_of(s),
        !s.contains('/') ==> basename_of(s) == s && parent_of(s).len() == 0,
{
    lemma_last_slash_bounds(s);
    let at = last_slash(s);
    let name = basename_of(s);
    if name.contains('/') {
        let i = choose|i: int| 0 <= i < name.len() && name[i] == '/';
        assert(s[at + 1 + i] == '/');
    }
    if s.contains('/') {
        let i = choose|i: int| 0 <= i < s.len() && s[i] == '/';
        assert(at >= i);
        assert(s =~= parent_of(s) + seq!['/'] + name);
    } else {
        assert(at >= 0 ==> s.contains(s[at]));
        assert(name =~= s);
    }
}

/// All slashes at the end of a path are dropped, and nothing else is.
pub proof fn only_end_slashes_are_dropped(s: Seq<char>)
    ensures
        ({
            let r = without_end_slashes(s);
            &&& r.len() <= s.len()
            &&& r == s.take(r.len() as int)
            &&& forall|i: int| r.len() <= i < s.len() ==> s[i] == '/'
            &&& r.len() > 0 ==> r.last() != '/'
        }),
    decreases s.len(),
{
    let r = without_end_slashes(s);
    if s.len() > 0 && s.last() == '/' {
        let rest = s.drop_last();
        only_end_slashes_are_dropped(rest);
        assert(r =~= s.take(r.len() as int));
        assert forall|i: int| r.len() <= i < s.len() implies s[i] == '/' by {
            if i < rest.len() {
                assert(rest[i] == s[i]);
            }
        }
    } else {
        assert(s.take(s.len() as int) =~= s);
    }
}

/// All slashes at the start of a path are dropped, and nothing else is.
pub proof fn only_start_slashes_are_dropped(s: Seq<char>)
    ensures
        ({
            let r = without_start_slashes(s);
            let n = s.len() - r.len();
            &&& n >= 0
            &&& r == s.skip(n)
            &&& forall|i: int| 0 <= i < n ==> s[i] == '/'
            &&& r.len() > 0 ==> r[0] != '/'
        }),
    decreases s.len(),
{
    let r = without_start_slashes(s);
    let n = s.len() - r.len();
    if s.len() > 0 && s[0] == '/' {
        let rest = s.drop_first();
        only_start_slashes_are_dropped(rest);
        assert(r =~= s.skip(n));
        assert forall|i: int| 0 <= i < n implies s[i] == '/' by {
            if i > 0 {
                assert(rest[i - 1] == s[i]);
            }
        }
    } else {
        assert(s.skip(0) =~= s);
    }
}

/// The path of an entry is that of its directory, a slash and its name; a
/// directory path that ends in slashes loses them where something is made,
/// moved or removed in it.
pub proof fn entries_stand_behind_a_slash(parent: Seq<char>, slashes: nat, name: Seq<char>)
    requires
        parent.len() > 0 ==> parent.last() != '/',
    ensures
        entry_path(parent, name) == parent + seq!['/'] + name,
        child_of(parent + Seq::new(slashes, |i: int| '/'), name) == parent + seq!['/'] + name,
{
    reveal_strlit("/");
    assert("/"@ =~= seq!['/']);
    let long = parent + Seq::new(slashes, |i: int| '/');
    let r = without_end_slashes(long);
    only_end_slashes_are_dropped(long);
    if r.len() < parent.len() {
        assert(long[parent.len() - 1] == parent.last());
    }
    if r.len() > parent.len() {
        assert(r.last() == long[r.len() - 1]);
    }
    assert(r =~= parent);
}

}
