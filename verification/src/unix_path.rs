//! Paths of the local file system, which are bytes.

use vstd::prelude::*;
use vstd::utf8::{decode_utf8, valid_utf8};

verus! {

/// The byte of `/`.
pub const SLASH: u8 = 47;

/// The byte of `.`.
pub const DOT: u8 = 46;

/// The path below `root` that `rel`, which does not start with a slash, names.
pub open spec fn joined(root: Seq<u8>, rel: Seq<u8>) -> Seq<u8> {
    if root.len() == 0 || root.last() == SLASH {
        root + rel
    } else {
        root.push(SLASH) + rel
    }
}

/// The bytes of `a` and then those of `b`.
pub fn concat(a: &[u8], b: &[u8]) -> (r: Vec<u8>)
    ensures
        r@ == a@ + b@,
{
    let mut r: Vec<u8> = Vec::new();
    let mut i: usize = 0;
    while i < a.len()
        invariant
            i <= a@.len(),
            r@ == a@.take(i as int),
        decreases a@.len() - i,
    {
        r.push(a[i]);
        i = i + 1;
        assert(a@.take(i as int) =~= a@.take(i - 1).push(a@[i - 1]));
    }
    assert(a@.take(a@.len() as int) =~= a@);
    let mut j: usize = 0;
    assert(b@.take(0) =~= Seq::empty());
    while j < b.len()
        invariant
            j <= b@.len(),
            r@ == a@ + b@.take(j as int),
        decreases b@.len() - j,
    {
        r.push(b[j]);
        j = j + 1;
        assert(a@ + b@.take(j as int) =~= (a@ + b@.take(j - 1)).push(b@[j - 1]));
    }
    assert(b@.take(b@.len() as int) =~= b@);
    r
}

/// The path below `root` that `rel`, which does not start with a slash, names.
pub fn join_path(root: &[u8], rel: &[u8]) -> (r: Vec<u8>)
    ensures
        r@ == joined(root@, rel@),
{
    if root.len() == 0 || root[root.len() - 1] == SLASH {
        concat(root, rel)
    } else {
        let mut start = concat(root, &[]);
        start.push(SLASH);
        assert(start@ =~= root@.push(SLASH));
        concat(start.as_slice(), rel)
    }
}

/// `path` is `root` or lies below it. Both are canonical: absolute, without
/// empty parts, `.` or `..`.
pub open spec fn below(root: Seq<u8>, path: Seq<u8>) -> bool {
    &&& root.len() <= path.len()
    &&& path.take(root.len() as int) == root
    &&& root.len() == path.len() || root.len() > 0 && root.last() == SLASH
        || path[root.len() as int] == SLASH
}

/// What is left of a path below `root` without `root` and the slash after it.
pub open spec fn relative(root: Seq<u8>, path: Seq<u8>) -> Seq<u8> {
    if root.len() == path.len() {
        Seq::empty()
    } else if root.len() > 0 && root.last() == SLASH {
        path.skip(root.len() as int)
    } else {
        path.skip(root.len() as int + 1)
    }
}

/// `path` starts at the root of the file system.
pub open spec fn absolute(path: Seq<u8>) -> bool {
    path.len() > 0 && path[0] == SLASH
}

/// `..` is the part of `path` that begins at `i`.
pub open spec fn parent_part_at(path: Seq<u8>, i: int) -> bool {
    &&& 0 <= i
    &&& i + 2 <= path.len()
    &&& path[i] == DOT
    &&& path[i + 1] == DOT
    &&& i == 0 || path[i - 1] == SLASH
    &&& i + 2 == path.len() || path[i + 2] == SLASH
}

/// `..` is one of the parts of `path`.
pub open spec fn has_parent_part(path: Seq<u8>) -> bool {
    exists|i: int| parent_part_at(path, i)
}

/// The text of bytes, in which what is no UTF-8 is replaced.
pub uninterp spec fn lossy(bytes: Seq<u8>) -> Seq<char>;

/// `String::from_utf8_lossy`: the text that the bytes encode; what is no UTF-8
/// is replaced.
#[verifier::external_body]
pub(crate) fn lossy_text(bytes: &[u8]) -> (r: String)
    ensures
        r@ == lossy(bytes@),
        valid_utf8(bytes@) ==> r@ == decode_utf8(bytes@),
{
    String::from_utf8_lossy(bytes).into_owned()
}

/// Whether `path` is `root` or lies below it.
pub fn is_below(root: &[u8], path: &[u8]) -> (r: bool)
    ensures
        r == below(root@, path@),
{
    if root.len() > path.len() {
        return false;
    }
    let mut i: usize = 0;
    while i < root.len()
        invariant
            i <= root@.len() <= path@.len(),
            path@.take(i as int) == root@.take(i as int),
        decreases root@.len() - i,
    {
        if path[i] != root[i] {
            assert(path@.take(root@.len() as int)[i as int] != root@[i as int]);
            return false;
        }
        i = i + 1;
        assert(path@.take(i as int) =~= path@.take(i - 1).push(path@[i - 1]));
        assert(root@.take(i as int) =~= root@.take(i - 1).push(root@[i - 1]));
    }
    assert(root@.take(root@.len() as int) =~= root@);
    root.len() == path.len() || root.len() > 0 && root[root.len() - 1] == SLASH || path[root.len()]
        == SLASH
}

/// What is left of a path below `root` without `root` and the slash after it.
pub fn strip_root(root: &[u8], path: &[u8]) -> (r: Vec<u8>)
    requires
        below(root@, path@),
    ensures
        r@ == relative(root@, path@),
{
    let from: usize = if root.len() == path.len() || root.len() > 0 && root[root.len() - 1]
        == SLASH {
        root.len()
    } else {
        root.len() + 1
    };
    let mut r: Vec<u8> = Vec::new();
    let mut i: usize = from;
    while i < path.len()
        invariant
            from <= i <= path@.len(),
            r@ == path@.subrange(from as int, i as int),
        decreases path@.len() - i,
    {
        r.push(path[i]);
        i = i + 1;
        assert(path@.subrange(from as int, i as int) =~= path@.subrange(from as int, i - 1).push(
            path@[i - 1],
        ));
    }
    assert(r@ =~= relative(root@, path@));
    r
}

/// Whether `path` starts at the root of the file system.
pub fn is_absolute(path: &[u8]) -> (r: bool)
    ensures
        r == absolute(path@),
{
    path.len() > 0 && path[0] == SLASH
}

/// Whether `..` is one of the parts of `path`.
pub fn names_parent(path: &[u8]) -> (r: bool)
    ensures
        r == has_parent_part(path@),
{
    let n: usize = path.len();
    let mut i: usize = 0;
    while i < n
        invariant
            i <= n == path@.len(),
            forall|j: int| 0 <= j < i ==> !parent_part_at(path@, j),
        decreases n - i,
    {
        if n - i >= 2 && path[i] == DOT && path[i + 1] == DOT && (i == 0 || path[i - 1] == SLASH)
            && (n - i == 2 || path[i + 2] == SLASH) {
            assert(parent_part_at(path@, i as int));
            return true;
        }
        i = i + 1;
    }
    false
}

/// What is joined below a root lies below it, and leads back to what was
/// joined.
pub proof fn joined_is_below(root: Seq<u8>, rel: Seq<u8>)
    requires
        root.len() > 0,
        rel.len() > 0,
    ensures
        below(root, joined(root, rel)),
        relative(root, joined(root, rel)) == rel,
{
    let path = joined(root, rel);
    assert(path.take(root.len() as int) =~= root);
    assert(relative(root, path) =~= rel);
}

/// Two paths are joined by exactly one slash: the one that ends the first, or
/// one that is put between them.
pub proof fn joined_by_one_slash(root: Seq<u8>, rel: Seq<u8>)
    ensures
        root.len() > 0 && root.last() != 47u8 ==> joined(root, rel) == root + seq![47u8] + rel,
        root.len() > 0 && root.last() == 47u8 ==> joined(root, rel) == root + rel,
        root.len() == 0 ==> joined(root, rel) == rel,
{
    if root.len() > 0 && root.last() != 47u8 {
        assert(joined(root, rel) =~= root + seq![47u8] + rel);
    } else if root.len() == 0 {
        assert(joined(root, rel) =~= rel);
    }
}

/// What lies below a root is the root itself, or the root followed by a slash
/// and something, which is what is left of it without the root. A path that
/// only begins with the same letters does not lie below it.
pub proof fn below_means_whole_parts(root: Seq<u8>, path: Seq<u8>)
    requires
        root.len() > 0,
        root.last() != 47u8,
    ensures
        below(root, path) <==> path == root || path.len() > root.len() && path.take(
            root.len() as int,
        ) == root && path[root.len() as int] == 47u8,
        path == root ==> relative(root, path).len() == 0,
        below(root, path) && path != root ==> path == root + seq![47u8] + relative(root, path),
{
    if path.len() == root.len() {
        assert(path.take(root.len() as int) =~= path);
    }
    if below(root, path) && path != root {
        assert(path =~= path.take(root.len() as int) + seq![47u8] + path.skip(
            root.len() as int + 1,
        ));
    }
}

/// Below the root of the file system lies every absolute path, and what is left
/// of it is what follows the first slash.
pub proof fn all_lies_below_the_top(path: Seq<u8>)
    ensures
        below(seq![47u8], path) <==> path.len() > 0 && path[0] == 47u8,
        below(seq![47u8], path) ==> relative(seq![47u8], path) == path.skip(1),
{
    if path.len() > 0 {
        assert(path.take(1) =~= seq![path[0]]);
        assert(path.take(1)[0] == path[0]);
    }
    if below(seq![47u8], path) {
        assert(path.take(1)[0] == seq![47u8][0]);
        assert(relative(seq![47u8], path) =~= path.skip(1));
    }
}

/// A path names a parent exactly if two dots stand in it alone between slashes,
/// or between a slash and an end.
pub proof fn parent_parts_stand_alone(path: Seq<u8>)
    ensures
        has_parent_part(path) <==> exists|a: Seq<u8>, b: Seq<u8>| #[trigger]
            (a.push(46u8).push(46u8) + b) == path && (a.len() == 0 || a.last() == 47u8) && (b.len()
                == 0 || b[0] == 47u8),
{
    if has_parent_part(path) {
        let i = choose|i: int| parent_part_at(path, i);
        let a = path.take(i);
        let b = path.skip(i + 2);
        assert(a.push(46u8).push(46u8) + b =~= path);
    }
    if exists|a: Seq<u8>, b: Seq<u8>| #[trigger]
        (a.push(46u8).push(46u8) + b) == path && (a.len() == 0 || a.last() == 47u8) && (b.len() == 0
            || b[0] == 47u8) {
        let (a, b) = choose|a: Seq<u8>, b: Seq<u8>| #[trigger]
            (a.push(46u8).push(46u8) + b) == path && (a.len() == 0 || a.last() == 47u8) && (b.len()
                == 0 || b[0] == 47u8);
        let i = a.len() as int;
        assert(path[i] == 46u8 && path[i + 1] == 46u8);
        assert(i > 0 ==> path[i - 1] == a.last());
        assert(b.len() > 0 ==> path[i + 2] == b[0]);
        assert(parent_part_at(path, i));
    }
}

}
