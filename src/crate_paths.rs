//! The rules of the walk that finds the manifests of the workspace's crates:
//! which directories it leaves out and which files it records.
use vstd::prelude::*;

verus! {

/// `name` ends with `suffix`.
pub open spec fn has_suffix(name: Seq<char>, suffix: Seq<char>) -> bool {
    suffix.len() <= name.len() && name.subrange(name.len() - suffix.len(), name.len() as int)
        == suffix
}

/// Whether a file named `name` is one the walk records: its name ends with
/// `target`.
pub fn is_target_file(name: &str, target: &str) -> (r: bool)
    ensures
        r == has_suffix(name@, target@),
{
    let n = name.unicode_len();
    let t = target.unicode_len();
    if t > n {
        return false;
    }
    let offset = n - t;
    let mut i: usize = 0;
    while i < t
        invariant
            n == name@.len(),
            t == target@.len(),
            offset == n - t,
            i <= t,
            forall|j: int| 0 <= j < i ==> name@[offset + j] == target@[j],
        decreases t - i,
    {
        if name.get_char(offset + i) != target.get_char(i) {
            assert(name@.subrange(offset as int, n as int)[i as int] != target@[i as int]);
            return false;
        }
        i = i + 1;
    }
    assert(name@.subrange(offset as int, n as int) =~= target@);
    true
}

/// Whether a directory named `name` is left out of the walk: it is one of
/// `ignore_dir`.
pub fn is_ignored_dir(name: &str, ignore_dir: &Vec<String>) -> (r: bool)
    ensures
        r == exists|i: int| 0 <= i < ignore_dir@.len() && (#[trigger] ignore_dir@[i])@ == name@,
{
    let owned = name.to_owned();
    let mut i: usize = 0;
    while i < ignore_dir.len()
        invariant
            i <= ignore_dir@.len(),
            owned@ == name@,
            forall|j: int| 0 <= j < i ==> (#[trigger] ignore_dir@[j])@ != name@,
        decreases ignore_dir@.len() - i,
    {
        if ignore_dir[i] == owned {
            return true;
        }
        i = i + 1;
    }
    false
}

} // verus!
