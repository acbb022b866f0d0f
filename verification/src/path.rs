//! Paths as text: a directory and the base name of one of its entries.

use vstd::prelude::*;
use vstd::string::*;

verus! {

/// The character that parts a directory from what lies in it.
pub open spec fn separator() -> char {
    '/'
}

/// What stands before the base name of an entry of `dir`: nothing for the
/// empty path (the working directory), else `dir` closed by one separator.
pub open spec fn dir_prefix(dir: Seq<char>) -> Seq<char> {
    if dir.len() == 0 {
        dir
    } else if dir.last() == separator() {
        dir
    } else {
        dir.push(separator())
    }
}

/// The path of the entry `name` of the directory `dir`.
pub open spec fn joined(dir: Seq<char>, name: Seq<char>) -> Seq<char> {
    dir_prefix(dir) + name
}

/// Two entries of one directory have the same path only if they have the same name.
pub proof fn lemma_joined_names_differ(dir: Seq<char>, a: Seq<char>, b: Seq<char>)
    requires
        joined(dir, a) == joined(dir, b),
    ensures
        a == b,
{
    let p = dir_prefix(dir);
    assert((p + a).len() == p.len() + a.len());
    assert((p + b).len() == p.len() + b.len());
    assert forall|i: int| 0 <= i < a.len() implies a[i] == b[i] by {
        assert((p + a)[p.len() + i] == a[i]);
        assert((p + b)[p.len() + i] == b[i]);
    }
    assert(a =~= b);
}

/// The path of the entry `name` of the directory `dir`, as text.
pub fn join(dir: &str, name: &str) -> (path: String)
    ensures
        path@ == joined(dir@, name@),
{
    let n: usize = dir.unicode_len();
    if n == 0 {
        assert(dir@ + name@ =~= name@);
        String::from_str(name)
    } else if dir.get_char(n - 1) == '/' {
        String::from_str(dir).concat(name)
    } else {
        proof {
            reveal_strlit("/");
            assert("/"@ =~= seq![separator()]);
            assert(dir@ + "/"@ =~= dir@.push(separator()));
        }
        String::from_str(dir).concat("/").concat(name)
    }
}

} // verus!
