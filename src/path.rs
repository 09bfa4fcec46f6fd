use vstd::prelude::*;
use vstd::string::StringExecFns;

use crate::registry::root_path;

verus! {

/// The path of the entry `name` inside the directory `parent`.
pub open spec fn joined(parent: Seq<char>, name: Seq<char>) -> Seq<char> {
    if parent == root_path() {
        root_path() + name
    } else {
        parent + seq!['/'] + name
    }
}

/// Within one directory, different names give different paths, and a
/// non-empty name never gives the root.
pub proof fn lemma_joined_injective(parent: Seq<char>, a: Seq<char>, b: Seq<char>)
    ensures
        joined(parent, a) == joined(parent, b) ==> a == b,
        a.len() > 0 ==> joined(parent, a) != root_path(),
{
    let pre = if parent == root_path() {
        root_path()
    } else {
        parent + seq!['/']
    };
    assert(joined(parent, a) =~= pre + a);
    assert(joined(parent, b) =~= pre + b);
    if joined(parent, a) == joined(parent, b) {
        assert(a =~= (pre + a).subrange(pre.len() as int, (pre + a).len() as int));
        assert(b =~= (pre + b).subrange(pre.len() as int, (pre + b).len() as int));
    }
    if a.len() > 0 {
        assert((pre + a).len() >= 2);
    }
}

/// The path of the entry `name` inside the directory `parent`, with no
/// doubled separator under the root.
pub fn child_path(parent: &String, name: &str) -> (r: String)
    ensures
        r@ == joined(parent@, name@),
{
    let root = String::from_str("/");
    proof {
        reveal_strlit("/");
        assert("/"@ =~= root_path());
    }
    if *parent == root {
        let mut r = root;
        r.append(name);
        assert(parent@ == root_path());
        r
    } else {
        assert(parent@ != root_path());
        let mut r = parent.clone();
        r.append("/");
        r.append(name);
        proof {
            assert(r@ =~= parent@ + seq!['/'] + name@);
        }
        r
    }
}

} // verus!
