//! Validation of a project folder name: non-empty, no path separators, and
//! not one of the two relative directory names.

use vstd::prelude::*;

verus! {

pub open spec fn valid_project_name_spec(n: Seq<char>) -> bool {
    n.len() > 0 && !n.contains('/') && !n.contains('\\') && !(n.len() == 1 && n[0] == '.') && !(
    n.len() == 2 && n[0] == '.' && n[1] == '.')
}

/// Accept a name for a new project folder.
pub fn validate_project_name(name: &str) -> (ok: bool)
    ensures
        ok == valid_project_name_spec(name@),
{
    let n = name.unicode_len();
    if n == 0 {
        return false;
    }
    let mut i: usize = 0;
    while i < n
        invariant
            n == name@.len(),
            0 <= i <= n,
            forall|j: int| 0 <= j < i ==> name@[j] != '/' && name@[j] != '\\',
        decreases n - i,
    {
        let c = name.get_char(i);
        if c == '/' || c == '\\' {
            proof {
                assert(name@.contains('/') || name@.contains('\\'));
            }
            return false;
        }
        i = i + 1;
    }
    proof {
        assert(!name@.contains('/'));
        assert(!name@.contains('\\'));
    }
    if n == 1 && name.get_char(0) == '.' {
        return false;
    }
    if n == 2 && name.get_char(0) == '.' && name.get_char(1) == '.' {
        return false;
    }
    true
}

} // verus!
