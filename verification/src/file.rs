//! The traversal guard for the file routes: a requested name is taken
//! apart into `/`-separated components, and any parent-directory
//! component rejects the request before it can reach the filesystem.

use vstd::prelude::*;

verus! {

/// A parent-directory component stands at index `i` of `s`: two dots
/// bounded by the string's ends or by separators.
pub open spec fn dotdot_at(s: Seq<u8>, i: int) -> bool {
    &&& 0 <= i
    &&& i + 2 <= s.len()
    &&& s[i] == 46
    &&& s[i + 1] == 46
    &&& (i == 0 || s[i - 1] == 47)
    &&& (i + 2 == s.len() || s[i + 2] == 47)
}

/// Some `/`-separated component of `s` is a parent-directory reference.
pub open spec fn has_parent_component(s: Seq<u8>) -> bool {
    exists|i: int| dotdot_at(s, i)
}

/// Whether any `/`-separated component of `s` is `..`.
pub fn contains_parent_component(s: &[u8]) -> (r: bool)
    ensures
        r == has_parent_component(s@),
{
    let n = s.len();
    let mut i: usize = 0;
    loop
        invariant
            i <= n,
            n == s@.len(),
            forall|j: int| 0 <= j < i ==> !dotdot_at(s@, j),
        decreases n - i,
    {
        if n - i < 2 {
            proof {
                assert forall|j: int| !dotdot_at(s@, j) by {
                    if 0 <= j && j + 2 <= n {
                        assert(j < i);
                    }
                }
            }
            return false;
        }
        if s[i] == 46 && s[i + 1] == 46 && (i == 0 || s[i - 1] == 47) && (i + 2 == n || s[i + 2]
            == 47) {
            proof {
                assert(dotdot_at(s@, i as int));
            }
            return true;
        }
        i = i + 1;
    }
}

/// Strips the `/files/` prefix off the request path and applies the
/// traversal guard: the name after the prefix is returned verbatim, or
/// nothing when one of its components is a parent-directory reference.
pub fn parse_filename_from_request_path(path: &[u8]) -> (r: Option<Vec<u8>>)
    requires
        path@.len() >= 7,
    ensures
        r is Some <==> !has_parent_component(path@.skip(7)),
        r matches Some(name) ==> name@ == path@.skip(7),
{
    let name = vstd::slice::slice_to_vec(vstd::slice::slice_subrange(path, 7, path.len()));
    proof {
        assert(name@ =~= path@.skip(7));
    }
    if contains_parent_component(name.as_slice()) {
        Option::None
    } else {
        Option::Some(name)
    }
}

} // verus!
