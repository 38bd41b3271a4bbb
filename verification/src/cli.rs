//! Command-line argument lookup: finding the value that follows a named
//! flag in an argument list. The list itself is handed in by the caller;
//! only the search is logic of this crate.

use crate::bytes::str_eq;
use vstd::prelude::*;

verus! {

/// Index of the first argument equal to `name`; `args.len()` when none.
pub open spec fn first_eq(args: Seq<Seq<char>>, name: Seq<char>) -> int
    decreases args.len(),
{
    if args.len() == 0 {
        0
    } else if args[0] == name {
        0
    } else {
        1 + first_eq(args.skip(1), name)
    }
}

/// Returns the argument that follows the first occurrence of `arg_name`
/// in `args`; nothing when the flag is absent or stands last.
pub fn get_cli_arg_by_name(args: &Vec<String>, arg_name: &str) -> (r: Option<String>)
    ensures
        first_eq(args.deep_view(), arg_name@) + 1 < args.deep_view().len() ==> {
            &&& r matches Option::Some(v)
            &&& v@ == args.deep_view()[first_eq(args.deep_view(), arg_name@) + 1]
        },
        first_eq(args.deep_view(), arg_name@) + 1 >= args.deep_view().len() ==> r is None,
{
    let n = args.len();
    let mut i: usize = 0;
    loop
        invariant
            i <= n,
            n == args.deep_view().len(),
            forall|j: int| 0 <= j < i ==> args.deep_view()[j] != arg_name@,
        decreases n - i,
    {
        if i == n {
            proof {
                lemma_first_eq_none(args.deep_view(), arg_name@);
            }
            return Option::None;
        }
        if str_eq(args[i].as_str(), arg_name) {
            proof {
                lemma_first_eq_at(args.deep_view(), arg_name@, i as int);
            }
            if i + 1 < n {
                let v = args[i + 1].clone();
                proof {
                    assert(v@ == args.deep_view()[i + 1]);
                }
                return Option::Some(v);
            } else {
                return Option::None;
            }
        }
        i = i + 1;
    }
}

proof fn lemma_first_eq_at(args: Seq<Seq<char>>, name: Seq<char>, i: int)
    requires
        0 <= i < args.len(),
        args[i] == name,
        forall|j: int| 0 <= j < i ==> args[j] != name,
    ensures
        first_eq(args, name) == i,
    decreases args.len(),
{
    if args.len() > 0 && args[0] != name {
        assert(forall|j: int| 0 <= j < i - 1 ==> #[trigger] args.skip(1)[j] == args[j + 1]);
        assert(args.skip(1)[i - 1] == args[i]);
        lemma_first_eq_at(args.skip(1), name, i - 1);
    }
}

proof fn lemma_first_eq_none(args: Seq<Seq<char>>, name: Seq<char>)
    requires
        forall|j: int| 0 <= j < args.len() ==> args[j] != name,
    ensures
        first_eq(args, name) == args.len(),
    decreases args.len(),
{
    if args.len() > 0 {
        assert(forall|j: int|
            0 <= j < args.len() - 1 ==> #[trigger] args.skip(1)[j] == args[j + 1]);
        lemma_first_eq_none(args.skip(1), name);
    }
}

} // verus!
