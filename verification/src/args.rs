//! Command-line arguments.
use crate::models::text_of;
use vstd::prelude::*;

verus! {

/// The texts of a list of arguments.
pub open spec fn arg_views(args: Seq<String>) -> Seq<Seq<char>> {
    Seq::new(args.len(), |i: int| args[i]@)
}

/// The first index at or after `from` that holds the flag; the number of
/// arguments where none does.
pub open spec fn flag_index(args: Seq<Seq<char>>, flag: Seq<char>, from: int) -> int
    decreases args.len() - from,
{
    if from < 0 || from >= args.len() {
        args.len() as int
    } else if args[from] == flag {
        from
    } else {
        flag_index(args, flag, from + 1)
    }
}

/// The value of a flag: the argument after the first occurrence of the
/// flag, where there is one.
pub open spec fn flag_value(args: Seq<Seq<char>>, flag: Seq<char>) -> Option<Seq<char>> {
    if flag_index(args, flag, 0) + 1 < args.len() {
        Some(args[flag_index(args, flag, 0) + 1])
    } else {
        None
    }
}

/// The value that follows a flag on the command line: the argument after
/// the first occurrence of the flag; `None` where the flag is missing or
/// stands last.
pub fn parse_arg(args: &[String], flag: &str) -> (r: Option<String>)
    ensures
        text_of(r) == flag_value(arg_views(args@), flag@),
{
    let needle = flag.to_owned();
    let ghost all = arg_views(args@);
    let mut i: usize = 0;
    while i < args.len()
        invariant
            i <= args.len(),
            needle@ == flag@,
            all == arg_views(args@),
            flag_index(all, flag@, 0) == flag_index(all, flag@, i as int),
        decreases args.len() - i,
    {
        if args[i] == needle {
            if i + 1 < args.len() {
                return Some(args[i + 1].clone());
            }
            return None;
        }
        i += 1;
    }
    None
}

} // verus!
