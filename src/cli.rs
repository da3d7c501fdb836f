//! The command line: `<program> <path> [-l]`.
use vstd::prelude::*;

verus! {

/// What the command line asks for.
pub enum Invocation {
    /// No path was given: print the usage text.
    Usage,
    /// Draw the image at `path`, in legacy colors when `legacy` is set.
    Render { path: String, legacy: bool },
}

/// The option that selects legacy colors.
pub open spec fn legacy_option() -> Seq<char> {
    seq!['-', 'l']
}

/// Reads the arguments, the program's name first. The second argument is
/// the path; any argument after it that is `-l` selects legacy colors.
pub fn parse_args(args: &Vec<String>) -> (inv: Invocation)
    ensures
        args.len() < 2 ==> inv is Usage,
        args.len() >= 2 ==> match inv {
            Invocation::Render { path, legacy } => {
                &&& path@ == args[1]@
                &&& legacy == exists|i: int| 2 <= i < args.len() && (#[trigger] args[i])@ == legacy_option()
            },
            Invocation::Usage => false,
        },
{
    if args.len() < 2 {
        return Invocation::Usage;
    }
    let flag: String = "-l".to_owned();
    proof {
        reveal_strlit("-l");
    }
    assert(flag@ =~= legacy_option());
    let mut legacy = false;
    let mut i: usize = 2;
    while i < args.len()
        invariant
            2 <= i <= args.len(),
            flag@ == legacy_option(),
            legacy == exists|j: int| 2 <= j < i && (#[trigger] args[j])@ == legacy_option(),
        decreases args.len() - i,
    {
        if args[i] == flag {
            legacy = true;
        }
        i = i + 1;
    }
    Invocation::Render { path: args[1].clone(), legacy }
}

} // verus!
