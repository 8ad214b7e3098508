//! The command line: whether a cleanup was asked for, and for which name
//! fragment.

use vstd::prelude::*;
use vstd::string::*;
use crate::text::{joined, lemma_joined_push, same_text, texts};

verus! {

/// The argument that asks for a cleanup.
pub const CLEANUP_ARGUMENT: &'static str = "--cleanup";

/// The text of [`CLEANUP_ARGUMENT`].
pub open spec fn cleanup_flag() -> Seq<char> {
    "--cleanup"@
}

/// The arguments other than the cleanup flag, in order.
pub open spec fn operands(args: Seq<Seq<char>>) -> Seq<Seq<char>> {
    args.filter(|a: Seq<char>| a != cleanup_flag())
}

/// One more argument adds one operand, unless it is the flag.
pub proof fn lemma_operands_push(args: Seq<Seq<char>>, arg: Seq<char>)
    ensures
        operands(args.push(arg)) == if arg != cleanup_flag() {
            operands(args).push(arg)
        } else {
            operands(args)
        },
{
    reveal(Seq::filter);
    assert(args.push(arg).drop_last() =~= args);
}

/// Whether the arguments ask for a cleanup: whether the cleanup flag is
/// among them. `args` are the arguments proper, without the program's name.
pub fn should_cleanup_orphaned_directory(args: &Vec<String>) -> (requested: bool)
    ensures
        requested == texts(args@).contains(cleanup_flag()),
{
    let n: usize = args.len();
    let mut i: usize = 0;
    while i < n
        invariant
            i <= n == args@.len(),
            forall|j: int| 0 <= j < i ==> texts(args@)[j] != cleanup_flag(),
        decreases n - i,
    {
        if same_text(args[i].as_str(), CLEANUP_ARGUMENT) {
            assert(texts(args@)[i as int] == cleanup_flag());
            return true;
        }
        i += 1;
    }
    false
}

/// The name fragment that the arguments give: every argument but the
/// cleanup flag, joined by single spaces.
pub fn cleanup_fragment(args: &Vec<String>) -> (fragment: String)
    ensures
        fragment@ == joined(operands(texts(args@))),
{
    let ghost all = texts(args@);
    let n: usize = args.len();
    let mut fragment = String::new();
    let mut any = false;
    let mut i: usize = 0;
    assert(all.take(0) =~= Seq::<Seq<char>>::empty());
    proof {
        reveal(Seq::filter);
    }
    while i < n
        invariant
            i <= n == args@.len(),
            all == texts(args@),
            any == (operands(all.take(i as int)).len() > 0),
            fragment@ == joined(operands(all.take(i as int))),
        decreases n - i,
    {
        proof {
            lemma_operands_push(all.take(i as int), all[i as int]);
            lemma_joined_push(operands(all.take(i as int)), all[i as int]);
            assert(all.take(i as int).push(all[i as int]) =~= all.take(i + 1));
            reveal_strlit(" ");
            assert(" "@ =~= seq![' ']);
        }
        let word = args[i].as_str();
        if !same_text(word, CLEANUP_ARGUMENT) {
            if any {
                fragment.append(" ");
            }
            fragment.append(word);
            any = true;
            assert(fragment@ =~= joined(operands(all.take(i + 1))));
        }
        i += 1;
    }
    assert(all.take(n as int) =~= all);
    fragment
}

} // verus!
