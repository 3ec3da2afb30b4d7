//! Laws of the launcher, proved once and for all argument lists.

use crate::digits::{dec_rep, is_digit_char, lemma_dec_rep_digits};
use crate::pool::ProcessPool;
use crate::launcher::{
    background_requested, extract_redirection, lemma_extract_preserves_absence,
    lemma_last_marker_pin, plan_spec, strip_background, subst_pid,
};
use vstd::prelude::*;

verus! {

/// An argument list ending in `&`, with no other `&` token, yields a plan
/// whose background flag is set and whose arguments no longer hold the
/// literal `&` — whatever substitution and redirection do to the rest.
pub proof fn lemma_trailing_ampersand(program: Seq<char>, args: Seq<Seq<char>>, pid: u64)
    requires
        args.len() > 0,
        args.last() == "&"@,
        forall|j: int| 0 <= j < args.len() - 1 ==> args[j] != "&"@,
    ensures
        plan_spec(program, args, pid as int, false).background,
        !plan_spec(program, args, pid as int, false).args.contains("&"@),
{
    let stripped = strip_background(args);
    let substituted = subst_pid(stripped, pid as int);
    assert forall|j: int| 0 <= j < substituted.len() implies substituted[j] != "&"@ by {
        reveal_strlit("&");
        lemma_dec_rep_digits(pid as int);
        assert(stripped[j] == args[j]);
        if stripped[j] == "$$"@ {
            assert(substituted[j] == dec_rep(pid as int));
            if dec_rep(pid as int) == "&"@ {
                assert(is_digit_char(dec_rep(pid as int)[0]));
                assert(dec_rep(pid as int)[0] == '&');
            }
        } else {
            assert(substituted[j] == stripped[j]);
        }
    }
    if substituted.contains("&"@) {
        let w = choose|w: int| 0 <= w < substituted.len() && substituted[w] == "&"@;
        assert(false);
    }
    lemma_extract_preserves_absence(substituted, "<"@, "&"@);
    lemma_extract_preserves_absence(extract_redirection(substituted, "<"@).1, ">"@, "&"@);
}

/// Substitution replaces exactly the tokens equal to `$$`, each by the
/// decimal representation of `pid`, and alters no other token.
pub proof fn lemma_pid_substitution(args: Seq<Seq<char>>, pid: u64)
    ensures
        subst_pid(args, pid as int).len() == args.len(),
        forall|i: int|
            0 <= i < args.len() && args[i] == "$$"@ ==> #[trigger] subst_pid(args, pid as int)[i]
                == dec_rep(pid as int),
        forall|i: int|
            0 <= i < args.len() && args[i] != "$$"@ ==> #[trigger] subst_pid(args, pid as int)[i]
                == args[i],
{
}

/// An argument list holding a single `<` marker followed by a path that
/// occurs nowhere else: the extraction hands that path out, and after both
/// redirection scans neither the marker nor the path stands among the
/// remaining arguments.
pub proof fn lemma_redirection_tokens_removed(args: Seq<Seq<char>>, i: int)
    requires
        0 <= i,
        i + 1 < args.len(),
        args[i] == "<"@,
        forall|j: int| 0 <= j < args.len() && j != i ==> args[j] != "<"@,
        forall|j: int| 0 <= j < args.len() && j != i + 1 ==> #[trigger] args[j] != args[i + 1],
    ensures
        extract_redirection(args, "<"@).0 == Some(args[i + 1]),
        !extract_redirection(extract_redirection(args, "<"@).1, ">"@).1.contains("<"@),
        !extract_redirection(extract_redirection(args, "<"@).1, ">"@).1.contains(args[i + 1]),
{
    lemma_last_marker_pin(args, "<"@, i);
    let mid = args.remove(i);
    let rest = mid.remove(i);
    args.remove_ensures(i);
    mid.remove_ensures(i);
    assert forall|j: int| 0 <= j < rest.len() implies rest[j] != "<"@ && rest[j] != args[i + 1] by {
        if j < i {
            assert(rest[j] == args[j]);
        } else {
            assert(rest[j] == mid[j + 1]);
            assert(mid[j + 1] == args[j + 2]);
        }
    }
    if rest.contains("<"@) {
        let w = choose|w: int| 0 <= w < rest.len() && rest[w] == "<"@;
        assert(false);
    }
    if rest.contains(args[i + 1]) {
        let w = choose|w: int| 0 <= w < rest.len() && rest[w] == args[i + 1];
        assert(false);
    }
    lemma_extract_preserves_absence(rest, ">"@, "<"@);
    lemma_extract_preserves_absence(rest, ">"@, args[i + 1]);
}

/// Once the pool is foreground-only, no plan asks for a background run,
/// whatever the arguments say: nothing is ever handed to the background
/// set on behalf of such a command.
pub proof fn lemma_foreground_only_downgrade(program: Seq<char>, args: Seq<Seq<char>>, pid: u64)
    ensures
        !plan_spec(program, args, pid as int, true).background,
{
}

/// While a pool is in foreground-only mode, the plan it hands out for any
/// command whatsoever is a foreground plan: together with the contracts of
/// `register_background` (the only operation that grows the background set)
/// and `record_foreground_exit` (which never touches it), such a command
/// never appears in the pool's size.
pub proof fn lemma_foreground_only_pool(
    p: &ProcessPool,
    program: Seq<char>,
    args: Seq<Seq<char>>,
    pid: u64,
)
    requires
        p@.foreground_only,
    ensures
        !plan_spec(program, args, pid as int, p@.foreground_only).background,
{
}

/// An argument list not ending in `&` keeps every token for substitution:
/// the background flag stays clear and nothing is stripped.
pub proof fn lemma_no_trailing_ampersand(args: Seq<Seq<char>>)
    requires
        args.len() == 0 || args.last() != "&"@,
    ensures
        !background_requested(args),
        strip_background(args) == args,
{
}

} // verus!
