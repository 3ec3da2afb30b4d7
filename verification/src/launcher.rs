//! The command launcher: turns a raw argument list into a launch plan.
//!
//! Four transformations, in the order the shell applies them:
//! 1. a trailing `&` token requests background execution and is stripped;
//! 2. every token equal to `$$` is replaced by the shell's own process
//!    identifier in decimal (whole-token, never substring);
//! 3. the last `<` token together with the following path token is removed
//!    and the path becomes the plan's input redirection;
//! 4. likewise `>` for output redirection.
//!
//! Opening the redirection paths, and spawning, are the caller's business:
//! the plan carries the paths as plain strings. A marker with no following
//! path token is left in place and yields no redirection.

use crate::digits::{dec_rep, u64_to_decimal};
use vstd::prelude::*;
use vstd::string::StringExecFns;

verus! {

/// True when the argument list ends in the literal token `&`.
pub open spec fn background_requested(args: Seq<Seq<char>>) -> bool {
    args.len() > 0 && args.last() == "&"@
}

/// The argument list with a trailing `&` token, if any, stripped.
pub open spec fn strip_background(args: Seq<Seq<char>>) -> Seq<Seq<char>> {
    if background_requested(args) {
        args.drop_last()
    } else {
        args
    }
}

/// Every token equal to `$$` replaced by the decimal representation of
/// `pid`; every other token unchanged.
pub open spec fn subst_pid(args: Seq<Seq<char>>, pid: int) -> Seq<Seq<char>> {
    args.map_values(
        |a: Seq<char>|
            if a == "$$"@ {
                dec_rep(pid)
            } else {
                a
            },
    )
}

/// Index of the last occurrence of `tok` in `args`, or -1 if absent.
pub open spec fn last_marker(args: Seq<Seq<char>>, tok: Seq<char>) -> int
    decreases args.len(),
{
    if args.len() == 0 {
        -1
    } else if args.last() == tok {
        args.len() - 1
    } else {
        last_marker(args.drop_last(), tok)
    }
}

/// `last_marker` is pinned by its defining properties: `tok` stands at `i`
/// and nowhere later.
pub proof fn lemma_last_marker_pin(args: Seq<Seq<char>>, tok: Seq<char>, i: int)
    requires
        0 <= i < args.len(),
        args[i] == tok,
        forall|j: int| i < j < args.len() ==> args[j] != tok,
    ensures
        last_marker(args, tok) == i,
    decreases args.len(),
{
    if i == args.len() - 1 {
        assert(args.last() == tok);
    } else {
        assert(args.last() != tok);
        assert(args.drop_last()[i] == args[i]);
        lemma_last_marker_pin(args.drop_last(), tok, i);
    }
}

/// Where `tok` occurs nowhere, `last_marker` is -1.
pub proof fn lemma_last_marker_none(args: Seq<Seq<char>>, tok: Seq<char>)
    requires
        forall|j: int| 0 <= j < args.len() ==> args[j] != tok,
    ensures
        last_marker(args, tok) == -1,
    decreases args.len(),
{
    if args.len() > 0 {
        assert(args.last() != tok);
        lemma_last_marker_none(args.drop_last(), tok);
    }
}

/// Scan for the marker `tok` followed by a path token: the extracted path,
/// if any, and the remaining arguments. The marker scanned for is the last
/// occurrence; a marker in final position extracts nothing.
pub open spec fn extract_redirection(args: Seq<Seq<char>>, tok: Seq<char>) -> (Option<Seq<char>>, Seq<
    Seq<char>,
>) {
    let i = last_marker(args, tok);
    if 0 <= i && i + 1 < args.len() {
        (Some(args[i + 1]), args.remove(i).remove(i))
    } else {
        (None, args)
    }
}

/// Extraction never invents a token: whatever the remaining arguments hold
/// stood in the incoming list.
pub proof fn lemma_extract_preserves_absence(args: Seq<Seq<char>>, tok: Seq<char>, x: Seq<char>)
    requires
        !args.contains(x),
    ensures
        !extract_redirection(args, tok).1.contains(x),
{
    let i = last_marker(args, tok);
    if 0 <= i && i + 1 < args.len() {
        let once = args.remove(i);
        let twice = once.remove(i);
        args.remove_ensures(i);
        once.remove_ensures(i);
        assert forall|j: int| 0 <= j < twice.len() implies twice[j] != x by {
            if j < i {
                assert(twice[j] == args[j]);
            } else {
                assert(twice[j] == once[j + 1]);
                assert(once[j + 1] == args[j + 2]);
            }
            assert(args.contains(x) == false);
        }
        if twice.contains(x) {
            let w = choose|w: int| 0 <= w < twice.len() && twice[w] == x;
            assert(false);
        }
    }
}

/// The launcher's result, in mathematical form.
#[verifier::ext_equal]
pub struct PlanView {
    pub program: Seq<char>,
    pub args: Seq<Seq<char>>,
    pub background: bool,
    pub input_path: Option<Seq<char>>,
    pub output_path: Option<Seq<char>>,
}

/// What the launcher produces for the given program, raw argument tokens,
/// shell process identifier and pool mode: background stripping, then PID
/// substitution, then input extraction, then output extraction. A requested
/// background run is downgraded to foreground when the pool is
/// foreground-only.
pub open spec fn plan_spec(
    program: Seq<char>,
    args: Seq<Seq<char>>,
    pid: int,
    foreground_only: bool,
) -> PlanView {
    let stripped = strip_background(args);
    let substituted = subst_pid(stripped, pid);
    let inp = extract_redirection(substituted, "<"@);
    let outp = extract_redirection(inp.1, ">"@);
    PlanView {
        program: program,
        args: outp.1,
        background: background_requested(args) && !foreground_only,
        input_path: inp.0,
        output_path: outp.0,
    }
}

/// Everything the caller needs to spawn one command: the program, the final
/// argument tokens, whether to run it in the background, and the redirection
/// paths still to be opened.
pub struct LaunchPlan {
    pub program: String,
    pub args: Vec<String>,
    pub background: bool,
    pub input_path: Option<String>,
    pub output_path: Option<String>,
}

impl View for LaunchPlan {
    type V = PlanView;

    open spec fn view(&self) -> PlanView {
        PlanView {
            program: self.program@,
            args: self.args.deep_view(),
            background: self.background,
            input_path: self.input_path.deep_view(),
            output_path: self.output_path.deep_view(),
        }
    }
}

/// Whole-token equality of an argument against a marker such as `&` or `$$`.
fn string_eq_tok(s: &String, tok: &str) -> (r: bool)
    ensures
        r == (s@ == tok@),
{
    let t = String::from_str(tok);
    *s == t
}

/// Removing one element commutes with taking the views of all elements.
proof fn lemma_deep_view_remove(pre: Vec<String>, post: Vec<String>, i: int)
    requires
        0 <= i < pre@.len(),
        post@ == pre@.remove(i),
    ensures
        post.deep_view() == pre.deep_view().remove(i),
{
    pre@.remove_ensures(i);
    pre.deep_view().remove_ensures(i);
    assert(post.deep_view() =~= pre.deep_view().remove(i));
}

/// Dropping the last element commutes with taking the views of all elements.
proof fn lemma_deep_view_drop_last(pre: Vec<String>, post: Vec<String>)
    requires
        pre@.len() > 0,
        post@ == pre@.drop_last(),
    ensures
        post.deep_view() == pre.deep_view().drop_last(),
{
    assert(post.deep_view() =~= pre.deep_view().drop_last());
}

/// Replaces every token equal to `$$` by the decimal string of `pid`.
pub fn replace_with_pid(args: Vec<String>, pid: u64) -> (r: Vec<String>)
    ensures
        r.deep_view() == subst_pid(args.deep_view(), pid as int),
{
    let ghost goal = subst_pid(args.deep_view(), pid as int);
    let mut out: Vec<String> = Vec::new();
    let mut k: usize = 0;
    while k < args.len()
        invariant
            k <= args.len(),
            goal == subst_pid(args.deep_view(), pid as int),
            out@.len() == k,
            forall|i: int| 0 <= i < k ==> out.deep_view()[i] == goal[i],
        decreases args.len() - k,
    {
        if string_eq_tok(&args[k], "$$") {
            out.push(u64_to_decimal(pid));
        } else {
            out.push(args[k].clone());
        }
        k = k + 1;
    }
    proof {
        assert(out.deep_view() =~= goal);
    }
    out
}

/// Index of the last argument equal to `tok`, if any.
fn find_last_token(args: &Vec<String>, tok: &str) -> (r: Option<usize>)
    ensures
        match r {
            Some(i) => {
                &&& i < args@.len()
                &&& args.deep_view()[i as int] == tok@
                &&& forall|j: int| i < j < args@.len() ==> args.deep_view()[j] != tok@
            },
            None => forall|j: int| 0 <= j < args@.len() ==> args.deep_view()[j] != tok@,
        },
{
    let mut best: Option<usize> = None;
    let mut k: usize = 0;
    while k < args.len()
        invariant
            k <= args.len(),
            match best {
                Some(i) => {
                    &&& i < k
                    &&& args.deep_view()[i as int] == tok@
                    &&& forall|j: int| i < j < k ==> args.deep_view()[j] != tok@
                },
                None => forall|j: int| 0 <= j < k ==> args.deep_view()[j] != tok@,
            },
        decreases args.len() - k,
    {
        if string_eq_tok(&args[k], tok) {
            best = Some(k);
        }
        k = k + 1;
    }
    best
}

/// Scans for the last `tok` marker followed by a path token; where both
/// stand, removes the pair and hands the path out.
fn extract_token_redirection(args: Vec<String>, tok: &str) -> (r: (Option<String>, Vec<String>))
    ensures
        r.0.deep_view() == extract_redirection(args.deep_view(), tok@).0,
        r.1.deep_view() == extract_redirection(args.deep_view(), tok@).1,
{
    let ghost dv = args.deep_view();
    let found = find_last_token(&args, tok);
    let mut args = args;
    if let Some(i) = found {
        proof {
            lemma_last_marker_pin(dv, tok@, i as int);
        }
        if args.len() - i > 1 {
            let ghost pre = args;
            args.remove(i);
            proof {
                lemma_deep_view_remove(pre, args, i as int);
            }
            let ghost mid = args;
            let path = args.remove(i);
            proof {
                lemma_deep_view_remove(mid, args, i as int);
                dv.remove_ensures(i as int);
                assert(path@ == dv[i + 1]);
            }
            return (Some(path), args);
        }
    } else {
        proof {
            lemma_last_marker_none(dv, tok@);
        }
    }
    (None, args)
}

/// Scans for `<` followed by a path: the input redirection path, if any, and
/// the remaining arguments.
pub fn extract_input_redirection(args: Vec<String>) -> (r: (Option<String>, Vec<String>))
    ensures
        r.0.deep_view() == extract_redirection(args.deep_view(), "<"@).0,
        r.1.deep_view() == extract_redirection(args.deep_view(), "<"@).1,
{
    extract_token_redirection(args, "<")
}

/// Scans for `>` followed by a path: the output redirection path, if any,
/// and the remaining arguments.
pub fn extract_output_redirection(args: Vec<String>) -> (r: (Option<String>, Vec<String>))
    ensures
        r.0.deep_view() == extract_redirection(args.deep_view(), ">"@).0,
        r.1.deep_view() == extract_redirection(args.deep_view(), ">"@).1,
{
    extract_token_redirection(args, ">")
}

/// Builds the launch plan for one command: exactly `plan_spec` applied to
/// the given tokens.
pub fn build_plan(program: &str, args: Vec<String>, shell_pid: u64, foreground_only: bool) -> (plan:
    LaunchPlan)
    ensures
        plan@ == plan_spec(program@, args.deep_view(), shell_pid as int, foreground_only),
{
    let ghost orig = args.deep_view();
    let mut args = args;
    let mut requested = false;
    if args.len() > 0 && string_eq_tok(&args[args.len() - 1], "&") {
        let ghost pre = args;
        args.pop();
        requested = true;
        proof {
            lemma_deep_view_drop_last(pre, args);
        }
    }
    proof {
        assert(requested == background_requested(orig));
        assert(args.deep_view() == strip_background(orig));
    }
    let args = replace_with_pid(args, shell_pid);
    let (input_path, args) = extract_input_redirection(args);
    let (output_path, args) = extract_output_redirection(args);
    let plan = LaunchPlan {
        program: String::from_str(program),
        args: args,
        background: requested && !foreground_only,
        input_path: input_path,
        output_path: output_path,
    };
    proof {
        assert(plan@ =~= plan_spec(program@, orig, shell_pid as int, foreground_only));
    }
    plan
}

} // verus!
