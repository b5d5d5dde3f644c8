//! Assembly of the external runner's command line: the comma-joined
//! test-module list, the eval expression, the artifact search-path flags,
//! and the fixed trailing arguments.

use vstd::prelude::*;
use vstd::string::*;
use itertools::Itertools;
use crate::modules::{Package, test_module_list};

verus! {

/// `parts` concatenated with a single `,` between consecutive parts:
/// no surrounding brackets, no trailing separator.
pub open spec fn join_comma(parts: Seq<Seq<char>>) -> Seq<char>
    decreases parts.len(),
{
    if parts.len() == 0 {
        Seq::empty()
    } else if parts.len() == 1 {
        parts.first()
    } else {
        parts.first() + seq![','] + join_comma(parts.drop_first())
    }
}

/// Relies on `itertools::Itertools::join`: concatenates the items'
/// `Display` forms (for a `String`, the string itself) with the separator
/// between each pair of consecutive items, and returns the empty string
/// for an empty iterator.
#[verifier::external_body]
fn join_with_commas(parts: &Vec<String>) -> (r: String)
    ensures
        r@ == join_comma(parts@.map_values(|s: String| s@)),
{
    parts.iter().join(",")
}

/// Joins the derived test-module list with commas, in list order.
pub fn joined_test_modules(packages: &Vec<Package>) -> (r: String)
    ensures
        r@ == join_comma(test_module_list(packages@)),
{
    let names = crate::modules::test_module_names(packages);
    join_with_commas(&names)
}

/// The eval expression handed to the runner, with the comma-joined module
/// list interpolated at its single insertion site.
pub open spec fn eval_expr_of(joined: Seq<char>) -> Seq<char> {
    "init:stop(case eunit:test(["@ + joined + "], [verbose]) of ok -> 0; error -> 1 end)"@
}

/// Builds the eval expression around the joined test-module list.
pub fn eval_expression(joined: &str) -> (r: String)
    ensures
        r@ == eval_expr_of(joined@),
{
    let mut out = String::from_str("init:stop(case eunit:test([");
    out.append(joined);
    out.append("], [verbose]) of ok -> 0; error -> 1 end)");
    proof {
        assert(out@ =~= eval_expr_of(joined@));
    }
    out
}

/// With no test modules at all, the eval expression is exactly the fixed
/// expression over the empty module list.
pub proof fn lemma_empty_test_set(ps: Seq<Package>)
    requires
        test_module_list(ps).len() == 0,
    ensures
        eval_expr_of(join_comma(test_module_list(ps)))
            == "init:stop(case eunit:test([], [verbose]) of ok -> 0; error -> 1 end)"@,
{
    reveal_strlit("init:stop(case eunit:test([");
    reveal_strlit("], [verbose]) of ok -> 0; error -> 1 end)");
    reveal_strlit("init:stop(case eunit:test([], [verbose]) of ok -> 0; error -> 1 end)");
    assert(eval_expr_of(join_comma(test_module_list(ps)))
        =~= "init:stop(case eunit:test([], [verbose]) of ok -> 0; error -> 1 end)"@);
}

/// An artifact folder's search path: the child path joined with the
/// well-known `ebin` segment.
pub open spec fn ebin_path(child: Seq<char>) -> Seq<char> {
    child + "/ebin"@
}

/// The flag that precedes each artifact search path.
pub open spec fn pa_flag() -> Seq<char> {
    "-pa"@
}

/// The two adjacent arguments contributed by one enumerated child.
pub open spec fn pa_pair(child: Seq<char>) -> Seq<Seq<char>> {
    seq![pa_flag(), ebin_path(child)]
}

/// The search-path flags: one `-pa <child>/ebin` pair per child, in
/// enumeration order.
pub open spec fn pa_args(children: Seq<Seq<char>>) -> Seq<Seq<char>> {
    children.flat_map(|c: Seq<char>| pa_pair(c))
}

/// The full argument vector: the interleaved `-pa` pairs, then `-noshell`,
/// then `-eval`, then the single eval expression.
pub open spec fn runner_args(children: Seq<Seq<char>>, expr: Seq<char>) -> Seq<Seq<char>> {
    pa_args(children) + seq!["-noshell"@, "-eval"@, expr]
}

/// One enumerated child extends the search-path flags by its own pair.
pub proof fn lemma_pa_args_step(children: Seq<Seq<char>>, i: int)
    requires
        0 <= i < children.len(),
    ensures
        pa_args(children.take(i + 1)) == pa_args(children.take(i)) + pa_pair(children[i]),
{
    broadcast use Seq::lemma_flat_map_take_append;

    assert(pa_args(children.take(i + 1)) == pa_args(children.take(i)) + pa_pair(children[i]));
}

/// Child `i`'s adjacent argument pair stands at positions `2i` and
/// `2i + 1` of `args`: the `-pa` flag, then the child's `ebin` path.
pub open spec fn pair_at(args: Seq<Seq<char>>, child: Seq<char>, i: int) -> bool {
    args[2 * i] == pa_flag() && args[2 * i + 1] == ebin_path(child)
}

/// Every successfully enumerated child contributes its adjacent
/// `-pa`, `<child>/ebin` pair exactly once, at the position given by the
/// enumeration order.
pub proof fn lemma_pa_args_pairing(children: Seq<Seq<char>>)
    ensures
        pa_args(children).len() == 2 * children.len(),
        forall|i: int|
            0 <= i < children.len() ==> #[trigger] pair_at(pa_args(children), children[i], i),
    decreases children.len(),
{
    if children.len() == 0 {
        assert(pa_args(children) =~= Seq::<Seq<char>>::empty());
    } else {
        let n = children.len() as int;
        let pre = children.take(n - 1);
        lemma_pa_args_pairing(pre);
        lemma_pa_args_step(children, n - 1);
        assert(children.take(n) =~= children);
        assert(pa_args(children) == pa_args(pre) + pa_pair(children[n - 1]));
        assert forall|i: int|
            0 <= i < children.len() implies #[trigger] pair_at(
            pa_args(children),
            children[i],
            i,
        ) by {
            if i < n - 1 {
                assert(pre[i] == children[i]);
                assert(pair_at(pa_args(pre), pre[i], i));
                assert(pa_args(children)[2 * i] == pa_args(pre)[2 * i]);
                assert(pa_args(children)[2 * i + 1] == pa_args(pre)[2 * i + 1]);
            } else {
                assert(pa_args(children)[2 * i] == pa_pair(children[n - 1])[0]);
                assert(pa_args(children)[2 * i + 1] == pa_pair(children[n - 1])[1]);
                assert(pa_pair(children[n - 1])[0] == pa_flag());
                assert(pa_pair(children[n - 1])[1] == ebin_path(children[n - 1]));
            }
        }
    }
}

/// What one directory entry contributes to the child list: its path if
/// its read succeeded, nothing if it failed. Per-entry read failures are
/// skipped deliberately: one unreadable sibling must not block the run.
pub open spec fn child_entry(e: Option<String>) -> Seq<Seq<char>> {
    match e {
        Some(s) => seq![s@],
        None => Seq::empty(),
    }
}

/// The successfully read children, in enumeration order.
pub open spec fn readable_children(entries: Seq<Option<String>>) -> Seq<Seq<char>> {
    entries.flat_map(|e: Option<String>| child_entry(e))
}

/// One more enumerated entry contributes its child path, or nothing.
pub proof fn lemma_readable_children_step(entries: Seq<Option<String>>, i: int)
    requires
        0 <= i < entries.len(),
    ensures
        readable_children(entries.take(i + 1)) == readable_children(entries.take(i))
            + child_entry(entries[i]),
{
    broadcast use Seq::lemma_flat_map_take_append;

    assert(readable_children(entries.take(i + 1)) == readable_children(entries.take(i))
        + child_entry(entries[i]));
}

/// The assembled runner invocation: executable name and argument vector,
/// built in full before anything is launched.
pub struct RunnerCommand {
    pub program: String,
    pub args: Vec<String>,
}

/// Assembles the full runner invocation for the given build: one
/// `-pa <child>/ebin` pair per successfully read entry of the
/// build-library directory (failed entries are skipped), then `-noshell`,
/// `-eval` and the eval expression over the packages' test modules.
pub fn command(entries: &Vec<Option<String>>, packages: &Vec<Package>) -> (c: RunnerCommand)
    ensures
        c.program@ == "erl"@,
        c.args@.map_values(|s: String| s@) == runner_args(
            readable_children(entries@),
            eval_expr_of(join_comma(test_module_list(packages@))),
        ),
{
    let mut args: Vec<String> = Vec::new();
    proof {
        assert(readable_children(entries@.take(0)) =~= Seq::<Seq<char>>::empty());
        assert(pa_args(readable_children(entries@.take(0))) =~= Seq::<Seq<char>>::empty());
        assert(args@.map_values(|s: String| s@) =~= Seq::<Seq<char>>::empty());
    }
    let mut i: usize = 0;
    while i < entries.len()
        invariant
            i <= entries@.len(),
            args@.map_values(|s: String| s@) == pa_args(readable_children(entries@.take(i as int))),
        decreases entries@.len() - i,
    {
        let ghost r_prev = readable_children(entries@.take(i as int));
        match &entries[i] {
            Some(child) => {
                let flag = String::from_str("-pa");
                let mut path = child.clone();
                path.append("/ebin");
                args.push(flag);
                args.push(path);
                proof {
                    assert(flag@ == pa_flag());
                    assert(path@ == ebin_path(child@));
                    lemma_readable_children_step(entries@, i as int);
                    let r_new = readable_children(entries@.take(i as int + 1));
                    assert(r_new =~= r_prev.push(child@));
                    assert(r_new.take(r_new.len() as int) =~= r_new);
                    assert(r_new.take(r_new.len() as int - 1) =~= r_prev);
                    lemma_pa_args_step(r_new, r_new.len() as int - 1);
                    assert(pa_args(r_new) == pa_args(r_prev) + pa_pair(child@));
                    assert(args@.map_values(|s: String| s@) =~= pa_args(r_new));
                }
            },
            None => {
                proof {
                    lemma_readable_children_step(entries@, i as int);
                    assert(readable_children(entries@.take(i as int + 1)) =~= r_prev);
                }
            },
        }
        i = i + 1;
    }
    proof {
        assert(entries@.take(entries@.len() as int) =~= entries@);
    }
    let joined = joined_test_modules(packages);
    let expr = eval_expression(joined.as_str());
    args.push(String::from_str("-noshell"));
    args.push(String::from_str("-eval"));
    args.push(expr);
    proof {
        assert(args@.map_values(|s: String| s@) =~= runner_args(
            readable_children(entries@),
            eval_expr_of(join_comma(test_module_list(packages@))),
        ));
    }
    RunnerCommand { program: String::from_str("erl"), args }
}

/// The shape of the whole argument vector: the `-pa` pairs first, then
/// exactly `-noshell`, `-eval` and the eval expression, nothing else.
pub proof fn lemma_runner_args_shape(children: Seq<Seq<char>>, expr: Seq<char>)
    ensures
        runner_args(children, expr).len() == 2 * children.len() + 3,
        forall|i: int|
            0 <= i < children.len() ==> #[trigger] pair_at(
                runner_args(children, expr),
                children[i],
                i,
            ),
        runner_args(children, expr)[2 * children.len() as int] == "-noshell"@,
        runner_args(children, expr)[2 * children.len() as int + 1] == "-eval"@,
        runner_args(children, expr)[2 * children.len() as int + 2] == expr,
{
    lemma_pa_args_pairing(children);
    assert forall|i: int| 0 <= i < children.len() implies #[trigger] pair_at(
        runner_args(children, expr),
        children[i],
        i,
    ) by {
        assert(pair_at(pa_args(children), children[i], i));
        assert(runner_args(children, expr)[2 * i] == pa_args(children)[2 * i]);
        assert(runner_args(children, expr)[2 * i + 1] == pa_args(children)[2 * i + 1]);
    }
}

} // verus!
