//! Module records produced by a project build, and the derivation of the
//! list of test-module names handed to the external runner.

use vstd::prelude::*;
use vstd::string::*;

verus! {

/// Why a module exists in the build output.
#[derive(Clone, Copy, PartialEq, Eq, Structural, Debug)]
pub enum Origin {
    Source,
    Test,
}

/// A compiled module: a `/`-separated path-like name and an origin tag.
#[derive(Debug)]
pub struct Module {
    pub name: String,
    pub origin: Origin,
}

/// A named unit produced by the builder, with its modules in build order.
#[derive(Debug)]
pub struct Package {
    pub name: String,
    pub modules: Vec<Module>,
}

/// The runner's spelling of one module-name character: `/` becomes `@`.
pub open spec fn runner_char(c: char) -> char {
    if c == '/' {
        '@'
    } else {
        c
    }
}

/// The runner's spelling of a module name: every `/` replaced by `@`,
/// character for character, nothing else changed.
pub open spec fn runner_name(n: Seq<char>) -> Seq<char> {
    n.map_values(|c: char| runner_char(c))
}

/// Rewrites a module name into the runner's spelling.
pub fn module_runner_name(name: &str) -> (r: String)
    ensures
        r@ == runner_name(name@),
{
    let len = name.unicode_len();
    let mut out = String::new();
    let mut i: usize = 0;
    while i < len
        invariant
            i <= len,
            len == name@.len(),
            out@ == runner_name(name@.take(i as int)),
        decreases len - i,
    {
        let c = name.get_char(i);
        let rc = if c == '/' {
            '@'
        } else {
            c
        };
        push_char(&mut out, rc);
        proof {
            assert(out@ =~= runner_name(name@.take(i + 1)));
        }
        i = i + 1;
    }
    proof {
        assert(name@.take(len as int) =~= name@);
    }
    out
}

/// Relies on `String::push`: appends exactly the given character at the end.
#[verifier::external_body]
fn push_char(s: &mut String, c: char)
    ensures
        final(s)@ == old(s)@.push(c),
{
    s.push(c);
}

/// The inverse spelling of one character: `@` back to `/`.
pub open spec fn source_char(c: char) -> char {
    if c == '@' {
        '/'
    } else {
        c
    }
}

/// The inverse spelling of a name: every `@` replaced by `/`.
pub open spec fn source_name(n: Seq<char>) -> Seq<char> {
    n.map_values(|c: char| source_char(c))
}

/// On names free of `@`, the runner spelling is reversible: substituting
/// `/` back for `@` recovers the original name exactly.
pub proof fn lemma_runner_name_reversible(n: Seq<char>)
    requires
        !n.contains('@'),
    ensures
        source_name(runner_name(n)) == n,
{
    assert forall|i: int| 0 <= i < n.len() implies source_name(runner_name(n))[i] == n[i] by {
        assert(n[i] != '@');
    }
    assert(source_name(runner_name(n)) =~= n);
}

/// Whether a module was built from test sources.
pub open spec fn is_test(m: Module) -> bool {
    m.origin == Origin::Test
}

/// The runner spellings of the test-module names of a module sequence,
/// in sequence order: non-test modules are dropped, nothing is reordered.
pub open spec fn filtered_names(ms: Seq<Module>) -> Seq<Seq<char>> {
    ms.filter(|m: Module| is_test(m)).map_values(|m: Module| runner_name(m.name@))
}

/// The test-module names contributed by one package.
pub open spec fn package_test_names(p: Package) -> Seq<Seq<char>> {
    filtered_names(p.modules@)
}

/// The full test-module list: each package's filtered module sequence,
/// concatenated in the order the packages are given.
pub open spec fn test_module_list(ps: Seq<Package>) -> Seq<Seq<char>> {
    ps.flat_map(|p: Package| package_test_names(p))
}

/// Whether `v` is the runner spelling of some test module's name in `ms`.
pub open spec fn from_test_module(ms: Seq<Module>, v: Seq<char>) -> bool {
    exists|j: int| 0 <= j < ms.len() && #[trigger] is_test(ms[j]) && v == runner_name(ms[j].name@)
}

/// Only test modules contribute to the list, and every test module does:
/// each listed name is the runner spelling of some test module's name, and
/// each test module's runner spelling appears in the list.
pub proof fn lemma_filter_correct(ms: Seq<Module>)
    ensures
        forall|i: int|
            0 <= i < filtered_names(ms).len() ==> from_test_module(
                ms,
                #[trigger] filtered_names(ms)[i],
            ),
        forall|j: int|
            0 <= j < ms.len() && is_test(#[trigger] ms[j]) ==> filtered_names(ms).contains(
                runner_name(ms[j].name@),
            ),
{
    let pred = |m: Module| is_test(m);
    let kept = ms.filter(pred);
    assert forall|i: int| 0 <= i < filtered_names(ms).len() implies from_test_module(
        ms,
        #[trigger] filtered_names(ms)[i],
    ) by {
        let m = kept[i];
        Seq::lemma_filter_pred(ms, pred, i);
        assert(kept.contains(m));
        Seq::lemma_filter_contains_rev(ms, pred, m);
        let j = choose|j: int| 0 <= j < ms.len() && ms[j] == m;
        assert(0 <= j < ms.len() && is_test(ms[j]) && filtered_names(ms)[i] == runner_name(
            ms[j].name@,
        ));
    }
    assert forall|j: int| 0 <= j < ms.len() && is_test(#[trigger] ms[j]) implies filtered_names(
        ms,
    ).contains(runner_name(ms[j].name@)) by {
        Seq::lemma_filter_contains(ms, pred, j);
        let k = choose|k: int| 0 <= k < kept.len() && kept[k] == ms[j];
        assert(filtered_names(ms)[k] == runner_name(ms[j].name@));
    }
}

/// Extending the module sequence by one module extends the filtered name
/// list by that module's runner name exactly when it is a test module.
pub proof fn lemma_filtered_names_step(ms: Seq<Module>, j: int)
    requires
        0 <= j < ms.len(),
    ensures
        filtered_names(ms.take(j + 1)) == if is_test(ms[j]) {
            filtered_names(ms.take(j)).push(runner_name(ms[j].name@))
        } else {
            filtered_names(ms.take(j))
        },
{
    reveal(Seq::filter);
    let pred = |m: Module| is_test(m);
    assert(ms.take(j + 1).drop_last() =~= ms.take(j));
    assert(ms.take(j + 1).last() == ms[j]);
    if is_test(ms[j]) {
        assert(filtered_names(ms.take(j + 1)) =~= filtered_names(ms.take(j)).push(
            runner_name(ms[j].name@),
        ));
    } else {
        assert(filtered_names(ms.take(j + 1)) =~= filtered_names(ms.take(j)));
    }
}

/// Appending one package appends exactly that package's filtered names:
/// the list is the plain concatenation of the packages' contributions,
/// with no reordering, deduplication or sorting.
pub proof fn lemma_test_module_list_concat(ps: Seq<Package>, i: int)
    requires
        0 <= i < ps.len(),
    ensures
        test_module_list(ps.take(i + 1)) == test_module_list(ps.take(i)) + package_test_names(
            ps[i],
        ),
{
    broadcast use Seq::lemma_flat_map_take_append;

    assert(test_module_list(ps.take(i + 1)) == test_module_list(ps.take(i))
        + package_test_names(ps[i]));
}

/// Derives the test-module list: walks the packages in the given order,
/// keeps each package's test modules in their sequence order, and rewrites
/// each kept name into the runner's spelling.
pub fn test_module_names(packages: &Vec<Package>) -> (r: Vec<String>)
    ensures
        r@.map_values(|s: String| s@) == test_module_list(packages@),
{
    let mut out: Vec<String> = Vec::new();
    let mut i: usize = 0;
    while i < packages.len()
        invariant
            i <= packages@.len(),
            out@.map_values(|s: String| s@) == test_module_list(packages@.take(i as int)),
        decreases packages@.len() - i,
    {
        let p = &packages[i];
        let mut j: usize = 0;
        while j < p.modules.len()
            invariant
                i < packages@.len(),
                j <= p.modules@.len(),
                p == packages@[i as int],
                out@.map_values(|s: String| s@) == test_module_list(packages@.take(i as int))
                    + filtered_names(p.modules@.take(j as int)),
            decreases p.modules@.len() - j,
        {
            let m = &p.modules[j];
            let ghost prev = out@.map_values(|s: String| s@);
            if m.origin == Origin::Test {
                let name = module_runner_name(m.name.as_str());
                out.push(name);
            }
            proof {
                lemma_filtered_names_step(p.modules@, j as int);
                if is_test(p.modules@[j as int]) {
                    assert(out@.map_values(|s: String| s@) =~= prev.push(
                        runner_name(p.modules@[j as int].name@),
                    ));
                    assert(out@.map_values(|s: String| s@) =~= test_module_list(
                        packages@.take(i as int),
                    ) + filtered_names(p.modules@.take(j + 1)));
                } else {
                    assert(out@.map_values(|s: String| s@) =~= test_module_list(
                        packages@.take(i as int),
                    ) + filtered_names(p.modules@.take(j + 1)));
                }
            }
            j = j + 1;
        }
        proof {
            assert(p.modules@.take(p.modules@.len() as int) =~= p.modules@);
            lemma_test_module_list_concat(packages@, i as int);
        }
        i = i + 1;
    }
    proof {
        assert(packages@.take(packages@.len() as int) =~= packages@);
    }
    out
}

} // verus!
