//! The shape of the acquisition pipeline: checks on its configuration,
//! the tree of sorters that merges the inputs' event streams, and the
//! handle to a running pipeline.

use vstd::prelude::*;

verus! {

/// What the program keeps of a started pipeline: the name under which its
/// shared-memory segment and control socket are reachable.
pub struct PipelineHandle {
    ipc_name: String,
}

impl PipelineHandle {
    pub closed spec fn spec_ipc_name(&self) -> Seq<char> {
        self.ipc_name@
    }

    pub fn new(ipc_name: String) -> (h: PipelineHandle)
        ensures
            h.spec_ipc_name() == ipc_name@,
    {
        PipelineHandle { ipc_name }
    }

    /// Name of the control socket.
    pub fn ipc_name(&self) -> (s: &str)
        ensures
            s@ == self.spec_ipc_name(),
    {
        self.ipc_name.as_str()
    }

    /// Name of the shared-memory segment: the same as the socket's.
    pub fn shm_name(&self) -> (s: &str)
        ensures
            s@ == self.spec_ipc_name(),
    {
        self.ipc_name.as_str()
    }
}

/// Why a pipeline cannot be built from its configuration.
#[derive(Debug, Clone, PartialEq, Eq)]
pub enum PipelineError {
    NoInputs,
    /// More inputs than allowed: the number given and the limit.
    TooManyInputs(usize, usize),
    /// A module name used twice: the kind and name of the second use, and
    /// the kind of the first.
    DuplicateName { kind: ModuleKind, name: String, prev: ModuleKind },
    NoDefaultMode,
}

/// The kinds of named modules, in the order their names are checked.
#[derive(Debug, Clone, Copy, PartialEq, Eq, Structural)]
pub enum ModuleKind {
    Input,
    Output,
    ProcessMode,
    InputRecipe,
}

/// There must be at least one input, and at most `max_inputs`.
pub fn check_input_count(n: usize, max_inputs: usize) -> (r: Result<(), PipelineError>)
    ensures
        n == 0 ==> r == Err::<(), PipelineError>(PipelineError::NoInputs),
        0 < n <= max_inputs ==> r is Ok,
        0 < n && n > max_inputs ==> r == Err::<(), PipelineError>(PipelineError::TooManyInputs(n, max_inputs)),
{
    if n == 0 {
        Err(PipelineError::NoInputs)
    } else if n > max_inputs {
        Err(PipelineError::TooManyInputs(n, max_inputs))
    } else {
        Ok(())
    }
}

/// All module names with their kinds, in checking order: inputs, outputs,
/// process modes, input recipes.
pub open spec fn all_names(
    inputs: Seq<String>,
    outputs: Seq<String>,
    modes: Seq<String>,
    recipes: Seq<String>,
) -> Seq<(ModuleKind, Seq<char>)> {
    inputs.map_values(|n: String| (ModuleKind::Input, n@)) + outputs.map_values(
        |n: String| (ModuleKind::Output, n@),
    ) + modes.map_values(|n: String| (ModuleKind::ProcessMode, n@)) + recipes.map_values(
        |n: String| (ModuleKind::InputRecipe, n@),
    )
}

/// The name at `j` was used before, at `i`.
pub open spec fn repeats(s: Seq<(ModuleKind, Seq<char>)>, i: int, j: int) -> bool {
    0 <= i < j < s.len() && s[i].1 == s[j].1
}

fn tag_names(out: &mut Vec<(ModuleKind, String)>, names: &Vec<String>, kind: ModuleKind)
    ensures
        final(out)@.map_values(|p: (ModuleKind, String)| (p.0, p.1@)) == old(out)@.map_values(
            |p: (ModuleKind, String)| (p.0, p.1@),
        ) + names@.map_values(|n: String| (kind, n@)),
{
    let mut i: usize = 0;
    while i < names.len()
        invariant
            i <= names@.len(),
            out@.map_values(|p: (ModuleKind, String)| (p.0, p.1@)) == old(out)@.map_values(
                |p: (ModuleKind, String)| (p.0, p.1@),
            ) + names@.subrange(0, i as int).map_values(|n: String| (kind, n@)),
        decreases names@.len() - i,
    {
        let ghost before = out@;
        out.push((kind, names[i].clone()));
        proof {
            assert(out@.map_values(|p: (ModuleKind, String)| (p.0, p.1@)) =~= before.map_values(
                |p: (ModuleKind, String)| (p.0, p.1@),
            ).push((kind, names@[i as int]@)));
            assert(names@.subrange(0, i + 1).map_values(|n: String| (kind, n@)) =~= names@.subrange(
                0,
                i as int,
            ).map_values(|n: String| (kind, n@)).push((kind, names@[i as int]@)));
        }
        i = i + 1;
    }
    assert(names@.subrange(0, i as int) =~= names@);
}

/// Module names must be unique across inputs, outputs, process modes and
/// input recipes.  The first name, in checking order, that was used before
/// is reported with its kind and the kind of its earlier use.
pub fn check_module_names(
    inputs: &Vec<String>,
    outputs: &Vec<String>,
    modes: &Vec<String>,
    recipes: &Vec<String>,
) -> (r: Result<(), PipelineError>)
    ensures
        ({
            let s = all_names(inputs@, outputs@, modes@, recipes@);
            match r {
                Ok(()) => forall|i: int, j: int| !repeats(s, i, j),
                Err(PipelineError::DuplicateName { kind, name, prev }) => exists|i: int, j: int|
                    {
                        &&& #[trigger] repeats(s, i, j)
                        &&& s[j] == (kind, name@)
                        &&& s[i].0 == prev
                        &&& forall|a: int, b: int| repeats(s, a, b) ==> b >= j
                    },
                Err(_) => false,
            }
        }),
{
    let mut all: Vec<(ModuleKind, String)> = Vec::new();
    tag_names(&mut all, inputs, ModuleKind::Input);
    tag_names(&mut all, outputs, ModuleKind::Output);
    tag_names(&mut all, modes, ModuleKind::ProcessMode);
    tag_names(&mut all, recipes, ModuleKind::InputRecipe);
    let ghost s = all_names(inputs@, outputs@, modes@, recipes@);
    let ghost v = all@.map_values(|p: (ModuleKind, String)| (p.0, p.1@));
    assert(v =~= s);
    let mut j: usize = 0;
    while j < all.len()
        invariant
            j <= all@.len(),
            v == all@.map_values(|p: (ModuleKind, String)| (p.0, p.1@)),
            v == s,
            s == all_names(inputs@, outputs@, modes@, recipes@),
            forall|a: int, b: int| repeats(s, a, b) ==> b >= j,
        decreases all@.len() - j,
    {
        let mut i: usize = 0;
        while i < j
            invariant
                i <= j < all@.len(),
                v == all@.map_values(|p: (ModuleKind, String)| (p.0, p.1@)),
                v == s,
                s == all_names(inputs@, outputs@, modes@, recipes@),
                forall|a: int, b: int| repeats(s, a, b) ==> b >= j,
                forall|a: int| 0 <= a < i ==> !repeats(s, a, j as int),
            decreases j - i,
        {
            if all[i].1 == all[j].1 {
                assert(v[i as int] == (all@[i as int].0, all@[i as int].1@));
                assert(v[j as int] == (all@[j as int].0, all@[j as int].1@));
                assert(repeats(s, i as int, j as int));
                let name = all[j].1.clone();
                let kind = all[j].0;
                let prev = all[i].0;
                assert(s[j as int] == (kind, name@));
                assert(s[i as int].0 == prev);
                assert(exists|i2: int, j2: int|
                    {
                        &&& #[trigger] repeats(s, i2, j2)
                        &&& s[j2] == (kind, name@)
                        &&& s[i2].0 == prev
                        &&& forall|a: int, b: int| repeats(s, a, b) ==> b >= j2
                    }) by {
                    assert(repeats(s, i as int, j as int));
                }
                return Err(PipelineError::DuplicateName { kind, name, prev });
            }
            assert(v[i as int] == (all@[i as int].0, all@[i as int].1@));
            assert(v[j as int] == (all@[j as int].0, all@[j as int].1@));
            i = i + 1;
        }
        j = j + 1;
    }
    Ok(())
}

/// Whether the default process mode is among the configured ones.
pub fn has_default_mode(modes: &Vec<String>, default: &str) -> (r: bool)
    ensures
        r == exists|i: int| 0 <= i < modes@.len() && #[trigger] modes@[i]@ == default@,
{
    let mut i: usize = 0;
    while i < modes.len()
        invariant
            i <= modes@.len(),
            forall|k: int| 0 <= k < i ==> modes@[k]@ != default@,
        decreases modes@.len() - i,
    {
        if crate::text::chars_eq_str(&crate::text::str_to_chars(modes[i].as_str()), default) {
            return true;
        }
        i = i + 1;
    }
    false
}

/// A sorter merges the event streams `first` and `second` into `output`,
/// a new stream, or the final one (`None`).  Streams `0..n` are the
/// inputs' own.
#[derive(Debug, Clone, Copy, PartialEq, Eq, Structural)]
pub struct SorterNode {
    pub first: usize,
    pub second: usize,
    pub output: Option<usize>,
}

/// The sorters that merge the streams on the stack `stack` (top last),
/// numbering new streams from `next`: the top two are merged, into the
/// final stream if they were the last two, else into a new stream pushed
/// on the stack.
pub open spec fn sorter_plan(stack: Seq<usize>, next: int) -> Seq<SorterNode>
    decreases stack.len(),
{
    if stack.len() <= 1 {
        seq![]
    } else {
        let a = stack.last();
        let b = stack.drop_last().last();
        let rest = stack.drop_last().drop_last();
        if rest.len() == 0 {
            seq![SorterNode { first: a, second: b, output: None }]
        } else {
            seq![SorterNode { first: a, second: b, output: Some(next as usize) }] + sorter_plan(
                rest.push(next as usize),
                next + 1,
            )
        }
    }
}

/// One round of pairing the streams `ids` in order: the first with the
/// second, the third with the fourth, and so on, each pair into a new
/// stream numbered from `next`.
pub open spec fn pair_round(ids: Seq<usize>, next: int) -> Seq<SorterNode> {
    Seq::new(
        (ids.len() / 2) as nat,
        |k: int| SorterNode { first: ids[2 * k], second: ids[2 * k + 1], output: Some((next + k) as usize) },
    )
}

/// The streams left after a round: the new ones, then an odd one out.
pub open spec fn round_out(ids: Seq<usize>, next: int) -> Seq<usize> {
    Seq::new((ids.len() / 2) as nat, |k: int| (next + k) as usize) + (if ids.len() % 2 == 1 {
        seq![ids.last()]
    } else {
        seq![]
    })
}

/// The sorters of a balanced tree over the streams `ids`: rounds of
/// pairing until two streams are left, which are merged into the final
/// stream.
pub open spec fn balanced_plan(ids: Seq<usize>, next: int) -> Seq<SorterNode>
    decreases ids.len(),
{
    if ids.len() <= 1 {
        seq![]
    } else if ids.len() == 2 {
        seq![SorterNode { first: ids[0], second: ids[1], output: None }]
    } else {
        pair_round(ids, next) + balanced_plan(round_out(ids, next), next + ids.len() / 2)
    }
}

/// The sorters of a balanced tree for `n` inputs.
pub fn balanced_sorter_tree(n: usize) -> (plan: Vec<SorterNode>)
    requires
        n < usize::MAX / 2,
    ensures
        plan@ == balanced_plan(Seq::new(n as nat, |i: int| i as usize), n as int),
{
    let mut ids: Vec<usize> = Vec::new();
    let mut k: usize = 0;
    while k < n
        invariant
            k <= n,
            ids@ == Seq::new(k as nat, |i: int| i as usize),
        decreases n - k,
    {
        ids.push(k);
        proof {
            assert(ids@ =~= Seq::new((k + 1) as nat, |i: int| i as usize));
        }
        k = k + 1;
    }
    let ghost whole = balanced_plan(ids@, n as int);
    let mut next: usize = n;
    let mut plan: Vec<SorterNode> = Vec::new();
    while ids.len() > 2
        invariant
            plan@ + balanced_plan(ids@, next as int) == whole,
            next + ids@.len() <= 2 * n + 1,
            n < usize::MAX / 2,
        decreases ids@.len(),
    {
        let ghost cur = ids@;
        let half = ids.len() / 2;
        let mut out: Vec<usize> = Vec::new();
        let ghost before = plan@;
        let mut j: usize = 0;
        while j < half
            invariant
                half == cur.len() / 2,
                ids@ == cur,
                j <= half,
                next + cur.len() <= 2 * n + 1,
                n < usize::MAX / 2,
                plan@ == before + pair_round(cur, next as int).subrange(0, j as int),
                out@ == Seq::new(j as nat, |i: int| (next + i) as usize),
            decreases half - j,
        {
            plan.push(SorterNode { first: ids[2 * j], second: ids[2 * j + 1], output: Some(next + j) });
            out.push(next + j);
            proof {
                assert(pair_round(cur, next as int).subrange(0, j + 1) =~= pair_round(cur, next as int).subrange(0, j as int).push(
                    pair_round(cur, next as int)[j as int],
                ));
                assert(out@ =~= Seq::new((j + 1) as nat, |i: int| (next + i) as usize));
            }
            j = j + 1;
        }
        if ids.len() % 2 == 1 {
            out.push(ids[ids.len() - 1]);
        }
        proof {
            assert(pair_round(cur, next as int).subrange(0, half as int) =~= pair_round(cur, next as int));
            assert(out@ =~= round_out(cur, next as int));
            assert(plan@ + balanced_plan(out@, next + half) =~= whole);
        }
        ids = out;
        next = next + half;
    }
    if ids.len() == 2 {
        plan.push(SorterNode { first: ids[0], second: ids[1], output: None });
    }
    proof {
        assert(plan@ =~= whole);
    }
    plan
}

proof fn lemma_sorter_plan_shape(stack: Seq<usize>, next: int)
    requires
        stack.len() >= 1,
    ensures
        sorter_plan(stack, next).len() == stack.len() - 1,
        stack.len() >= 2 ==> sorter_plan(stack, next).last().output is None,
        forall|k: int| 0 <= k < stack.len() - 2 ==> #[trigger] sorter_plan(stack, next)[k].output == Some((next + k) as usize),
    decreases stack.len(),
{
    if stack.len() >= 3 {
        let rest = stack.drop_last().drop_last();
        lemma_sorter_plan_shape(rest.push(next as usize), next + 1);
        let tail = sorter_plan(rest.push(next as usize), next + 1);
        assert forall|k: int| 0 <= k < stack.len() - 2 implies #[trigger] sorter_plan(stack, next)[k].output
            == Some((next + k) as usize) by {
            if k > 0 {
                assert(sorter_plan(stack, next)[k] == tail[k - 1]);
            }
        }
    }
}

/// With `n` inputs, `n - 1` sorters merge their streams: the last one into
/// the final stream, each other one into a new stream of its own.
pub proof fn law_sorter_tree_shape(n: nat)
    requires
        n >= 1,
    ensures
        ({
            let plan = sorter_plan(Seq::new(n, |i: int| i as usize), n as int);
            &&& plan.len() == n - 1
            &&& n >= 2 ==> plan.last().output is None
            &&& forall|k: int| 0 <= k < n - 2 ==> #[trigger] plan[k].output == Some((n + k) as usize)
        }),
{
    lemma_sorter_plan_shape(Seq::new(n, |i: int| i as usize), n as int);
}

/// The sorters for `n` inputs: with more than one input, their streams are
/// merged pairwise until one remains, which feeds the final stream.
pub fn sorter_tree(n: usize) -> (plan: Vec<SorterNode>)
    requires
        n < usize::MAX / 2,
    ensures
        plan@ == sorter_plan(Seq::new(n as nat, |i: int| i as usize), n as int),
{
    let mut stack: Vec<usize> = Vec::new();
    let mut k: usize = 0;
    while k < n
        invariant
            k <= n,
            stack@ == Seq::new(k as nat, |i: int| i as usize),
        decreases n - k,
    {
        stack.push(k);
        proof {
            assert(stack@ =~= Seq::new((k + 1) as nat, |i: int| i as usize));
        }
        k = k + 1;
    }
    let ghost whole = sorter_plan(stack@, n as int);
    let mut next: usize = n;
    let mut plan: Vec<SorterNode> = Vec::new();
    while stack.len() > 1
        invariant
            plan@ + sorter_plan(stack@, next as int) == whole,
            next + stack@.len() <= 2 * n + 1,
            n < usize::MAX / 2,
        decreases stack@.len(),
    {
        let ghost st = stack@;
        let a = match stack.pop() {
            Some(x) => x,
            None => {
                proof {
                    assert(false);
                }
                0
            },
        };
        let b = match stack.pop() {
            Some(x) => x,
            None => {
                proof {
                    assert(false);
                }
                0
            },
        };
        assert(a == st.last() && b == st.drop_last().last());
        assert(stack@ == st.drop_last().drop_last());
        if stack.len() == 0 {
            plan.push(SorterNode { first: a, second: b, output: None });
            proof {
                assert(sorter_plan(stack@, next as int) =~= seq![]);
                assert(plan@ + sorter_plan(stack@, next as int) =~= whole);
            }
        } else {
            let ghost before = plan@;
            plan.push(SorterNode { first: a, second: b, output: Some(next) });
            stack.push(next);
            proof {
                assert(plan@ + sorter_plan(stack@, next + 1) =~= before + sorter_plan(st, next as int));
            }
            next = next + 1;
        }
    }
    proof {
        assert(sorter_plan(stack@, next as int) =~= seq![]);
        assert(plan@ =~= whole);
    }
    plan
}

} // verus!
