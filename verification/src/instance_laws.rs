//! What an instance is built of, said of the switches and the texts that it is built by.
use vstd::prelude::*;
use vstd::string::*;
use crate::instance_builder::{
    InstanceRequest, PromptParts, RegistrationStep, ToolKind, ToolSwitches,
};

verus! {

/// The place of a step among all there are.
pub open spec fn place(step: RegistrationStep) -> int {
    match step {
        RegistrationStep::Tool(kind) => match kind {
            ToolKind::ReadFile => 0,
            ToolKind::WriteFile => 1,
            ToolKind::EditFile => 2,
            ToolKind::ListDir => 3,
            ToolKind::GlobFiles => 4,
            ToolKind::SearchText => 5,
            ToolKind::ShellExec => 6,
            ToolKind::ExecStatus => 7,
            ToolKind::ExecSend => 8,
            ToolKind::GitWorktree => 9,
            ToolKind::Checkpoint => 10,
            ToolKind::WebSearch => 11,
            ToolKind::WebFetch => 12,
            ToolKind::ArxivSearch => 13,
            ToolKind::ArxivFetch => 14,
            ToolKind::HfHubFileFetch => 15,
            ToolKind::AskUser => 16,
            ToolKind::SearchMemory => 17,
            ToolKind::FetchMemoryByDate => 18,
            ToolKind::Cron => 19,
            ToolKind::TodoWrite => 20,
            ToolKind::CompactContext => 22,
            ToolKind::RecallToolResult => 23,
            ToolKind::ExecutionSessionCreate => 24,
            ToolKind::ExecutionRun => 25,
            ToolKind::ExecutionRunBackground => 26,
            ToolKind::ExecutionJobStatus => 27,
            ToolKind::ExecutionJobResult => 28,
            ToolKind::ExecutionJobList => 29,
            ToolKind::ExecutionJobCancel => 30,
            ToolKind::ExecutionArtifactList => 31,
            ToolKind::ExecutionEnvInfo => 32,
            ToolKind::ExecutionSessionClose => 33,
            ToolKind::ExecutionCancel => 34,
            ToolKind::ExecutionReadLog => 35,
            ToolKind::ToolSearch => 38,
        },
        RegistrationStep::HostTools => 21,
        RegistrationStep::KernelPortingTools => 36,
        RegistrationStep::PluginTools => 37,
    }
}

/// The steps stand in ascending places from `lo` on and before `hi`.
pub open spec fn within(steps: Seq<RegistrationStep>, lo: int, hi: int) -> bool {
    &&& forall|i: int| 0 <= i < steps.len() ==> lo <= place(#[trigger] steps[i]) < hi
    &&& forall|i: int, j: int|
        0 <= i < j < steps.len() ==> place(#[trigger] steps[i]) < place(#[trigger] steps[j])
}

/// The list holds every step from `lo` on and before `hi`.
pub open spec fn covers(steps: Seq<RegistrationStep>, lo: int, hi: int) -> bool {
    forall|step: RegistrationStep|
        lo <= place(step) < hi ==> #[trigger] steps.contains(step)
}

/// Two lists one after the other.
proof fn lemma_append(
    a: Seq<RegistrationStep>,
    b: Seq<RegistrationStep>,
    lo: int,
    mid: int,
    hi: int,
)
    requires
        lo <= mid <= hi,
        within(a, lo, mid),
        within(b, mid, hi),
    ensures
        within(a + b, lo, hi),
        forall|step: RegistrationStep| #[trigger]
            (a + b).contains(step) <==> a.contains(step) || b.contains(step),
{
    let all = a + b;
    assert forall|i: int| 0 <= i < all.len() implies lo <= place(#[trigger] all[i]) < hi by {
        if i < a.len() {
            assert(all[i] == a[i]);
        } else {
            assert(all[i] == b[i - a.len()]);
        }
    }
    assert forall|i: int, j: int| 0 <= i < j < all.len() implies place(#[trigger] all[i]) < place(
        #[trigger] all[j],
    ) by {
        if j < a.len() {
            assert(all[i] == a[i] && all[j] == a[j]);
        } else if i < a.len() {
            assert(all[i] == a[i] && all[j] == b[j - a.len()]);
        } else {
            assert(all[i] == b[i - a.len()] && all[j] == b[j - a.len()]);
        }
    }
    assert forall|step: RegistrationStep| #[trigger]
        all.contains(step) <==> a.contains(step) || b.contains(step) by {
        if a.contains(step) {
            let i = choose|i: int| 0 <= i < a.len() && a[i] == step;
            assert(all[i] == step);
        }
        if b.contains(step) {
            let i = choose|i: int| 0 <= i < b.len() && b[i] == step;
            assert(all[a.len() + i] == step);
        }
        if all.contains(step) {
            let i = choose|i: int| 0 <= i < all.len() && all[i] == step;
            if i < a.len() {
                assert(a[i] == step);
            } else {
                assert(b[i - a.len()] == step);
            }
        }
    }
}

/// A list in which the step of each place stands where it belongs.
proof fn lemma_full(steps: Seq<RegistrationStep>, lo: int, hi: int)
    requires
        steps.len() == hi - lo,
        forall|i: int| 0 <= i < steps.len() ==> place(#[trigger] steps[i]) == lo + i,
    ensures
        within(steps, lo, hi),
        covers(steps, lo, hi),
{
    assert forall|step: RegistrationStep| lo <= place(step) < hi implies
        #[trigger] steps.contains(step) by {
        let found = steps[place(step) - lo];
        assert(place(found) == place(step));
        assert(found == step);
    }
}

/// The parts of the list, each in its places.
proof fn lemma_parts()
    ensures
        within(crate::instance_builder::sandbox_steps(), 0, 9),
        covers(crate::instance_builder::sandbox_steps(), 0, 9),
        within(crate::instance_builder::research_steps(), 11, 19),
        covers(crate::instance_builder::research_steps(), 11, 19),
        within(crate::instance_builder::execution_steps(), 24, 36),
        covers(crate::instance_builder::execution_steps(), 24, 36),
{
    lemma_full(crate::instance_builder::sandbox_steps(), 0, 9);
    lemma_full(crate::instance_builder::research_steps(), 11, 19);
    lemma_full(crate::instance_builder::execution_steps(), 24, 36);
}

/// A list that is there where its switch is on.
proof fn lemma_when(on: bool, steps: Seq<RegistrationStep>, lo: int, hi: int)
    requires
        within(steps, lo, hi),
        covers(steps, lo, hi),
    ensures
        within(crate::instance_builder::when(on, steps), lo, hi),
        forall|step: RegistrationStep| #[trigger]
            crate::instance_builder::when(on, steps).contains(step) <==> on && lo <= place(step)
                < hi,
{
}

/// Which steps fill the registry, and in what order: each stands once, in its place. The file,
/// search and shell tools, the research tools, the list of tasks, the host's and the plugins' tools
/// and the context tools are always there; the worktree, the checkpoint, the execution and the
/// kernel porting tools where their switch is on, and the schedule where it is not suppressed.
pub proof fn law_registry_follows_the_switches(switches: ToolSwitches, suppress_cron: bool)
    ensures
        within(crate::instance_builder::registration(switches, suppress_cron), 0, 39),
        forall|step: RegistrationStep| #[trigger]
            crate::instance_builder::registration(switches, suppress_cron).contains(step) <==> {
                &&& step == RegistrationStep::Tool(ToolKind::GitWorktree) ==> switches.git_worktree
                &&& step == RegistrationStep::Tool(ToolKind::Checkpoint) ==> switches.checkpoint
                &&& step == RegistrationStep::Tool(ToolKind::Cron) ==> !suppress_cron
                &&& 24 <= place(step) < 36 ==> switches.execution_harness
                &&& step == RegistrationStep::KernelPortingTools ==> switches.kernel_porting
            },
{
    lemma_parts();
    let worktree = seq![RegistrationStep::Tool(ToolKind::GitWorktree)];
    let checkpoint = seq![RegistrationStep::Tool(ToolKind::Checkpoint)];
    let cron = seq![RegistrationStep::Tool(ToolKind::Cron)];
    let core = seq![
        RegistrationStep::Tool(ToolKind::TodoWrite),
        RegistrationStep::HostTools,
        RegistrationStep::Tool(ToolKind::CompactContext),
        RegistrationStep::Tool(ToolKind::RecallToolResult),
    ];
    let porting = seq![RegistrationStep::KernelPortingTools];
    let ending = seq![RegistrationStep::PluginTools, RegistrationStep::Tool(ToolKind::ToolSearch)];
    lemma_full(worktree, 9, 10);
    lemma_full(checkpoint, 10, 11);
    lemma_full(cron, 19, 20);
    lemma_full(core, 20, 24);
    lemma_full(porting, 36, 37);
    lemma_full(ending, 37, 39);
    let execution = crate::instance_builder::execution_steps();
    let b = crate::instance_builder::when(switches.git_worktree, worktree);
    let c = crate::instance_builder::when(switches.checkpoint, checkpoint);
    let e = crate::instance_builder::when(!suppress_cron, cron);
    let g = crate::instance_builder::when(switches.execution_harness, execution);
    let h = crate::instance_builder::when(switches.kernel_porting, porting);
    lemma_when(switches.git_worktree, worktree, 9, 10);
    lemma_when(switches.checkpoint, checkpoint, 10, 11);
    lemma_when(!suppress_cron, cron, 19, 20);
    lemma_when(switches.execution_harness, execution, 24, 36);
    lemma_when(switches.kernel_porting, porting, 36, 37);
    let one = crate::instance_builder::sandbox_steps() + b;
    lemma_append(crate::instance_builder::sandbox_steps(), b, 0, 9, 10);
    let two = one + c;
    lemma_append(one, c, 0, 10, 11);
    let three = two + crate::instance_builder::research_steps();
    lemma_append(two, crate::instance_builder::research_steps(), 0, 11, 19);
    let four = three + e;
    lemma_append(three, e, 0, 19, 20);
    let five = four + core;
    lemma_append(four, core, 0, 20, 24);
    let six = five + g;
    lemma_append(five, g, 0, 24, 36);
    let seven = six + h;
    lemma_append(six, h, 0, 36, 37);
    let all = seven + ending;
    lemma_append(seven, ending, 0, 37, 39);
    assert(all == crate::instance_builder::registration(switches, suppress_cron));
    assert forall|step: RegistrationStep| #[trigger] all.contains(step) implies {
        &&& step == RegistrationStep::Tool(ToolKind::GitWorktree) ==> switches.git_worktree
        &&& step == RegistrationStep::Tool(ToolKind::Checkpoint) ==> switches.checkpoint
        &&& step == RegistrationStep::Tool(ToolKind::Cron) ==> !suppress_cron
        &&& 24 <= place(step) < 36 ==> switches.execution_harness
        &&& step == RegistrationStep::KernelPortingTools ==> switches.kernel_porting
    } by {
        lemma_part_of(crate::instance_builder::sandbox_steps(), 0, 9, step);
        lemma_part_of(crate::instance_builder::research_steps(), 11, 19, step);
        lemma_part_of(core, 20, 24, step);
        lemma_part_of(ending, 37, 39, step);
        lemma_part_of(b, 9, 10, step);
        lemma_part_of(c, 10, 11, step);
        lemma_part_of(e, 19, 20, step);
        lemma_part_of(g, 24, 36, step);
        lemma_part_of(h, 36, 37, step);
    }
    assert forall|step: RegistrationStep|
        {
            &&& step == RegistrationStep::Tool(ToolKind::GitWorktree) ==> switches.git_worktree
            &&& step == RegistrationStep::Tool(ToolKind::Checkpoint) ==> switches.checkpoint
            &&& step == RegistrationStep::Tool(ToolKind::Cron) ==> !suppress_cron
            &&& 24 <= place(step) < 36 ==> switches.execution_harness
            &&& step == RegistrationStep::KernelPortingTools ==> switches.kernel_porting
        } implies #[trigger] all.contains(step) by {
        let at = place(step);
        assert(0 <= at < 39);
        if at < 9 {
            assert(crate::instance_builder::sandbox_steps().contains(step));
        } else if at == 9 {
            assert(b.contains(step));
        } else if at == 10 {
            assert(c.contains(step));
        } else if at < 19 {
            assert(crate::instance_builder::research_steps().contains(step));
        } else if at == 19 {
            assert(e.contains(step));
        } else if at < 24 {
            assert(core.contains(step));
        } else if at < 36 {
            assert(g.contains(step));
        } else if at == 36 {
            assert(h.contains(step));
        } else {
            assert(ending.contains(step));
        }
        assert(one.contains(step) ==> two.contains(step));
        assert(two.contains(step) ==> three.contains(step));
        assert(three.contains(step) ==> four.contains(step));
        assert(four.contains(step) ==> five.contains(step));
        assert(five.contains(step) ==> six.contains(step));
        assert(six.contains(step) ==> seven.contains(step));
        assert(seven.contains(step) ==> all.contains(step));
    }
}

/// A step of a list stands within its places.
proof fn lemma_part_of(steps: Seq<RegistrationStep>, lo: int, hi: int, step: RegistrationStep)
    requires
        within(steps, lo, hi),
    ensures
        steps.contains(step) ==> lo <= place(step) < hi,
{
    if steps.contains(step) {
        let i = choose|i: int| 0 <= i < steps.len() && steps[i] == step;
        assert(lo <= place(steps[i]) < hi);
    }
}

/// The prompt is the workspace's, with the overlays of plugins and of the harness and the persona
/// behind it, in that order, each behind a blank line; what is not given leaves no trace.
pub proof fn law_prompt_is_put_together_in_order(parts: PromptParts)
    ensures
        ({
            let prompt = crate::instance_builder::base_prompt(parts);
            let start = parts.workspace_prompt@ + parts.plugin_overlays@;
            &&& parts.harness_overlay is None && parts.persona is None ==> prompt == start
            &&& parts.harness_overlay is Some && parts.persona is None ==> prompt == start
                + "\n\n"@ + parts.harness_overlay->0@
            &&& parts.harness_overlay is None && parts.persona is Some ==> prompt == start
                + "\n\n## Persona\n\n"@ + parts.persona->0@
            &&& parts.harness_overlay is Some && parts.persona is Some ==> prompt == start
                + "\n\n"@ + parts.harness_overlay->0@ + "\n\n## Persona\n\n"@ + parts.persona->0@
        }),
{
    let prompt = crate::instance_builder::base_prompt(parts);
    let start = parts.workspace_prompt@ + parts.plugin_overlays@;
    match (parts.harness_overlay, parts.persona) {
        (None, None) => {
            assert(prompt =~= start);
        },
        (Some(overlay), None) => {
            assert(prompt =~= start + "\n\n"@ + overlay@);
        },
        (None, Some(persona)) => {
            assert(prompt =~= start + "\n\n## Persona\n\n"@ + persona@);
        },
        (Some(overlay), Some(persona)) => {
            assert(prompt =~= start + "\n\n"@ + overlay@ + "\n\n## Persona\n\n"@ + persona@);
        },
    }
}

/// A workspace with a parent works there; one without, where it falls back to.
pub proof fn law_parent_goes_before_the_fallback<M>(request: InstanceRequest<M>, fallback: String)
    ensures
        request.workspace_parent is Some ==> crate::instance_builder::parent_or(request, fallback)
            == request.workspace_parent->0,
        request.workspace_parent is None ==> crate::instance_builder::parent_or(request, fallback)
            == fallback,
{
}

/// A path inside a directory ends with the name and begins with the directory, with exactly one
/// slash between them; no directory adds nothing.
pub proof fn law_name_stands_behind_one_slash(dir: Seq<char>, name: Seq<char>)
    ensures
        ({
            let path = crate::instance_builder::inside(dir, name);
            &&& dir.len() == 0 ==> path == name
            &&& dir.len() > 0 ==> path.take(dir.len() as int) == dir
            &&& path.skip(path.len() - name.len()) == name
            &&& dir.len() > 0 ==> path[path.len() - name.len() - 1] == '/'
            &&& dir.len() > 0 && dir.last() == '/' ==> path.len() == dir.len() + name.len()
            &&& dir.len() > 0 && dir.last() != '/' ==> path.len() == dir.len() + 1 + name.len()
        }),
{
    reveal_strlit("/");
    let path = crate::instance_builder::inside(dir, name);
    assert("/"@.len() == 1 && "/"@[0] == '/');
    assert(path.skip(path.len() - name.len()) =~= name);
    if dir.len() > 0 {
        assert(path.take(dir.len() as int) =~= dir);
    }
}

} // verus!
