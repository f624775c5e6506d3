//! What an agent instance is built from: tools, prompts, limits, policies and message routing.
use vstd::prelude::*;
use vstd::string::*;
use crate::outside;
use crate::text;

verus! {

/// Host knobs of the shared instance builder.
pub struct SharedInstanceHooks {
    pub checkpoint_root: Option<String>,
    pub scripted_responses: Option<Vec<String>>,
    /// `"tauri"` or `"stdio"`.
    pub channel_name: &'static str,
    /// Withhold the agent-facing `cron` tool because canonical scheduling owns this workspace.
    pub suppress_agent_cron: bool,
}

impl Default for SharedInstanceHooks {
    fn default() -> (r: Self)
        ensures
            r.checkpoint_root is None,
            r.scripted_responses is None,
            r.channel_name@ == "tauri"@,
            !r.suppress_agent_cron,
    {
        SharedInstanceHooks {
            checkpoint_root: None,
            scripted_responses: None,
            channel_name: "tauri",
            suppress_agent_cron: false,
        }
    }
}

/// The channel that carries an instance's messages.
#[derive(Clone, Copy, Debug, PartialEq, Eq, Structural)]
pub enum ChannelKind {
    Stdio,
    Tauri,
}

impl SharedInstanceHooks {
    /// The channel of the instance: stdio by its name, the desktop channel for any other name.
    pub fn channel_kind(&self) -> (r: ChannelKind)
        ensures
            r == if self.channel_name@ == "stdio"@ {
                ChannelKind::Stdio
            } else {
                ChannelKind::Tauri
            },
    {
        if text::same(self.channel_name, "stdio") {
            ChannelKind::Stdio
        } else {
            ChannelKind::Tauri
        }
    }
}

/// The concrete tools that the builder registers.
#[derive(Clone, Copy, Debug, PartialEq, Eq, Structural)]
pub enum ToolKind {
    ReadFile,
    WriteFile,
    EditFile,
    ListDir,
    GlobFiles,
    SearchText,
    ShellExec,
    ExecStatus,
    ExecSend,
    GitWorktree,
    Checkpoint,
    WebSearch,
    WebFetch,
    ArxivSearch,
    ArxivFetch,
    HfHubFileFetch,
    AskUser,
    SearchMemory,
    FetchMemoryByDate,
    Cron,
    TodoWrite,
    CompactContext,
    RecallToolResult,
    ExecutionSessionCreate,
    ExecutionRun,
    ExecutionRunBackground,
    ExecutionJobStatus,
    ExecutionJobResult,
    ExecutionJobList,
    ExecutionJobCancel,
    ExecutionArtifactList,
    ExecutionEnvInfo,
    ExecutionSessionClose,
    ExecutionCancel,
    ExecutionReadLog,
    ToolSearch,
}

/// One step of filling an instance's tool registry.
#[derive(Clone, Copy, Debug, PartialEq, Eq, Structural)]
pub enum RegistrationStep {
    /// Register a concrete tool.
    Tool(ToolKind),
    /// Let the host add the tools of its own.
    HostTools,
    /// Register the kernel porting tools.
    KernelPortingTools,
    /// Register the tools that plugins advertise.
    PluginTools,
}

/// The steps that fill a tool registry, in the order in which they are taken.
pub struct ToolRegistry {
    pub steps: Vec<RegistrationStep>,
}

impl ToolRegistry {
    /// A registry without tools.
    pub fn new() -> (r: Self)
        ensures
            r.steps@ == Seq::<RegistrationStep>::empty(),
    {
        ToolRegistry { steps: Vec::new() }
    }

    /// Registers one tool after those before it.
    pub fn register(&mut self, tool: ToolKind)
        ensures
            final(self).steps@ == old(self).steps@.push(RegistrationStep::Tool(tool)),
    {
        self.steps.push(RegistrationStep::Tool(tool));
    }

    /// Whether a tool is registered by one of the steps.
    pub fn has_tool(&self, tool: ToolKind) -> (r: bool)
        ensures
            r == self.steps@.contains(RegistrationStep::Tool(tool)),
    {
        let mut i: usize = 0;
        while i < self.steps.len()
            invariant
                i <= self.steps@.len(),
                forall|k: int| 0 <= k < i ==> self.steps@[k] != RegistrationStep::Tool(tool),
            decreases self.steps@.len() - i,
        {
            if self.steps[i] == RegistrationStep::Tool(tool) {
                assert(self.steps@[i as int] == RegistrationStep::Tool(tool));
                return true;
            }
            i = i + 1;
        }
        false
    }
}

/// The step that registers a tool.
pub open spec fn tool(kind: ToolKind) -> RegistrationStep {
    RegistrationStep::Tool(kind)
}

/// The steps of a part of the registry that is there only when it is switched on.
pub open spec fn when(on: bool, steps: Seq<RegistrationStep>) -> Seq<RegistrationStep> {
    if on {
        steps
    } else {
        Seq::empty()
    }
}

/// Registers the agent-facing `cron` tool unless canonical scheduling owns the workspace.
pub fn register_cron_tool(tools: &mut ToolRegistry, hooks: &SharedInstanceHooks)
    ensures
        final(tools).steps@ == old(tools).steps@ + when(
            !hooks.suppress_agent_cron,
            seq![tool(ToolKind::Cron)],
        ),
{
    if hooks.suppress_agent_cron {
        return;
    }
    tools.register(ToolKind::Cron);
    assert(tools.steps@ =~= old(tools).steps@ + seq![tool(ToolKind::Cron)]);
}

/// Registers the question and memory tools.
pub fn register_existing_claw_tools(tools: &mut ToolRegistry)
    ensures
        final(tools).steps@ == old(tools).steps@ + seq![
            tool(ToolKind::AskUser),
            tool(ToolKind::SearchMemory),
            tool(ToolKind::FetchMemoryByDate),
        ],
{
    tools.register(ToolKind::AskUser);
    tools.register(ToolKind::SearchMemory);
    tools.register(ToolKind::FetchMemoryByDate);
}

/// What is done about the process-wide checkpoint store, which is set once.
pub struct CheckpointPlan {
    /// The root at which the store is initialised now.
    pub init_root: Option<String>,
    /// No root is configured, so edits cannot be undone.
    pub undo_disabled: bool,
    /// The checkpoint tool is registered.
    pub register_tool: bool,
}

/// Checkpoints are on by default. The store is initialised only while it is down and a root is
/// configured, and the tool is registered only while the store is up.
pub fn checkpoint_plan(enabled: Option<bool>, store_active: bool, root: &Option<String>) -> (r:
    CheckpointPlan)
    ensures
        ({
            let on = enabled.unwrap_or(true);
            &&& r.init_root == if on && !store_active {
                *root
            } else {
                None
            }
            &&& r.undo_disabled == (on && !store_active && root is None)
            &&& r.register_tool == (on && (store_active || root is Some))
        }),
{
    if !enabled.unwrap_or(true) {
        return CheckpointPlan { init_root: None, undo_disabled: false, register_tool: false };
    }
    if store_active {
        return CheckpointPlan { init_root: None, undo_disabled: false, register_tool: true };
    }
    match root {
        Some(path) => CheckpointPlan {
            init_root: Some(path.clone()),
            undo_disabled: false,
            register_tool: true,
        },
        None => CheckpointPlan { init_root: None, undo_disabled: true, register_tool: false },
    }
}

/// The switches of the workspace configuration that decide which tools an instance has.
#[derive(Clone, Copy, Debug, PartialEq, Eq, Structural)]
pub struct ToolSwitches {
    pub git_worktree: bool,
    pub checkpoint: bool,
    pub execution_harness: bool,
    pub kernel_porting: bool,
}

/// The file, search and shell tools.
pub open spec fn sandbox_steps() -> Seq<RegistrationStep> {
    seq![
        tool(ToolKind::ReadFile),
        tool(ToolKind::WriteFile),
        tool(ToolKind::EditFile),
        tool(ToolKind::ListDir),
        tool(ToolKind::GlobFiles),
        tool(ToolKind::SearchText),
        tool(ToolKind::ShellExec),
        tool(ToolKind::ExecStatus),
        tool(ToolKind::ExecSend),
    ]
}

/// The research tools, followed by the question and memory tools.
pub open spec fn research_steps() -> Seq<RegistrationStep> {
    seq![
        tool(ToolKind::WebSearch),
        tool(ToolKind::WebFetch),
        tool(ToolKind::ArxivSearch),
        tool(ToolKind::ArxivFetch),
        tool(ToolKind::HfHubFileFetch),
        tool(ToolKind::AskUser),
        tool(ToolKind::SearchMemory),
        tool(ToolKind::FetchMemoryByDate),
    ]
}

/// The tools of the execution harness.
pub open spec fn execution_steps() -> Seq<RegistrationStep> {
    seq![
        tool(ToolKind::ExecutionSessionCreate),
        tool(ToolKind::ExecutionRun),
        tool(ToolKind::ExecutionRunBackground),
        tool(ToolKind::ExecutionJobStatus),
        tool(ToolKind::ExecutionJobResult),
        tool(ToolKind::ExecutionJobList),
        tool(ToolKind::ExecutionJobCancel),
        tool(ToolKind::ExecutionArtifactList),
        tool(ToolKind::ExecutionEnvInfo),
        tool(ToolKind::ExecutionSessionClose),
        tool(ToolKind::ExecutionCancel),
        tool(ToolKind::ExecutionReadLog),
    ]
}

/// The registration of an instance: the host adds its tools after the built-in ones, plugins
/// add theirs after every harness, and discovery comes last, when the catalog is complete.
pub open spec fn registration(switches: ToolSwitches, suppress_cron: bool) -> Seq<
    RegistrationStep,
> {
    sandbox_steps() + when(switches.git_worktree, seq![tool(ToolKind::GitWorktree)]) + when(
        switches.checkpoint,
        seq![tool(ToolKind::Checkpoint)],
    ) + research_steps() + when(!suppress_cron, seq![tool(ToolKind::Cron)]) + seq![
        tool(ToolKind::TodoWrite),
        RegistrationStep::HostTools,
        tool(ToolKind::CompactContext),
        tool(ToolKind::RecallToolResult),
    ] + when(switches.execution_harness, execution_steps()) + when(
        switches.kernel_porting,
        seq![RegistrationStep::KernelPortingTools],
    ) + seq![RegistrationStep::PluginTools, tool(ToolKind::ToolSearch)]
}

/// Discovery is registered last, after everything its catalog has to contain.
pub proof fn law_tool_search_is_registered_last(switches: ToolSwitches, suppress_cron: bool)
    ensures
        registration(switches, suppress_cron).last() == tool(ToolKind::ToolSearch),
        forall|i: int|
            0 <= i < registration(switches, suppress_cron).len() - 1 ==> registration(
                switches,
                suppress_cron,
            )[i] != tool(ToolKind::ToolSearch),
{
    assert(!execution_steps().contains(tool(ToolKind::ToolSearch)));
}

/// The `cron` tool is registered exactly when canonical scheduling does not own the workspace.
pub proof fn law_cron_is_withheld_iff_suppressed(switches: ToolSwitches, suppress_cron: bool)
    ensures
        registration(switches, suppress_cron).contains(tool(ToolKind::Cron)) <==> !suppress_cron,
{
    let steps = registration(switches, suppress_cron);
    let before = sandbox_steps() + when(switches.git_worktree, seq![tool(ToolKind::GitWorktree)])
        + when(switches.checkpoint, seq![tool(ToolKind::Checkpoint)]) + research_steps();
    if !suppress_cron {
        assert(steps[before.len() as int] == tool(ToolKind::Cron));
    }
}

/// Registers the file, search and shell tools.
fn register_sandbox_tools(tools: &mut ToolRegistry)
    ensures
        final(tools).steps@ == old(tools).steps@ + sandbox_steps(),
{
    tools.register(ToolKind::ReadFile);
    tools.register(ToolKind::WriteFile);
    tools.register(ToolKind::EditFile);
    tools.register(ToolKind::ListDir);
    tools.register(ToolKind::GlobFiles);
    tools.register(ToolKind::SearchText);
    tools.register(ToolKind::ShellExec);
    tools.register(ToolKind::ExecStatus);
    tools.register(ToolKind::ExecSend);
}

/// Registers the research tools and the question and memory tools.
fn register_research_tools(tools: &mut ToolRegistry)
    ensures
        final(tools).steps@ == old(tools).steps@ + research_steps(),
{
    tools.register(ToolKind::WebSearch);
    tools.register(ToolKind::WebFetch);
    tools.register(ToolKind::ArxivSearch);
    tools.register(ToolKind::ArxivFetch);
    tools.register(ToolKind::HfHubFileFetch);
    register_existing_claw_tools(tools);
}

/// Registers the tools of the execution harness.
fn register_execution_tools(tools: &mut ToolRegistry)
    ensures
        final(tools).steps@ == old(tools).steps@ + execution_steps(),
{
    tools.register(ToolKind::ExecutionSessionCreate);
    tools.register(ToolKind::ExecutionRun);
    tools.register(ToolKind::ExecutionRunBackground);
    tools.register(ToolKind::ExecutionJobStatus);
    tools.register(ToolKind::ExecutionJobResult);
    tools.register(ToolKind::ExecutionJobList);
    tools.register(ToolKind::ExecutionJobCancel);
    tools.register(ToolKind::ExecutionArtifactList);
    tools.register(ToolKind::ExecutionEnvInfo);
    tools.register(ToolKind::ExecutionSessionClose);
    tools.register(ToolKind::ExecutionCancel);
    tools.register(ToolKind::ExecutionReadLog);
}

/// Takes a step when it is switched on.
fn step_when(tools: &mut ToolRegistry, on: bool, step: RegistrationStep)
    ensures
        final(tools).steps@ == old(tools).steps@ + when(on, seq![step]),
{
    if on {
        tools.steps.push(step);
        assert(tools.steps@ =~= old(tools).steps@ + seq![step]);
    } else {
        assert(tools.steps@ =~= old(tools).steps@ + Seq::empty());
    }
}

/// The steps that fill an instance's tool registry.
pub fn register_tools(switches: ToolSwitches, hooks: &SharedInstanceHooks) -> (r: ToolRegistry)
    ensures
        r.steps@ == registration(switches, hooks.suppress_agent_cron),
{
    let mut tools: ToolRegistry = ToolRegistry::new();
    register_sandbox_tools(&mut tools);
    assert(tools.steps@ =~= sandbox_steps());
    step_when(&mut tools, switches.git_worktree, RegistrationStep::Tool(ToolKind::GitWorktree));
    step_when(&mut tools, switches.checkpoint, RegistrationStep::Tool(ToolKind::Checkpoint));
    register_research_tools(&mut tools);
    register_cron_tool(&mut tools, hooks);
    let ghost scheduled = tools.steps@;
    tools.register(ToolKind::TodoWrite);
    tools.steps.push(RegistrationStep::HostTools);
    tools.register(ToolKind::CompactContext);
    tools.register(ToolKind::RecallToolResult);
    let ghost hosted = scheduled + seq![
        tool(ToolKind::TodoWrite),
        RegistrationStep::HostTools,
        tool(ToolKind::CompactContext),
        tool(ToolKind::RecallToolResult),
    ];
    assert(tools.steps@ =~= hosted);
    if switches.execution_harness {
        register_execution_tools(&mut tools);
    }
    assert(tools.steps@ =~= hosted + when(switches.execution_harness, execution_steps()));
    step_when(&mut tools, switches.kernel_porting, RegistrationStep::KernelPortingTools);
    let ghost ported = tools.steps@;
    tools.steps.push(RegistrationStep::PluginTools);
    tools.register(ToolKind::ToolSearch);
    assert(tools.steps@ =~= ported + seq![RegistrationStep::PluginTools, tool(ToolKind::ToolSearch)]);
    tools
}

/// The chat-completions endpoint used when neither the request nor the workspace names one.
pub const DEFAULT_BASE_URL: &'static str =
    "https://generativelanguage.googleapis.com/v1beta/openai/chat/completions";

/// The endpoint of the provider: the request's override wins, then what the workspace's provider
/// configuration resolves to, then the default.
pub fn resolved_base_url(override_url: Option<&str>, configured: &Option<String>) -> (r: String)
    ensures
        r@ == match (override_url, *configured) {
            (Some(url), _) => url@,
            (None, Some(url)) => url@,
            (None, None) => DEFAULT_BASE_URL@,
        },
{
    match override_url {
        Some(url) => url.to_owned(),
        None => match configured {
            Some(url) => url.clone(),
            None => DEFAULT_BASE_URL.to_owned(),
        },
    }
}

/// The directory that file and shell tools operate on: the project folder that holds the state
/// directory, or the crate default where the state directory has no parent.
pub fn sandbox_root(parent: &Option<String>, fallback: &String) -> (r: String)
    ensures
        r == match *parent {
            Some(folder) => folder,
            None => *fallback,
        },
{
    match parent {
        Some(folder) => folder.clone(),
        None => fallback.clone(),
    }
}

/// The texts that the prompts of an instance are put together from.
pub struct PromptParts {
    /// The prompt that the workspace compiles.
    pub workspace_prompt: String,
    /// What plugins overlay, empty where there is none.
    pub plugin_overlays: String,
    /// The harness overlay, where that harness is enabled.
    pub harness_overlay: Option<String>,
    /// The instructions of the chosen persona.
    pub persona: Option<String>,
    /// What research appends to subagent prompts, where that overlay is enabled.
    pub subagent_append: Option<String>,
    /// The catalog of named agents, empty where there is none.
    pub agent_catalog: String,
}

/// The prompts of an instance.
pub struct Prompts {
    pub system_prompt: String,
    pub subagent_system_prompt: String,
}

/// The prompt before the catalog of named agents.
pub open spec fn base_prompt(parts: PromptParts) -> Seq<char> {
    parts.workspace_prompt@ + parts.plugin_overlays@ + (match parts.harness_overlay {
        Some(overlay) => "\n\n"@ + overlay@,
        None => Seq::empty(),
    }) + (match parts.persona {
        Some(persona) => "\n\n## Persona\n\n"@ + persona@,
        None => Seq::empty(),
    })
}

/// Puts the prompts together. Subagents do not spawn subagents, so their prompt is taken before
/// the catalog of named agents is appended.
pub fn compose_prompts(parts: &PromptParts) -> (r: Prompts)
    ensures
        r.system_prompt@ == base_prompt(*parts) + parts.agent_catalog@,
        r.subagent_system_prompt@ == match parts.subagent_append {
            Some(append) => base_prompt(*parts) + "\n"@ + append@,
            None => base_prompt(*parts),
        },
{
    let mut system_prompt: String = parts.workspace_prompt.clone();
    system_prompt.append(&parts.plugin_overlays);
    let ghost overlaid = system_prompt@;
    match &parts.harness_overlay {
        Some(overlay) => {
            system_prompt.append("\n\n");
            system_prompt.append(overlay);
            assert(system_prompt@ =~= overlaid + ("\n\n"@ + overlay@));
        },
        None => {
            assert(system_prompt@ =~= overlaid + Seq::empty());
        },
    }
    let ghost harnessed = system_prompt@;
    match &parts.persona {
        Some(persona) => {
            system_prompt.append("\n\n## Persona\n\n");
            system_prompt.append(persona);
            assert(system_prompt@ =~= harnessed + ("\n\n## Persona\n\n"@ + persona@));
        },
        None => {
            assert(system_prompt@ =~= harnessed + Seq::empty());
        },
    }
    assert(system_prompt@ == base_prompt(*parts));
    let mut subagent_system_prompt: String = system_prompt.clone();
    match &parts.subagent_append {
        Some(append) => {
            subagent_system_prompt.append("\n");
            subagent_system_prompt.append(append);
        },
        None => {},
    }
    system_prompt.append(&parts.agent_catalog);
    Prompts { system_prompt, subagent_system_prompt }
}

/// The limits that govern a run.
#[derive(Clone, Copy, Debug, PartialEq, Eq, Structural)]
pub struct RunLimits {
    pub max_iterations: usize,
    pub max_tool_output_chars: usize,
    pub max_recent_summaries: usize,
    pub short_term_threshold_turns: usize,
    pub short_term_threshold_tokens: usize,
}

/// The limits of a run: what the workspace and the request state, and the defaults elsewhere.
pub fn run_limits(
    max_iterations: Option<usize>,
    max_tool_output_chars: Option<usize>,
    compaction: Option<(usize, usize, usize)>,
) -> (r: RunLimits)
    ensures
        r.max_iterations == max_iterations.unwrap_or(999),
        r.max_tool_output_chars == max_tool_output_chars.unwrap_or(3000),
        (r.max_recent_summaries, r.short_term_threshold_turns, r.short_term_threshold_tokens)
            == compaction.unwrap_or((5, 20, 100_000)),
{
    let (max_recent_summaries, short_term_threshold_turns, short_term_threshold_tokens): (
        usize,
        usize,
        usize,
    ) = match compaction {
        Some(knobs) => knobs,
        None => (5, 20, 100_000),
    };
    RunLimits {
        max_iterations: max_iterations.unwrap_or(999),
        max_tool_output_chars: max_tool_output_chars.unwrap_or(3000),
        max_recent_summaries,
        short_term_threshold_turns,
        short_term_threshold_tokens,
    }
}

/// The gates that shell commands and file edits pass, by modes of type `M`.
#[derive(Debug, PartialEq, Eq)]
pub struct ShellPolicy<M> {
    pub interactive_mode: M,
    pub interactive_edit_mode: M,
    pub unattended_edit_mode: M,
}

/// The policy on disk with the request's permission mode over it. The shell gate and the edit
/// gate are overridden independently, and the unattended edit gate follows the interactive one.
pub fn apply_permission_mode<M: Copy>(
    policy: &ShellPolicy<M>,
    shell_mode: Option<M>,
    edit_mode: Option<M>,
) -> (r: ShellPolicy<M>)
    ensures
        r.interactive_mode == shell_mode.unwrap_or(policy.interactive_mode),
        r.interactive_edit_mode == edit_mode.unwrap_or(policy.interactive_edit_mode),
        r.unattended_edit_mode == edit_mode.unwrap_or(policy.unattended_edit_mode),
{
    let mut merged: ShellPolicy<M> = ShellPolicy {
        interactive_mode: policy.interactive_mode,
        interactive_edit_mode: policy.interactive_edit_mode,
        unattended_edit_mode: policy.unattended_edit_mode,
    };
    match shell_mode {
        Some(mode) => {
            merged.interactive_mode = mode;
        },
        None => {},
    }
    match edit_mode {
        Some(mode) => {
            merged.interactive_edit_mode = mode;
            merged.unattended_edit_mode = mode;
        },
        None => {},
    }
    merged
}

/// The named agents of the workspace, or the built-in ones where it configures none.
pub fn agent_definitions<D>(configured: Vec<D>, defaults: Vec<D>) -> (r: Vec<D>)
    ensures
        r == if configured@.len() == 0 {
            defaults
        } else {
            configured
        },
{
    if configured.len() == 0 {
        defaults
    } else {
        configured
    }
}

/// Which provider answers an instance.
pub enum ProviderChoice {
    /// Replies are scripted; the named provider is not called.
    Scripted { responses: Vec<String> },
    /// The named provider is called at its endpoint.
    Remote,
}

/// What a workspace and a request say about the instance to build, with policy modes of type `M`.
pub struct InstanceRequest<M> {
    /// The resolved state directory of the workspace.
    pub workspace_dir: String,
    pub workspace_dir_exists: bool,
    /// The parent of the workspace's state directory.
    pub workspace_parent: Option<String>,
    /// The sandbox directory of a workspace without a parent.
    pub sandbox_default: String,
    /// The state directory as the loaded workspace names it.
    pub state_dir: String,
    pub restrict_to_workspace: Option<bool>,
    pub git_worktree: bool,
    pub checkpoint_enabled: Option<bool>,
    pub checkpoint_store_active: bool,
    pub execution_harness: bool,
    pub kernel_porting: bool,
    pub subagent_harness: bool,
    pub base_url_override: Option<String>,
    pub configured_base_url: Option<String>,
    pub prompts: PromptParts,
    pub max_iterations: Option<usize>,
    pub max_tool_output_chars: Option<usize>,
    pub compaction: Option<(usize, usize, usize)>,
    /// The policy that the workspace has on disk.
    pub policy: ShellPolicy<M>,
    /// What the permission mode of the request makes of the shell gate.
    pub shell_mode: Option<M>,
    /// What the permission mode of the request makes of the edit gate.
    pub edit_mode: Option<M>,
}

/// The decisions that an instance is built by.
pub struct InstancePlan<M> {
    /// The fresh name under which the instance owns its runs.
    pub owner_id: String,
    pub channel: ChannelKind,
    /// The fresh name of the channel.
    pub channel_id: String,
    /// The directory to create before the workspace is loaded.
    pub create_dir: Option<String>,
    pub sandbox_dir: String,
    pub plugin_root: String,
    pub restrict_to_workspace: bool,
    pub checkpoint: CheckpointPlan,
    pub tools: ToolRegistry,
    /// The database that the `cron` tool writes to.
    pub cron_db_path: String,
    /// Where subagents work, where their harness is enabled.
    pub subagent_dir: Option<String>,
    pub base_url: String,
    pub provider: ProviderChoice,
    pub prompts: Prompts,
    pub limits: RunLimits,
    pub policy: ShellPolicy<M>,
}

/// The state directory's parent, or `fallback`.
pub open spec fn parent_or<M>(request: InstanceRequest<M>, fallback: String) -> String {
    match request.workspace_parent {
        Some(folder) => folder,
        None => fallback,
    }
}

/// A relative name inside a directory, as a path.
pub open spec fn inside(dir: Seq<char>, name: Seq<char>) -> Seq<char> {
    if dir.len() == 0 {
        name
    } else if dir.last() == '/' {
        dir + name
    } else {
        dir + "/"@ + name
    }
}

/// The path of a relative name inside a directory.
pub(crate) fn path_inside(dir: &str, name: &str) -> (r: String)
    ensures
        r@ == inside(dir@, name@),
{
    let chars: Vec<char> = text::chars_of(dir);
    if chars.len() == 0 {
        return name.to_owned();
    }
    if chars[chars.len() - 1] == '/' {
        text::joined(dir, name)
    } else {
        text::around(dir, "/", name)
    }
}

/// Where building an instance can fail.
pub enum BuildStage {
    /// The state directory could not be created.
    StateDirectory { workspace_dir: String },
    /// The workspace could not be loaded.
    Workspace,
    /// The host could not add its tools.
    HostTools,
    /// The execution harness could not be built.
    ExecutionHarness,
    /// The channel could not be started.
    Channel,
}

/// What is said of an instance that could not be built.
pub fn build_failure(stage: &BuildStage, error: &str) -> (r: String)
    ensures
        r@ == match *stage {
            BuildStage::StateDirectory { workspace_dir } => {
                "Failed to create workspace directory "@ + workspace_dir@ + ": "@ + error@
            },
            BuildStage::Workspace => "Failed to load IsanAgent workspace: "@ + error@,
            BuildStage::HostTools => error@,
            BuildStage::ExecutionHarness => "execution harness: "@ + error@,
            BuildStage::Channel => "ServiceChannel start failed: "@ + error@,
        },
{
    match stage {
        BuildStage::StateDirectory { workspace_dir } => {
            let start: String = text::around(
                "Failed to create workspace directory ",
                workspace_dir,
                ": ",
            );
            text::joined(&start, error)
        },
        BuildStage::Workspace => text::joined("Failed to load IsanAgent workspace: ", error),
        BuildStage::HostTools => error.to_owned(),
        BuildStage::ExecutionHarness => text::joined("execution harness: ", error),
        BuildStage::Channel => text::joined("ServiceChannel start failed: ", error),
    }
}

/// Decides everything about an instance that does not depend on running it.
pub fn build_shared_instance<M: Copy>(request: &InstanceRequest<M>, hooks: &SharedInstanceHooks) -> (r:
    InstancePlan<M>)
    ensures
        outside::is_random_uuid(r.owner_id@),
        outside::is_random_uuid(r.channel_id@),
        r.channel == if hooks.channel_name@ == "stdio"@ {
            ChannelKind::Stdio
        } else {
            ChannelKind::Tauri
        },
        match r.create_dir {
            Some(dir) => !request.workspace_dir_exists && dir@ == inside(
                request.workspace_dir@,
                ".system_generated"@,
            ),
            None => request.workspace_dir_exists,
        },
        r.sandbox_dir == parent_or(*request, request.sandbox_default),
        r.plugin_root == parent_or(*request, request.state_dir),
        r.restrict_to_workspace == request.restrict_to_workspace.unwrap_or(true),
        r.checkpoint.register_tool == (request.checkpoint_enabled.unwrap_or(true) && (
        request.checkpoint_store_active || hooks.checkpoint_root is Some)),
        r.checkpoint.init_root == if request.checkpoint_enabled.unwrap_or(true)
            && !request.checkpoint_store_active {
            hooks.checkpoint_root
        } else {
            None
        },
        r.checkpoint.undo_disabled == (request.checkpoint_enabled.unwrap_or(true)
            && !request.checkpoint_store_active && hooks.checkpoint_root is None),
        r.tools.steps@ == registration(
            (ToolSwitches {
                git_worktree: request.git_worktree,
                checkpoint: r.checkpoint.register_tool,
                execution_harness: request.execution_harness,
                kernel_porting: request.kernel_porting,
            }),
            hooks.suppress_agent_cron,
        ),
        r.base_url@ == match (request.base_url_override, request.configured_base_url) {
            (Some(url), _) => url@,
            (None, Some(url)) => url@,
            (None, None) => DEFAULT_BASE_URL@,
        },
        match (hooks.scripted_responses, r.provider) {
            (Some(scripted), ProviderChoice::Scripted { responses }) => responses@ == scripted@,
            (None, ProviderChoice::Remote) => true,
            _ => false,
        },
        r.prompts.system_prompt@ == base_prompt(request.prompts) + request.prompts.agent_catalog@,
        r.prompts.subagent_system_prompt@ == match request.prompts.subagent_append {
            Some(append) => base_prompt(request.prompts) + "\n"@ + append@,
            None => base_prompt(request.prompts),
        },
        r.limits.max_iterations == request.max_iterations.unwrap_or(999),
        r.limits.max_tool_output_chars == request.max_tool_output_chars.unwrap_or(3000),
        (
            r.limits.max_recent_summaries,
            r.limits.short_term_threshold_turns,
            r.limits.short_term_threshold_tokens,
        ) == request.compaction.unwrap_or((5, 20, 100_000)),
        r.cron_db_path@ == inside(
            inside(request.workspace_dir@, ".system_generated"@),
            "agent_memory.db"@,
        ),
        r.subagent_dir == if request.subagent_harness {
            Some(r.sandbox_dir)
        } else {
            None
        },
        r.policy.interactive_mode == request.shell_mode.unwrap_or(request.policy.interactive_mode),
        r.policy.interactive_edit_mode == request.edit_mode.unwrap_or(
            request.policy.interactive_edit_mode,
        ),
        r.policy.unattended_edit_mode == request.edit_mode.unwrap_or(
            request.policy.unattended_edit_mode,
        ),
{
    let checkpoint: CheckpointPlan = checkpoint_plan(
        request.checkpoint_enabled,
        request.checkpoint_store_active,
        &hooks.checkpoint_root,
    );
    let switches: ToolSwitches = ToolSwitches {
        git_worktree: request.git_worktree,
        checkpoint: checkpoint.register_tool,
        execution_harness: request.execution_harness,
        kernel_porting: request.kernel_porting,
    };
    let override_url: Option<&str> = match &request.base_url_override {
        Some(url) => Some(url.as_str()),
        None => None,
    };
    let provider: ProviderChoice = match &hooks.scripted_responses {
        Some(responses) => ProviderChoice::Scripted { responses: text::copy_all(responses) },
        None => ProviderChoice::Remote,
    };
    let generated: String = path_inside(&request.workspace_dir, ".system_generated");
    let cron_db_path: String = path_inside(&generated, "agent_memory.db");
    let create_dir: Option<String> = if request.workspace_dir_exists {
        None
    } else {
        Some(generated)
    };
    let sandbox_dir: String = sandbox_root(&request.workspace_parent, &request.sandbox_default);
    let subagent_dir: Option<String> = if request.subagent_harness {
        Some(sandbox_dir.clone())
    } else {
        None
    };
    InstancePlan {
        owner_id: outside::random_uuid(),
        channel: hooks.channel_kind(),
        channel_id: outside::random_uuid(),
        create_dir,
        sandbox_dir,
        plugin_root: sandbox_root(&request.workspace_parent, &request.state_dir),
        restrict_to_workspace: request.restrict_to_workspace.unwrap_or(true),
        tools: register_tools(switches, hooks),
        checkpoint,
        base_url: resolved_base_url(override_url, &request.configured_base_url),
        provider,
        prompts: compose_prompts(&request.prompts),
        limits: run_limits(
            request.max_iterations,
            request.max_tool_output_chars,
            request.compaction,
        ),
        cron_db_path,
        subagent_dir,
        policy: apply_permission_mode(&request.policy, request.shell_mode, request.edit_mode),
    }
}

} // verus!
