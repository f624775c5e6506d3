//! What the command line accepts and prints, said of its arguments.
use vstd::prelude::*;
use vstd::string::*;
use crate::cli::{
    DefaultArgs, JournalEventRow, ObservedMessage, OutputMode, ResolvedAgentConfig,
    ResolvedSetting, RunResult, RunSummary, SpikeArgs, SpikePlaneArg, WorkInboxRow, WorkListFilter,
};
use crate::paperclip_spike::{DownstreamPlane, SpikeMode};
use crate::text;

verus! {

/// A flag goes before the environment, which counts only where it holds something.
pub proof fn law_flags_go_before_the_environment(flag: Option<String>, env: Option<String>)
    ensures
        flag is Some ==> crate::cli::flag_or_env(flag, env) == flag,
        flag is None && env is Some && env->0@.len() > 0 ==> crate::cli::flag_or_env(flag, env)
            == env,
        flag is None && (env is None || env->0@.len() == 0) ==> crate::cli::flag_or_env(
            flag,
            env,
        ) is None,
{
}

/// The stub plane takes nothing; the real one takes the address, the downstream plane and the token,
/// given by the flag or else by the environment.
pub proof fn law_planes_take_their_arguments(args: SpikeArgs, downstream: Option<DownstreamPlane>)
    ensures
        crate::cli::spike_mode(args, downstream) is Stub <==> args.plane is Stub,
        args.plane is Real ==> (crate::cli::spike_mode(args, downstream) matches SpikeMode::Real {
            bind,
            downstream: plane,
            bootstrap_token,
        } && bind == args.bind && plane == downstream && (args.bootstrap_token is Some
            ==> bootstrap_token == args.bootstrap_token) && (args.bootstrap_token is None
            && args.bootstrap_token_env is Some && args.bootstrap_token_env->0@.len() > 0
            ==> bootstrap_token == args.bootstrap_token_env) && (args.bootstrap_token is None && (
        args.bootstrap_token_env is None || args.bootstrap_token_env->0@.len() == 0)
            ==> bootstrap_token is None)),
{
}

/// The options that need a prompt are named exactly where they were given.
pub proof fn law_options_are_named_where_given(args: DefaultArgs)
    ensures
        ({
            let names = crate::cli::one_shot_options(args);
            &&& names.contains("--output"@) <==> args.output is Some
            &&& names.contains("--json"@) <==> args.json
            &&& names.contains("--timeout"@) <==> args.timeout is Some
            &&& names.contains("--quiet"@) <==> args.quiet
            &&& names.len() == 0 <==> args.output is None && !args.json && args.timeout is None
                && !args.quiet
            &&& forall|name: Seq<char>| #[trigger]
                names.contains(name) ==> name == "--output"@ || name == "--json"@ || name
                    == "--timeout"@ || name == "--quiet"@
        }),
{
    reveal_strlit("--output");
    reveal_strlit("--json");
    reveal_strlit("--timeout");
    reveal_strlit("--quiet");
    let names = crate::cli::one_shot_options(args);
    let a = crate::cli::named(args.output is Some, "--output"@);
    let b = crate::cli::named(args.json, "--json"@);
    let c = crate::cli::named(args.timeout is Some, "--timeout"@);
    let d = crate::cli::named(args.quiet, "--quiet"@);
    assert("--output"@.len() == 8 && "--json"@.len() == 6 && "--timeout"@.len() == 9
        && "--quiet"@.len() == 7);
    if args.output is Some {
        assert(names[0] == "--output"@);
    }
    if args.json {
        assert(names[a.len() as int] == "--json"@);
    }
    if args.timeout is Some {
        assert(names[(a.len() + b.len()) as int] == "--timeout"@);
    }
    if args.quiet {
        assert(names[(a.len() + b.len() + c.len()) as int] == "--quiet"@);
    }
    assert forall|i: int| 0 <= i < names.len() implies {
        ||| (#[trigger] names[i] == "--output"@ && args.output is Some)
        ||| (names[i] == "--json"@ && args.json)
        ||| (names[i] == "--timeout"@ && args.timeout is Some)
        ||| (names[i] == "--quiet"@ && args.quiet)
    } by {
        if i < a.len() {
            assert(names[i] == a[i]);
        } else if i < a.len() + b.len() {
            assert(names[i] == b[i - a.len()]);
        } else if i < a.len() + b.len() + c.len() {
            assert(names[i] == c[i - a.len() - b.len()]);
        } else {
            assert(names[i] == d[i - a.len() - b.len() - c.len()]);
        }
    }
}

/// A filter is found by its own name; the active work by three.
pub proof fn law_filters_are_found_by_name(name: Seq<char>)
    ensures
        crate::cli::filter_of(name) == Some(WorkListFilter::MyActive) <==> name == "my_active"@
            || name == "my-active"@ || name == "active"@,
        crate::cli::filter_of(name) == Some(WorkListFilter::Review) <==> name == "review"@,
        crate::cli::filter_of(name) == Some(WorkListFilter::Backlog) <==> name == "backlog"@,
        crate::cli::filter_of(name) == Some(WorkListFilter::Done) <==> name == "done"@,
{
    reveal_strlit("my_active");
    reveal_strlit("my-active");
    reveal_strlit("active");
    reveal_strlit("review");
    reveal_strlit("backlog");
    reveal_strlit("done");
    assert("review"@[0] == 'r' && "active"@[0] == 'a' && "backlog"@[0] == 'b' && "done"@[0] == 'd'
        && "my_active"@[0] == 'm' && "my-active"@[0] == 'm');
}

/// An inbox line holds the four fields with a tab between each two.
pub proof fn law_inbox_lines_hold_every_field(item: WorkInboxRow)
    ensures
        crate::cli::inbox_line(item) == text::join(
            seq![item.kind@, item.work_id@, item.title@, item.why@],
            "\t"@,
        ),
{
    let parts = seq![item.kind@, item.work_id@, item.title@, item.why@];
    let three = seq![item.kind@, item.work_id@, item.title@];
    let two = seq![item.kind@, item.work_id@];
    let one = seq![item.kind@];
    assert(parts.drop_last() =~= three);
    assert(three.drop_last() =~= two);
    assert(two.drop_last() =~= one);
    assert(text::join(one, "\t"@) == item.kind@);
    assert(text::join(two, "\t"@) == item.kind@ + "\t"@ + item.work_id@);
    assert(text::join(three, "\t"@) == item.kind@ + "\t"@ + item.work_id@ + "\t"@ + item.title@);
}

/// The summary names the workspace, every incomplete run in its place, and the latest run of the
/// chat that was asked for.
pub proof fn law_summary_lists_every_run(
    workspace: Seq<char>,
    runs: Seq<RunSummary>,
    chat: Option<String>,
    latest: Option<RunSummary>,
    i: int,
)
    requires
        0 <= i < runs.len(),
    ensures
        ({
            let lines = crate::cli::summary_lines(workspace, runs, chat, latest);
            &&& lines.len() == runs.len() + 2 + (if chat is Some {
                1int
            } else {
                0int
            })
            &&& lines[0] == "Workspace: "@ + workspace
            &&& lines[1] == "Incomplete runs:"@
            &&& lines[2 + i] == "  "@ + runs[i].run_id@ + " (chat "@ + runs[i].chat_id@
                + ", last_seq "@ + text::decimal(runs[i].last_seq as nat) + ")"@
            &&& chat is Some && latest is None ==> lines.last() == "Latest run for "@ + chat->0@
                + ": none"@
            &&& chat is Some && latest is Some ==> lines.last() == "Latest run for "@ + chat->0@
                + ": "@ + latest->0.run_id@ + " (last_seq "@ + text::decimal(
                latest->0.last_seq as nat,
            ) + ", terminal "@ + (if latest->0.terminal_kind is Some {
                latest->0.terminal_kind->0@
            } else {
                "pending"@
            }) + ")"@
        }),
{
}

/// Without an incomplete run the summary says so in one line.
pub proof fn law_summary_without_runs(
    workspace: Seq<char>,
    chat: Option<String>,
    latest: Option<RunSummary>,
)
    ensures
        ({
            let lines = crate::cli::summary_lines(workspace, Seq::empty(), chat, latest);
            &&& lines.len() == 2 + (if chat is Some {
                1int
            } else {
                0int
            })
            &&& lines[0] == "Workspace: "@ + workspace
            &&& lines[1] == "Incomplete runs: none"@
        }),
{
}

/// A line of the journal has the number, padded to six characters, the kind and the payload.
pub proof fn law_event_lines_hold_every_field(event: JournalEventRow)
    ensures
        ({
            let line = crate::cli::event_line(event);
            let number = text::pad_left(text::decimal(event.seq as nat), 6);
            &&& line.len() == number.len() + 2 + event.kind@.len() + 2 + event.payload@.len()
            &&& line.take(number.len() as int) == number
            &&& line.subrange(
                number.len() as int + 2,
                number.len() as int + 2 + event.kind@.len() as int,
            ) == event.kind@
            &&& line.skip(line.len() - event.payload@.len()) == event.payload@
        }),
{
    reveal_strlit("  ");
    let line = crate::cli::event_line(event);
    let number = text::pad_left(text::decimal(event.seq as nat), 6);
    let start: int = number.len() as int + 2;
    assert("  "@.len() == 2);
    assert(line.take(number.len() as int) =~= number);
    assert(line.subrange(start, start + event.kind@.len() as int) =~= event.kind@);
    assert(line.skip(line.len() - event.payload@.len()) =~= event.payload@);
}

/// A setting is printed behind its name: its value where it is set, with its source where origins
/// are asked for.
pub proof fn law_settings_are_printed_with_their_origin(
    name: Seq<char>,
    setting: Option<ResolvedSetting>,
    show_origin: bool,
)
    ensures
        ({
            let line = crate::cli::field_line(name, setting, show_origin);
            &&& setting is Some && !show_origin ==> line == name + ": "@ + setting->0.value@
            &&& setting is Some && show_origin ==> line == name + ": "@ + setting->0.value@ + " ("@
                + setting->0.source@ + ")"@
            &&& setting is None && !show_origin ==> line == name + ": <unset>"@
            &&& setting is None && show_origin ==> line == name + ": <unset> (default)"@
        }),
{
}

/// The configuration is printed as four lines, each of its own setting.
pub proof fn law_configuration_is_printed_in_order(config: ResolvedAgentConfig)
    requires
        config.model is Some,
        config.fallback_model is Some,
        config.provider is Some,
        config.base_url is Some,
    ensures
        ({
            let lines = crate::cli::config_lines(config, false);
            &&& lines.len() == 4
            &&& lines[0] == "model"@ + ": "@ + config.model->0.value@
            &&& lines[1] == "fallback_model"@ + ": "@ + config.fallback_model->0.value@
            &&& lines[2] == "provider"@ + ": "@ + config.provider->0.value@
            &&& lines[3] == "base_url"@ + ": "@ + config.base_url->0.value@
        }),
{
}

/// A prompt is taken as it was given, unless it is one dash: that stands for what the standard input
/// holds, without the white space at its end. What says nothing is refused.
pub proof fn law_prompts_are_taken_as_given(prompt: Seq<char>, stdin: Result<String, String>)
    ensures
        ({
            let taken = crate::cli::prompt_of(prompt, stdin);
            let dash = prompt.len() == 1 && prompt[0] == '-';
            let says = exists|i: int|
                0 <= i < prompt.len() && !text::is_white_space(#[trigger] prompt[i]);
            &&& !dash && says ==> taken == Ok::<Seq<char>, Seq<char>>(prompt)
            &&& !dash && !says ==> taken == Err::<Seq<char>, Seq<char>>("prompt must not be empty"@)
            &&& dash && stdin is Err ==> taken == Err::<Seq<char>, Seq<char>>(
                "could not read prompt from stdin: "@ + stdin->Err_0@,
            )
            &&& dash && stdin is Ok ==> {
                let held = text::trim_end_space(stdin->Ok_0@);
                taken == if held.len() == 0 {
                    Err::<Seq<char>, Seq<char>>("stdin prompt was empty"@)
                } else {
                    Ok::<Seq<char>, Seq<char>>(held)
                }
            }
        }),
{
    reveal_strlit("-");
    if prompt.len() == 1 && prompt[0] == '-' {
        assert(prompt =~= "-"@);
    }
    assert("-"@.len() == 1 && "-"@[0] == '-');
}

/// The event stream shows everything; a readable output names the tools that start, unless it is to
/// be quiet; nothing else is shown.
pub proof fn law_observations_follow_the_output(
    output: OutputMode,
    quiet: bool,
    tool_started: Option<String>,
)
    ensures
        ({
            let shown = crate::cli::observation(output, quiet, tool_started);
            &&& shown is Emit <==> output is Jsonl
            &&& shown is NameTool <==> (output is Pretty || output is Plain) && tool_started is Some
                && !quiet
            &&& shown is NameTool ==> shown->tool == tool_started->0
            &&& shown is Emit || shown is NameTool || shown is Silent
        }),
{
}

/// A message is a copy exactly where it is observable and its fingerprint is the one remembered; what
/// is not observable forgets it, what has no fingerprint leaves it, and any other is remembered.
pub proof fn law_copies_follow_one_another(previous: Option<String>, message: ObservedMessage)
    ensures
        crate::cli::is_copy(previous, message) <==> message.observable && message.fingerprint is Some
            && previous is Some && message.fingerprint->0@ == previous->0@,
        !message.observable ==> crate::cli::remembered(previous, message) is None,
        message.observable && message.fingerprint is Some ==> crate::cli::remembered(
            previous,
            message,
        ) == message.fingerprint,
        message.observable && message.fingerprint is None ==> crate::cli::remembered(
            previous,
            message,
        ) == previous,
{
}

/// A run that was given up has the chat that was to be resumed, no run and no text.
pub proof fn law_given_up_runs_keep_their_chat<O>(
    result: RunResult<O>,
    resume: Option<String>,
    outcome: O,
)
    requires
        crate::cli::gave_up(result, resume, outcome),
    ensures
        resume is Some ==> result.chat_id@ == resume->0@,
        resume is None ==> result.chat_id@.len() == 0,
        result.run_id is None,
        result.final_text is None,
        result.outcome == outcome,
{
}

} // verus!
