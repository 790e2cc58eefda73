//! Routing tables: the default route of a table, and the copy of an
//! interface's link-scope routes into it.

use crate::command::{
    outcome_view, Command, CommandError, CommandErrorView, CommandView, Outcome,
};
use crate::pattern::{capture_lines, captures_of, LineCapture, LineCaptureView};
use crate::text::split_lines;
use std::collections::VecDeque;
use vstd::prelude::*;
use vstd::string::*;

verus! {

/// A directly connected prefix at the start of a route line: a dotted quad
/// with an optional mask length, which is what is captured.
pub const LINK_PATTERN: &'static str = "^(\\d+\\.\\d+\\.\\d+\\.\\d+(?:/\\d+)?)\\b";

/// The command that makes the default route of `table` go via `gw` on
/// `iface`, whatever the table held before.
pub fn ensure_table_default_route(iface: &str, table: u32, gw: &str) -> (command: Command)
    ensures
        command@ == (CommandView::ReplaceDefaultRoute { gateway: gw@, dev: iface@, table }),
{
    Command::ReplaceDefaultRoute {
        gateway: String::from_str(gw),
        dev: String::from_str(iface),
        table,
    }
}

/// One replacement into `table` for each line that starts with a prefix, in
/// the order of the lines.
pub open spec fn link_commands(lines: Seq<LineCaptureView>, iface: Seq<char>, table: u32) -> Seq<
    CommandView,
>
    decreases lines.len(),
{
    if lines.len() == 0 {
        Seq::empty()
    } else {
        let before = link_commands(lines.drop_last(), iface, table);
        match lines.last().capture {
            Some(prefix) => before.push(CommandView::ReplaceLinkRoute { prefix, dev: iface, table }),
            None => before,
        }
    }
}

/// The commands that copy into `table` the link-scope routes of `iface`,
/// from route lines that were matched for their prefix.
pub fn link_route_commands(lines: &Vec<LineCapture>, iface: &str, table: u32) -> (commands:
    VecDeque<Command>)
    ensures
        commands.deep_view() == link_commands(lines.deep_view(), iface@, table),
{
    let mut commands: VecDeque<Command> = VecDeque::new();
    let mut k: usize = 0;
    assert(commands.deep_view() =~= link_commands(lines.deep_view().take(0), iface@, table));
    while k < lines.len()
        invariant
            k <= lines.len(),
            commands.deep_view() == link_commands(lines.deep_view().take(k as int), iface@, table),
        decreases lines.len() - k,
    {
        let ghost upto = lines.deep_view().take(k + 1);
        let ghost before = commands.deep_view();
        assert(upto.drop_last() =~= lines.deep_view().take(k as int));
        assert(upto.last() == lines[k as int]@);
        match &lines[k].capture {
            Some(prefix) => {
                commands.push_back(
                    Command::ReplaceLinkRoute {
                        prefix: prefix.clone(),
                        dev: String::from_str(iface),
                        table,
                    },
                );
                assert(commands.deep_view() =~= before.push(
                    CommandView::ReplaceLinkRoute { prefix: prefix@, dev: iface@, table },
                ));
            },
            None => {},
        }
        k += 1;
    }
    assert(lines.deep_view().take(k as int) =~= lines.deep_view());
    commands
}

/// Where the copy of an interface's link-scope routes stands, between its
/// commands.
#[derive(Debug, PartialEq, Eq)]
pub enum Mirror {
    /// The link-scope routes of the interface are being listed.
    Listing { iface: String, table: u32 },
    /// A replacement is running; `pending` are those still to run.
    Replacing { pending: VecDeque<Command> },
}

/// A copy in progress as a mathematical value.
pub enum MirrorView {
    Listing { iface: Seq<char>, table: u32 },
    Replacing { pending: Seq<CommandView> },
}

impl View for Mirror {
    type V = MirrorView;

    open spec fn view(&self) -> MirrorView {
        match self {
            Mirror::Listing { iface, table } => MirrorView::Listing { iface: iface@, table: *table },
            Mirror::Replacing { pending } => MirrorView::Replacing { pending: pending.deep_view() },
        }
    }
}

/// What a copy does next.
#[derive(Debug, PartialEq, Eq)]
pub enum MirrorStep {
    /// Run the command and come back with its outcome.
    Run(Mirror, Command),
    /// The copy is over: every replacement was tried, or the listing failed.
    Done(Result<(), CommandError>),
}

/// A step as a mathematical value.
pub enum MirrorStepView {
    Run(MirrorView, CommandView),
    Done(Result<(), CommandErrorView>),
}

impl View for MirrorStep {
    type V = MirrorStepView;

    open spec fn view(&self) -> MirrorStepView {
        match self {
            MirrorStep::Run(state, command) => MirrorStepView::Run(state@, command@),
            MirrorStep::Done(Ok(_)) => MirrorStepView::Done(Ok(())),
            MirrorStep::Done(Err(error)) => MirrorStepView::Done(Err(error@)),
        }
    }
}

/// Runs the first of `pending` and keeps the rest, or ends the copy when
/// nothing is left.
pub open spec fn next_replacement(pending: Seq<CommandView>) -> MirrorStepView {
    if pending.len() == 0 {
        MirrorStepView::Done(Ok(()))
    } else {
        MirrorStepView::Run(MirrorView::Replacing { pending: pending.drop_first() }, pending[0])
    }
}

impl MirrorView {
    /// The copy's rule: a listing that failed ends it with that failure; a
    /// listing that came back gives one replacement for each line that
    /// starts with a prefix. The replacements run in order, and whether one
    /// succeeds is of no account.
    pub open spec fn advance(self, outcome: Result<Seq<char>, CommandErrorView>)
        -> MirrorStepView {
        match self {
            MirrorView::Listing { iface, table } => match outcome {
                Err(error) => MirrorStepView::Done(Err(error)),
                Ok(output) => next_replacement(
                    link_commands(captures_of(LINK_PATTERN@, split_lines(output)), iface, table),
                ),
            },
            MirrorView::Replacing { pending } => next_replacement(pending),
        }
    }
}

/// Starts the copy of the link-scope routes of `iface` into `table`: the
/// first thing to do is to list them.
pub fn mirror_link_routes_to_table(iface: &str, table: u32) -> (start: (Mirror, Command))
    ensures
        start.0@ == (MirrorView::Listing { iface: iface@, table }),
        start.1@ == (CommandView::ListLinkRoutes { dev: iface@ }),
{
    (
        Mirror::Listing { iface: String::from_str(iface), table },
        Command::ListLinkRoutes { dev: String::from_str(iface) },
    )
}

fn replace_next(pending: VecDeque<Command>) -> (step: MirrorStep)
    ensures
        step@ == next_replacement(pending.deep_view()),
{
    let mut pending = pending;
    let ghost all = pending.deep_view();
    match pending.pop_front() {
        Some(command) => {
            assert(pending.deep_view() =~= all.drop_first());
            assert(command@ == all[0]);
            MirrorStep::Run(Mirror::Replacing { pending }, command)
        },
        None => {
            assert(all.len() == 0);
            MirrorStep::Done(Ok(()))
        },
    }
}

impl Mirror {
    /// Takes the outcome of the command that was run last and says what to
    /// do next.
    pub fn advance(self, outcome: Outcome) -> (step: MirrorStep)
        ensures
            step@ == self@.advance(outcome_view(outcome)),
    {
        match self {
            Mirror::Listing { iface, table } => match outcome {
                Err(error) => MirrorStep::Done(Err(error)),
                Ok(output) => {
                    let lines = capture_lines(LINK_PATTERN, output.as_str());
                    replace_next(link_route_commands(&lines, iface.as_str(), table))
                },
            },
            Mirror::Replacing { pending } => replace_next(pending),
        }
    }
}

} // verus!
