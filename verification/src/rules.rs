//! Policy rules: reading the rule listing, and adding and removing
//! source-selector rules without ever holding one twice.

use crate::command::{
    decimal, decimal_text, outcome_view, Command, CommandError, CommandErrorView, CommandView,
    Outcome,
};
use crate::text::{any_line_holds, some_line_holds};
use vstd::prelude::*;
use vstd::string::*;

verus! {

/// How the rule listing shows a rule of `table` for the selector `from`.
pub open spec fn rule_needle(from: Seq<char>, table: u32) -> Seq<char> {
    "from "@ + from + " lookup "@ + decimal(table as nat)
}

/// Whether the listing `rules` shows a rule of `table` for `from`: some line
/// of it holds the selector and the table in the listing's notation, as
/// words of their own, so that neither a longer selector nor a table with
/// more digits is taken for the one asked for.
pub open spec fn rule_listed(rules: Seq<char>, from: Seq<char>, table: u32) -> bool {
    some_line_holds(rules, rule_needle(from, table))
}

/// The command that lists the rules.
pub fn ip_rule_list() -> (command: Command)
    ensures
        command@ == CommandView::ListRules,
{
    Command::ListRules
}

/// Whether the rule listing `rules` shows a rule of `table` for `from`.
pub fn ip_rule_exists(rules: &str, from: &str, table: u32) -> (listed: bool)
    ensures
        listed == rule_listed(rules@, from@, table),
{
    let mut needle = String::from_str("from ");
    needle.append(from);
    needle.append(" lookup ");
    needle.append(decimal_text(table).as_str());
    any_line_holds(rules, needle.as_str())
}

/// The command that deletes the rule of `table` for `from`. Its outcome is
/// of no account: a rule that was not there is as good as one removed.
pub fn del_ip_rule_quiet(from: &str, table: u32) -> (command: Command)
    ensures
        command@ == (CommandView::DeleteRule { from: from@, table }),
{
    Command::DeleteRule { from: String::from_str(from), table }
}

/// The insertion of one rule, between its commands.
#[derive(Debug, Clone, PartialEq, Eq)]
pub enum RuleInsertion {
    /// The rules are being listed.
    Listing { from: String, table: u32, priority: u32 },
    /// The rule was not listed and is being added.
    Adding,
}

/// An insertion as a mathematical value.
pub enum RuleInsertionView {
    Listing { from: Seq<char>, table: u32, priority: u32 },
    Adding,
}

impl View for RuleInsertion {
    type V = RuleInsertionView;

    open spec fn view(&self) -> RuleInsertionView {
        match self {
            RuleInsertion::Listing { from, table, priority } => RuleInsertionView::Listing {
                from: from@,
                table: *table,
                priority: *priority,
            },
            RuleInsertion::Adding => RuleInsertionView::Adding,
        }
    }
}

/// What an insertion does next.
#[derive(Debug, PartialEq, Eq)]
pub enum InsertionStep {
    /// Run the command and come back with its outcome.
    Run(RuleInsertion, Command),
    /// The insertion is over: the rule is in place, or a command failed.
    Done(Result<(), CommandError>),
}

/// A step as a mathematical value.
pub enum InsertionStepView {
    Run(RuleInsertionView, CommandView),
    Done(Result<(), CommandErrorView>),
}

impl View for InsertionStep {
    type V = InsertionStepView;

    open spec fn view(&self) -> InsertionStepView {
        match self {
            InsertionStep::Run(state, command) => InsertionStepView::Run(state@, command@),
            InsertionStep::Done(Ok(_)) => InsertionStepView::Done(Ok(())),
            InsertionStep::Done(Err(error)) => InsertionStepView::Done(Err(error@)),
        }
    }
}

impl RuleInsertionView {
    /// The insertion's rule: a failed command ends it with that failure; a
    /// listing that shows the rule ends it with nothing added; otherwise
    /// the rule is added, and the insertion is over when that came back.
    pub open spec fn advance(self, outcome: Result<Seq<char>, CommandErrorView>)
        -> InsertionStepView {
        match outcome {
            Err(error) => InsertionStepView::Done(Err(error)),
            Ok(output) => match self {
                RuleInsertionView::Listing { from, table, priority } => {
                    if rule_listed(output, from, table) {
                        InsertionStepView::Done(Ok(()))
                    } else {
                        InsertionStepView::Run(
                            RuleInsertionView::Adding,
                            CommandView::AddRule { from, table, priority },
                        )
                    }
                },
                RuleInsertionView::Adding => InsertionStepView::Done(Ok(())),
            },
        }
    }
}

/// Starts the insertion of the rule of `table` for `from` with priority
/// `prio`: the first thing to do is to list the rules.
pub fn add_ip_rule(from: &str, table: u32, prio: u32) -> (start: (RuleInsertion, Command))
    ensures
        start.0@ == (RuleInsertionView::Listing { from: from@, table, priority: prio }),
        start.1@ == CommandView::ListRules,
{
    (RuleInsertion::Listing { from: String::from_str(from), table, priority: prio }, ip_rule_list())
}

impl RuleInsertion {
    /// Takes the outcome of the command that was run last and says what to
    /// do next.
    pub fn advance(self, outcome: Outcome) -> (step: InsertionStep)
        ensures
            step@ == self@.advance(outcome_view(outcome)),
    {
        match outcome {
            Err(error) => InsertionStep::Done(Err(error)),
            Ok(output) => match self {
                RuleInsertion::Listing { from, table, priority } => {
                    if ip_rule_exists(output.as_str(), from.as_str(), table) {
                        InsertionStep::Done(Ok(()))
                    } else {
                        InsertionStep::Run(
                            RuleInsertion::Adding,
                            Command::AddRule { from, table, priority },
                        )
                    }
                },
                RuleInsertion::Adding => InsertionStep::Done(Ok(())),
            },
        }
    }
}

} // verus!
