//! The commands the engine hands to the system's `ip` tool, and the reading
//! of what a run of one brought back.

use vstd::prelude::*;
use vstd::string::*;

verus! {

/// The decimal digit for a value below ten.
pub open spec fn digit(d: nat) -> char {
    if d == 0 {
        '0'
    } else if d == 1 {
        '1'
    } else if d == 2 {
        '2'
    } else if d == 3 {
        '3'
    } else if d == 4 {
        '4'
    } else if d == 5 {
        '5'
    } else if d == 6 {
        '6'
    } else if d == 7 {
        '7'
    } else if d == 8 {
        '8'
    } else {
        '9'
    }
}

/// A number in decimal notation, without sign or leading zeros.
pub open spec fn decimal(n: nat) -> Seq<char>
    decreases n,
{
    if n < 10 {
        seq![digit(n)]
    } else {
        decimal(n / 10).push(digit(n % 10))
    }
}

fn digit_text(d: u32) -> (text: &'static str)
    requires
        d < 10,
    ensures
        text@ == seq![digit(d as nat)],
{
    proof {
        reveal_strlit("0");
        reveal_strlit("1");
        reveal_strlit("2");
        reveal_strlit("3");
        reveal_strlit("4");
        reveal_strlit("5");
        reveal_strlit("6");
        reveal_strlit("7");
        reveal_strlit("8");
        reveal_strlit("9");
    }
    let text = if d == 0 {
        "0"
    } else if d == 1 {
        "1"
    } else if d == 2 {
        "2"
    } else if d == 3 {
        "3"
    } else if d == 4 {
        "4"
    } else if d == 5 {
        "5"
    } else if d == 6 {
        "6"
    } else if d == 7 {
        "7"
    } else if d == 8 {
        "8"
    } else {
        "9"
    };
    assert(text@ =~= seq![digit(d as nat)]);
    text
}

/// Writes a number in decimal notation.
pub fn decimal_text(n: u32) -> (text: String)
    ensures
        text@ == decimal(n as nat),
    decreases n,
{
    if n < 10 {
        String::from_str(digit_text(n))
    } else {
        let mut text = decimal_text(n / 10);
        text.append(digit_text(n % 10));
        assert(text@ =~= decimal(n as nat));
        text
    }
}

/// One invocation of the `ip` tool.
#[derive(Debug, Clone, PartialEq, Eq)]
pub enum Command {
    /// Show the default routes, of one device or of all.
    ShowDefaultRoute { scope: Option<String> },
    /// Create or overwrite the default route of a table.
    ReplaceDefaultRoute { gateway: String, dev: String, table: u32 },
    /// List the policy rules.
    ListRules,
    /// Add a source-selector rule with an explicit priority.
    AddRule { from: String, table: u32, priority: u32 },
    /// Delete a source-selector rule.
    DeleteRule { from: String, table: u32 },
    /// List the IPv4 link-scope routes of a device.
    ListLinkRoutes { dev: String },
    /// Create or overwrite a link-scope route in a table.
    ReplaceLinkRoute { prefix: String, dev: String, table: u32 },
    /// Remove an address assignment from a device.
    DeleteAddress { cidr: String, dev: String },
}

/// A command as a mathematical value.
pub enum CommandView {
    ShowDefaultRoute { scope: Option<Seq<char>> },
    ReplaceDefaultRoute { gateway: Seq<char>, dev: Seq<char>, table: u32 },
    ListRules,
    AddRule { from: Seq<char>, table: u32, priority: u32 },
    DeleteRule { from: Seq<char>, table: u32 },
    ListLinkRoutes { dev: Seq<char> },
    ReplaceLinkRoute { prefix: Seq<char>, dev: Seq<char>, table: u32 },
    DeleteAddress { cidr: Seq<char>, dev: Seq<char> },
}

impl CommandView {
    /// The exact argument list that the tool is started with.
    pub open spec fn argv(self) -> Seq<Seq<char>> {
        match self {
            CommandView::ShowDefaultRoute { scope: None } => seq!["route"@, "show"@, "default"@],
            CommandView::ShowDefaultRoute { scope: Some(dev) } => seq![
                "route"@,
                "show"@,
                "default"@,
                "dev"@,
                dev,
            ],
            CommandView::ReplaceDefaultRoute { gateway, dev, table } => seq![
                "route"@,
                "replace"@,
                "default"@,
                "via"@,
                gateway,
                "dev"@,
                dev,
                "table"@,
                decimal(table as nat),
            ],
            CommandView::ListRules => seq!["rule"@, "show"@],
            CommandView::AddRule { from, table, priority } => seq![
                "rule"@,
                "add"@,
                "from"@,
                from,
                "lookup"@,
                decimal(table as nat),
                "priority"@,
                decimal(priority as nat),
            ],
            CommandView::DeleteRule { from, table } => seq![
                "rule"@,
                "del"@,
                "from"@,
                from,
                "lookup"@,
                decimal(table as nat),
            ],
            CommandView::ListLinkRoutes { dev } => seq![
                "-4"@,
                "route"@,
                "show"@,
                "dev"@,
                dev,
                "scope"@,
                "link"@,
            ],
            CommandView::ReplaceLinkRoute { prefix, dev, table } => seq![
                "route"@,
                "replace"@,
                prefix,
                "dev"@,
                dev,
                "scope"@,
                "link"@,
                "table"@,
                decimal(table as nat),
            ],
            CommandView::DeleteAddress { cidr, dev } => seq!["addr"@, "del"@, cidr, "dev"@, dev],
        }
    }
}

impl View for Command {
    type V = CommandView;

    open spec fn view(&self) -> CommandView {
        match self {
            Command::ShowDefaultRoute { scope } => CommandView::ShowDefaultRoute {
                scope: scope.deep_view(),
            },
            Command::ReplaceDefaultRoute { gateway, dev, table } => {
                CommandView::ReplaceDefaultRoute { gateway: gateway@, dev: dev@, table: *table }
            },
            Command::ListRules => CommandView::ListRules,
            Command::AddRule { from, table, priority } => CommandView::AddRule {
                from: from@,
                table: *table,
                priority: *priority,
            },
            Command::DeleteRule { from, table } => CommandView::DeleteRule {
                from: from@,
                table: *table,
            },
            Command::ListLinkRoutes { dev } => CommandView::ListLinkRoutes { dev: dev@ },
            Command::ReplaceLinkRoute { prefix, dev, table } => CommandView::ReplaceLinkRoute {
                prefix: prefix@,
                dev: dev@,
                table: *table,
            },
            Command::DeleteAddress { cidr, dev } => CommandView::DeleteAddress {
                cidr: cidr@,
                dev: dev@,
            },
        }
    }
}

impl DeepView for Command {
    type V = CommandView;

    open spec fn deep_view(&self) -> CommandView {
        self@
    }
}

/// The words of `argv` behind the program's name, one space before each.
pub open spec fn spaced(argv: Seq<Seq<char>>) -> Seq<char>
    decreases argv.len(),
{
    if argv.len() == 0 {
        Seq::empty()
    } else {
        spaced(argv.drop_last()) + " "@ + argv.last()
    }
}

/// The command as one line of text: the program's name and its arguments.
pub open spec fn command_line(command: CommandView) -> Seq<char> {
    "ip"@ + spaced(command.argv())
}

impl Command {
    /// The name of the program that every command starts.
    pub fn program() -> (name: &'static str)
        ensures
            name@ == "ip"@,
    {
        "ip"
    }

    /// The arguments to start the program with.
    pub fn argv(&self) -> (args: Vec<String>)
        ensures
            args.deep_view() == self@.argv(),
    {
        let mut args: Vec<String> = Vec::new();
        match self {
            Command::ShowDefaultRoute { scope } => {
                args.push(String::from_str("route"));
                args.push(String::from_str("show"));
                args.push(String::from_str("default"));
                match scope {
                    Some(dev) => {
                        args.push(String::from_str("dev"));
                        args.push(dev.clone());
                    },
                    None => {},
                }
            },
            Command::ReplaceDefaultRoute { gateway, dev, table } => {
                args.push(String::from_str("route"));
                args.push(String::from_str("replace"));
                args.push(String::from_str("default"));
                args.push(String::from_str("via"));
                args.push(gateway.clone());
                args.push(String::from_str("dev"));
                args.push(dev.clone());
                args.push(String::from_str("table"));
                args.push(decimal_text(*table));
            },
            Command::ListRules => {
                args.push(String::from_str("rule"));
                args.push(String::from_str("show"));
            },
            Command::AddRule { from, table, priority } => {
                args.push(String::from_str("rule"));
                args.push(String::from_str("add"));
                args.push(String::from_str("from"));
                args.push(from.clone());
                args.push(String::from_str("lookup"));
                args.push(decimal_text(*table));
                args.push(String::from_str("priority"));
                args.push(decimal_text(*priority));
            },
            Command::DeleteRule { from, table } => {
                args.push(String::from_str("rule"));
                args.push(String::from_str("del"));
                args.push(String::from_str("from"));
                args.push(from.clone());
                args.push(String::from_str("lookup"));
                args.push(decimal_text(*table));
            },
            Command::ListLinkRoutes { dev } => {
                args.push(String::from_str("-4"));
                args.push(String::from_str("route"));
                args.push(String::from_str("show"));
                args.push(String::from_str("dev"));
                args.push(dev.clone());
                args.push(String::from_str("scope"));
                args.push(String::from_str("link"));
            },
            Command::ReplaceLinkRoute { prefix, dev, table } => {
                args.push(String::from_str("route"));
                args.push(String::from_str("replace"));
                args.push(prefix.clone());
                args.push(String::from_str("dev"));
                args.push(dev.clone());
                args.push(String::from_str("scope"));
                args.push(String::from_str("link"));
                args.push(String::from_str("table"));
                args.push(decimal_text(*table));
            },
            Command::DeleteAddress { cidr, dev } => {
                args.push(String::from_str("addr"));
                args.push(String::from_str("del"));
                args.push(cidr.clone());
                args.push(String::from_str("dev"));
                args.push(dev.clone());
            },
        }
        assert(args.deep_view() =~= self@.argv());
        args
    }

    /// The command as one line of text.
    pub fn line(&self) -> (text: String)
        ensures
            text@ == command_line(self@),
    {
        let args = self.argv();
        let mut text = String::from_str("ip");
        let mut k: usize = 0;
        while k < args.len()
            invariant
                k <= args.len(),
                args.deep_view() == self@.argv(),
                text@ == "ip"@ + spaced(args.deep_view().take(k as int)),
            decreases args.len() - k,
        {
            text.append(" ");
            text.append(args[k].as_str());
            proof {
                let words = args.deep_view();
                assert(words.take(k + 1).drop_last() =~= words.take(k as int));
                assert(words.take(k + 1).last() == args[k as int]@);
                assert(text@ =~= "ip"@ + spaced(words.take(k + 1)));
            }
            k += 1;
        }
        assert(args.deep_view().take(k as int) =~= args.deep_view());
        text
    }
}

/// What became of an attempt to run a command.
#[derive(Debug, Clone, PartialEq, Eq)]
pub enum Execution {
    /// The program could not be started.
    NotStarted { reason: String },
    /// The program ran to its end.
    Exited { success: bool, stdout: String, stderr: String },
}

/// A command that did not succeed.
#[derive(Debug, Clone, PartialEq, Eq)]
pub struct CommandError {
    /// The command, as one line of text.
    pub command_line: String,
    /// Whether the program was started at all.
    pub started: bool,
    /// The error text of the program, or why it could not be started.
    pub detail: String,
}

/// A failed command as a mathematical value.
pub struct CommandErrorView {
    pub command_line: Seq<char>,
    pub started: bool,
    pub detail: Seq<char>,
}

impl View for CommandError {
    type V = CommandErrorView;

    open spec fn view(&self) -> CommandErrorView {
        CommandErrorView {
            command_line: self.command_line@,
            started: self.started,
            detail: self.detail@,
        }
    }
}

impl CommandErrorView {
    /// The report for the caller: for a program that ran, the command and
    /// its error text; for one that did not start, the command alone.
    pub open spec fn message(self) -> Seq<char> {
        if self.started {
            self.command_line + " failed: "@ + self.detail
        } else {
            "failed to run "@ + self.command_line
        }
    }
}

impl CommandError {
    /// The report for the caller.
    pub fn message(&self) -> (text: String)
        ensures
            text@ == self@.message(),
    {
        if self.started {
            let mut text = self.command_line.clone();
            text.append(" failed: ");
            text.append(self.detail.as_str());
            text
        } else {
            let mut text = String::from_str("failed to run ");
            text.append(self.command_line.as_str());
            text
        }
    }
}

/// What a command brought back: its output, or its failure.
pub type Outcome = Result<String, CommandError>;

/// An outcome as a mathematical value.
pub open spec fn outcome_view(outcome: Outcome) -> Result<Seq<char>, CommandErrorView> {
    match outcome {
        Ok(output) => Ok(output@),
        Err(error) => Err(error@),
    }
}

/// What a run of `command` amounts to, as a mathematical value.
pub open spec fn outcome_of(command: CommandView, execution: Execution) -> Result<
    Seq<char>,
    CommandErrorView,
> {
    match execution {
        Execution::NotStarted { reason } => Err(
            CommandErrorView {
                command_line: command_line(command),
                started: false,
                detail: reason@,
            },
        ),
        Execution::Exited { success, stdout, stderr } => if success {
            Ok(stdout@)
        } else {
            Err(
                CommandErrorView {
                    command_line: command_line(command),
                    started: true,
                    detail: stderr@,
                },
            )
        },
    }
}

/// Reads what a run of `command` brought back: the output of a program that
/// ran and reported success; otherwise the failure, with the error text of a
/// program that ran, or the reason why it could not be started.
pub fn run_cmd(command: &Command, execution: Execution) -> (outcome: Outcome)
    ensures
        outcome_view(outcome) == outcome_of(command@, execution),
{
    match execution {
        Execution::NotStarted { reason } => Err(
            CommandError { command_line: command.line(), started: false, detail: reason },
        ),
        Execution::Exited { success, stdout, stderr } => {
            if success {
                Ok(stdout)
            } else {
                Err(CommandError { command_line: command.line(), started: true, detail: stderr })
            }
        },
    }
}

} // verus!
