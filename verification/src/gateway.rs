//! Gateway discovery: the next hop of an interface's default route, read
//! from the route listing.

use crate::command::{
    outcome_view, Command, CommandError, CommandErrorView, CommandView, Outcome,
};
use crate::pattern::{capture, capture_lines, captures_of, first_capture, LineCapture, LineCaptureView};
use crate::text::{holds_words, line_holds, split_lines};
use vstd::prelude::*;
use vstd::string::*;

verus! {

/// A route's next hop: the word `via`, white space, and a dotted quad, which
/// is what is captured.
pub const GATEWAY_PATTERN: &'static str = "via\\s+(\\d+\\.\\d+\\.\\d+\\.\\d+)";

/// Whether a route line names the device `iface`: it holds the word `dev`
/// and the interface's name behind it, and the name ends there.
pub open spec fn names_device(line: Seq<char>, iface: Seq<char>) -> bool {
    holds_words(line, "dev "@ + iface)
}

/// The next hop of the first line that names the device and holds one.
pub open spec fn first_gateway(lines: Seq<LineCaptureView>, iface: Seq<char>) -> Option<
    Seq<char>,
>
    decreases lines.len(),
{
    if lines.len() == 0 {
        None
    } else if names_device(lines[0].line, iface) && lines[0].capture is Some {
        lines[0].capture
    } else {
        first_gateway(lines.drop_first(), iface)
    }
}

/// Picks, from route lines that were matched for a next hop, the next hop of
/// the first line that names the device `iface`.
pub fn pick_gateway(lines: &Vec<LineCapture>, iface: &str) -> (gateway: Option<String>)
    ensures
        gateway.deep_view() == first_gateway(lines.deep_view(), iface@),
{
    let mut marker = String::from_str("dev ");
    marker.append(iface);
    let mut k: usize = 0;
    assert(lines.deep_view().skip(0) =~= lines.deep_view());
    while k < lines.len()
        invariant
            k <= lines.len(),
            marker@ == "dev "@ + iface@,
            first_gateway(lines.deep_view(), iface@) == first_gateway(
                lines.deep_view().skip(k as int),
                iface@,
            ),
        decreases lines.len() - k,
    {
        let ghost rest = lines.deep_view().skip(k as int);
        assert(rest[0] == lines[k as int]@);
        assert(rest.drop_first() =~= lines.deep_view().skip(k + 1));
        if line_holds(lines[k].line.as_str(), marker.as_str()) {
            match &lines[k].capture {
                Some(gateway) => {
                    return Some(gateway.clone());
                },
                None => {},
            }
        }
        k += 1;
    }
    None
}

/// Where a discovery stands, between its commands.
#[derive(Debug, Clone, PartialEq, Eq)]
pub enum Discovery {
    /// The default route of the interface alone was asked for.
    Scoped { iface: String },
    /// All default routes were asked for.
    Listed { iface: String },
}

/// A discovery as a mathematical value.
pub enum DiscoveryView {
    Scoped { iface: Seq<char> },
    Listed { iface: Seq<char> },
}

impl View for Discovery {
    type V = DiscoveryView;

    open spec fn view(&self) -> DiscoveryView {
        match self {
            Discovery::Scoped { iface } => DiscoveryView::Scoped { iface: iface@ },
            Discovery::Listed { iface } => DiscoveryView::Listed { iface: iface@ },
        }
    }
}

/// Why no gateway was found.
#[derive(Debug, Clone, PartialEq, Eq)]
pub enum DiscoveryError {
    /// A route query failed.
    Command(CommandError),
    /// Neither query showed a default route for the interface.
    NoGateway { iface: String },
}

/// A discovery's failure as a mathematical value.
pub enum DiscoveryErrorView {
    Command(CommandErrorView),
    NoGateway { iface: Seq<char> },
}

impl View for DiscoveryError {
    type V = DiscoveryErrorView;

    open spec fn view(&self) -> DiscoveryErrorView {
        match self {
            DiscoveryError::Command(error) => DiscoveryErrorView::Command(error@),
            DiscoveryError::NoGateway { iface } => DiscoveryErrorView::NoGateway { iface: iface@ },
        }
    }
}

impl DiscoveryErrorView {
    /// The report for the caller.
    pub open spec fn message(self) -> Seq<char> {
        match self {
            DiscoveryErrorView::Command(error) => error.message(),
            DiscoveryErrorView::NoGateway { iface } => {
                "Could not determine default gateway for iface "@ + iface
            },
        }
    }
}

impl DiscoveryError {
    /// The report for the caller.
    pub fn message(&self) -> (text: String)
        ensures
            text@ == self@.message(),
    {
        match self {
            DiscoveryError::Command(error) => error.message(),
            DiscoveryError::NoGateway { iface } => {
                let mut text = String::from_str("Could not determine default gateway for iface ");
                text.append(iface.as_str());
                text
            },
        }
    }
}

/// What a discovery does next.
#[derive(Debug, PartialEq, Eq)]
pub enum DiscoveryStep {
    /// Run the command and come back with its outcome.
    Run(Discovery, Command),
    /// The discovery is over: with the gateway, or without one.
    Done(Result<String, DiscoveryError>),
}

/// A step as a mathematical value.
pub enum DiscoveryStepView {
    Run(DiscoveryView, CommandView),
    Done(Result<Seq<char>, DiscoveryErrorView>),
}

impl View for DiscoveryStep {
    type V = DiscoveryStepView;

    open spec fn view(&self) -> DiscoveryStepView {
        match self {
            DiscoveryStep::Run(state, command) => DiscoveryStepView::Run(state@, command@),
            DiscoveryStep::Done(Ok(gateway)) => DiscoveryStepView::Done(Ok(gateway@)),
            DiscoveryStep::Done(Err(error)) => DiscoveryStepView::Done(Err(error@)),
        }
    }
}

/// What a query showed: the gateway it holds for the interface, if any, or
/// the query's failure.
pub open spec fn finding_view(finding: Result<Option<String>, CommandError>) -> Result<
    Option<Seq<char>>,
    CommandErrorView,
> {
    match finding {
        Ok(gateway) => Ok(gateway.deep_view()),
        Err(error) => Err(error@),
    }
}

impl DiscoveryView {
    /// The interface whose gateway is looked for.
    pub open spec fn iface(self) -> Seq<char> {
        match self {
            DiscoveryView::Scoped { iface } => iface,
            DiscoveryView::Listed { iface } => iface,
        }
    }

    /// The gateway that a query's output holds for the interface: for the
    /// scoped query the first next hop in the output, for the full listing
    /// the next hop of the first line that names the device and holds one.
    pub open spec fn finding(self, outcome: Result<Seq<char>, CommandErrorView>) -> Result<
        Option<Seq<char>>,
        CommandErrorView,
    > {
        match outcome {
            Err(error) => Err(error),
            Ok(output) => match self {
                DiscoveryView::Scoped { iface } => Ok(first_capture(GATEWAY_PATTERN@, output)),
                DiscoveryView::Listed { iface } => Ok(
                    first_gateway(captures_of(GATEWAY_PATTERN@, split_lines(output)), iface),
                ),
            },
        }
    }

    /// The discovery's rule: a failed query ends it; a gateway ends it; with
    /// none from the scoped query the full listing is asked for, and with
    /// none from that either there is no gateway.
    pub open spec fn decide(self, finding: Result<Option<Seq<char>>, CommandErrorView>)
        -> DiscoveryStepView {
        match finding {
            Err(error) => DiscoveryStepView::Done(Err(DiscoveryErrorView::Command(error))),
            Ok(Some(gateway)) => DiscoveryStepView::Done(Ok(gateway)),
            Ok(None) => match self {
                DiscoveryView::Scoped { iface } => DiscoveryStepView::Run(
                    DiscoveryView::Listed { iface },
                    CommandView::ShowDefaultRoute { scope: None },
                ),
                DiscoveryView::Listed { iface } => DiscoveryStepView::Done(
                    Err(DiscoveryErrorView::NoGateway { iface }),
                ),
            },
        }
    }

    /// What follows on the outcome of the query that was run last.
    pub open spec fn advance(self, outcome: Result<Seq<char>, CommandErrorView>)
        -> DiscoveryStepView {
        self.decide(self.finding(outcome))
    }
}

/// Starts the discovery of the default gateway of `iface`: the first thing
/// to do is to ask for the default route of that interface alone.
pub fn get_default_gateway_for_iface(iface: &str) -> (start: (Discovery, Command))
    ensures
        start.0@ == (DiscoveryView::Scoped { iface: iface@ }),
        start.1@ == (CommandView::ShowDefaultRoute { scope: Some(iface@) }),
{
    (
        Discovery::Scoped { iface: String::from_str(iface) },
        Command::ShowDefaultRoute { scope: Some(String::from_str(iface)) },
    )
}

impl Discovery {
    /// Says what to do once a query has been read for a gateway.
    pub fn decide(self, finding: Result<Option<String>, CommandError>) -> (step: DiscoveryStep)
        ensures
            step@ == self@.decide(finding_view(finding)),
    {
        match finding {
            Err(error) => DiscoveryStep::Done(Err(DiscoveryError::Command(error))),
            Ok(Some(gateway)) => DiscoveryStep::Done(Ok(gateway)),
            Ok(None) => match self {
                Discovery::Scoped { iface } => DiscoveryStep::Run(
                    Discovery::Listed { iface },
                    Command::ShowDefaultRoute { scope: None },
                ),
                Discovery::Listed { iface } => DiscoveryStep::Done(
                    Err(DiscoveryError::NoGateway { iface }),
                ),
            },
        }
    }

    /// Takes the outcome of the query that was run last and says what to do
    /// next.
    pub fn advance(self, outcome: Outcome) -> (step: DiscoveryStep)
        ensures
            step@ == self@.advance(outcome_view(outcome)),
    {
        let finding = match outcome {
            Err(error) => Err(error),
            Ok(output) => match &self {
                Discovery::Scoped { iface } => Ok(capture(GATEWAY_PATTERN, output.as_str())),
                Discovery::Listed { iface } => {
                    let lines = capture_lines(GATEWAY_PATTERN, output.as_str());
                    Ok(pick_gateway(&lines, iface.as_str()))
                },
            },
        };
        self.decide(finding)
    }
}

} // verus!
