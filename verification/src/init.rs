//! The start-up sequence that brings the system to its default policy: both
//! tables with their default and link routes, and the whole subnet sent to
//! the primary table.

use crate::command::{
    decimal, decimal_text, outcome_view, Command, CommandError, CommandErrorView, CommandView,
    Outcome,
};
use crate::config::{Config, ConfigView};
use crate::gateway::{
    get_default_gateway_for_iface, Discovery, DiscoveryError, DiscoveryErrorView, DiscoveryStep,
    DiscoveryStepView, DiscoveryView,
};
use crate::policy::{lan_subnet, lan_subnet_text, PRIO_LAN_DEFAULT, TABLE_WAN0, TABLE_WAN1};
use crate::rules::{
    add_ip_rule, InsertionStep, InsertionStepView, RuleInsertion, RuleInsertionView,
};
use crate::routes::{
    ensure_table_default_route, mirror_link_routes_to_table, Mirror, MirrorStep, MirrorStepView,
    MirrorView,
};
use vstd::prelude::*;
use vstd::string::*;

verus! {

/// Why the start-up sequence stopped.
#[derive(Debug, Clone, PartialEq, Eq)]
pub enum InitError {
    /// No gateway was found for a WAN interface.
    Gateway { iface: String, failure: DiscoveryError },
    /// The default route of a table could not be set.
    DefaultRoute { table: u32, cause: CommandError },
    /// The link-scope routes of an interface could not be listed.
    LinkRoutes { iface: String, table: u32, cause: CommandError },
    /// The subnet's rule could not be put in place.
    BaseRule { cause: CommandError },
}

/// A start-up failure as a mathematical value.
pub enum InitErrorView {
    Gateway { iface: Seq<char>, failure: DiscoveryErrorView },
    DefaultRoute { table: u32, cause: CommandErrorView },
    LinkRoutes { iface: Seq<char>, table: u32, cause: CommandErrorView },
    BaseRule { cause: CommandErrorView },
}

impl View for InitError {
    type V = InitErrorView;

    open spec fn view(&self) -> InitErrorView {
        match self {
            InitError::Gateway { iface, failure } => InitErrorView::Gateway {
                iface: iface@,
                failure: failure@,
            },
            InitError::DefaultRoute { table, cause } => InitErrorView::DefaultRoute {
                table: *table,
                cause: cause@,
            },
            InitError::LinkRoutes { iface, table, cause } => InitErrorView::LinkRoutes {
                iface: iface@,
                table: *table,
                cause: cause@,
            },
            InitError::BaseRule { cause } => InitErrorView::BaseRule { cause: cause@ },
        }
    }
}

impl InitErrorView {
    /// What was being done when the sequence stopped.
    pub open spec fn context(self) -> Seq<char> {
        match self {
            InitErrorView::Gateway { iface, failure } => "get gateway for "@ + iface,
            InitErrorView::DefaultRoute { table, cause } => "set table "@ + decimal(table as nat)
                + " default route"@,
            InitErrorView::LinkRoutes { iface, table, cause } => "mirror link routes for "@ + iface
                + " to table "@ + decimal(table as nat),
            InitErrorView::BaseRule { cause } => "add base LAN policy rule"@,
        }
    }

    /// What went wrong.
    pub open spec fn cause_message(self) -> Seq<char> {
        match self {
            InitErrorView::Gateway { iface, failure } => failure.message(),
            InitErrorView::DefaultRoute { table, cause } => cause.message(),
            InitErrorView::LinkRoutes { iface, table, cause } => cause.message(),
            InitErrorView::BaseRule { cause } => cause.message(),
        }
    }

    /// The report: what was being done, and what went wrong.
    pub open spec fn message(self) -> Seq<char> {
        self.context() + ": "@ + self.cause_message()
    }
}

impl InitError {
    /// The report: what was being done, and what went wrong.
    pub fn message(&self) -> (text: String)
        ensures
            text@ == self@.message(),
    {
        let mut text: String;
        let cause: String;
        match self {
            InitError::Gateway { iface, failure: why } => {
                text = String::from_str("get gateway for ");
                text.append(iface.as_str());
                cause = why.message();
            },
            InitError::DefaultRoute { table, cause: why } => {
                text = String::from_str("set table ");
                text.append(decimal_text(*table).as_str());
                text.append(" default route");
                cause = why.message();
            },
            InitError::LinkRoutes { iface, table, cause: why } => {
                text = String::from_str("mirror link routes for ");
                text.append(iface.as_str());
                text.append(" to table ");
                text.append(decimal_text(*table).as_str());
                cause = why.message();
            },
            InitError::BaseRule { cause: why } => {
                text = String::from_str("add base LAN policy rule");
                cause = why.message();
            },
        }
        text.append(": ");
        text.append(cause.as_str());
        text
    }
}

/// Where the start-up sequence stands, between its commands.
#[derive(Debug, PartialEq, Eq)]
pub enum InitPhase {
    /// A stray address of the subnet is being removed from the primary WAN.
    CleaningPrimary,
    /// A stray address of the subnet is being removed from the secondary WAN.
    CleaningSecondary,
    /// The gateway of the primary WAN is being looked for.
    GatewayPrimary(Discovery),
    /// The gateway of the secondary WAN is being looked for.
    GatewaySecondary { primary: String, discovery: Discovery },
    /// The default route of the primary table is being set.
    RoutePrimary { secondary: String },
    /// The default route of the secondary table is being set.
    RouteSecondary,
    /// The link routes of the primary WAN are being copied to its table.
    LinksPrimary(Mirror),
    /// The link routes of the secondary WAN are being copied to its table.
    LinksSecondary(Mirror),
    /// The subnet's rule is being put in place.
    BaseRule(RuleInsertion),
}

/// A phase as a mathematical value.
pub enum InitPhaseView {
    CleaningPrimary,
    CleaningSecondary,
    GatewayPrimary(DiscoveryView),
    GatewaySecondary { primary: Seq<char>, discovery: DiscoveryView },
    RoutePrimary { secondary: Seq<char> },
    RouteSecondary,
    LinksPrimary(MirrorView),
    LinksSecondary(MirrorView),
    BaseRule(RuleInsertionView),
}

impl View for InitPhase {
    type V = InitPhaseView;

    open spec fn view(&self) -> InitPhaseView {
        match self {
            InitPhase::CleaningPrimary => InitPhaseView::CleaningPrimary,
            InitPhase::CleaningSecondary => InitPhaseView::CleaningSecondary,
            InitPhase::GatewayPrimary(discovery) => InitPhaseView::GatewayPrimary(discovery@),
            InitPhase::GatewaySecondary { primary, discovery } => InitPhaseView::GatewaySecondary {
                primary: primary@,
                discovery: discovery@,
            },
            InitPhase::RoutePrimary { secondary } => InitPhaseView::RoutePrimary {
                secondary: secondary@,
            },
            InitPhase::RouteSecondary => InitPhaseView::RouteSecondary,
            InitPhase::LinksPrimary(mirror) => InitPhaseView::LinksPrimary(mirror@),
            InitPhase::LinksSecondary(mirror) => InitPhaseView::LinksSecondary(mirror@),
            InitPhase::BaseRule(insertion) => InitPhaseView::BaseRule(insertion@),
        }
    }
}

/// The start-up sequence, under way.
#[derive(Debug, PartialEq, Eq)]
pub struct Initialization {
    /// The interface names.
    pub config: Config,
    /// What is being done at the moment.
    pub phase: InitPhase,
}

/// A start-up sequence under way as a mathematical value.
pub struct InitializationView {
    pub config: ConfigView,
    pub phase: InitPhaseView,
}

impl View for Initialization {
    type V = InitializationView;

    open spec fn view(&self) -> InitializationView {
        InitializationView { config: self.config@, phase: self.phase@ }
    }
}

/// What the start-up sequence does next.
#[derive(Debug, PartialEq, Eq)]
pub enum InitStep {
    /// Run the command and come back with its outcome.
    Run(Initialization, Command),
    /// The sequence is over: the default policy is in place, or a step that
    /// had to succeed did not.
    Done(Result<(), InitError>),
}

/// A step as a mathematical value.
pub enum InitStepView {
    Run(InitializationView, CommandView),
    Done(Result<(), InitErrorView>),
}

impl View for InitStep {
    type V = InitStepView;

    open spec fn view(&self) -> InitStepView {
        match self {
            InitStep::Run(state, command) => InitStepView::Run(state@, command@),
            InitStep::Done(Ok(_)) => InitStepView::Done(Ok(())),
            InitStep::Done(Err(error)) => InitStepView::Done(Err(error@)),
        }
    }
}

impl InitializationView {
    /// The sequence at another phase.
    pub open spec fn at(self, phase: InitPhaseView) -> InitializationView {
        InitializationView { config: self.config, phase }
    }

    /// The sequence's rule, phase by phase. The two clean-ups run whatever
    /// comes back. Both gateways are found before any route is touched, and
    /// a gateway that cannot be found ends the sequence. Then each table
    /// gets its default route, then each its copy of the link routes, and
    /// last the subnet's rule goes into the primary table unless the listing
    /// shows it. From the gateways on, a failure ends the sequence, but for
    /// the single replacements of a copy.
    pub open spec fn advance(self, outcome: Result<Seq<char>, CommandErrorView>) -> InitStepView {
        let config = self.config;
        match self.phase {
            InitPhaseView::CleaningPrimary => InitStepView::Run(
                self.at(InitPhaseView::CleaningSecondary),
                CommandView::DeleteAddress { cidr: lan_subnet_text(), dev: config.wan1 },
            ),
            InitPhaseView::CleaningSecondary => InitStepView::Run(
                self.at(
                    InitPhaseView::GatewayPrimary(DiscoveryView::Scoped { iface: config.wan0 }),
                ),
                CommandView::ShowDefaultRoute { scope: Some(config.wan0) },
            ),
            InitPhaseView::GatewayPrimary(discovery) => match discovery.advance(outcome) {
                DiscoveryStepView::Run(next, command) => InitStepView::Run(
                    self.at(InitPhaseView::GatewayPrimary(next)),
                    command,
                ),
                DiscoveryStepView::Done(Err(failure)) => InitStepView::Done(
                    Err(InitErrorView::Gateway { iface: config.wan0, failure }),
                ),
                DiscoveryStepView::Done(Ok(primary)) => InitStepView::Run(
                    self.at(
                        InitPhaseView::GatewaySecondary {
                            primary,
                            discovery: DiscoveryView::Scoped { iface: config.wan1 },
                        },
                    ),
                    CommandView::ShowDefaultRoute { scope: Some(config.wan1) },
                ),
            },
            InitPhaseView::GatewaySecondary { primary, discovery } => match discovery.advance(
                outcome,
            ) {
                DiscoveryStepView::Run(next, command) => InitStepView::Run(
                    self.at(InitPhaseView::GatewaySecondary { primary, discovery: next }),
                    command,
                ),
                DiscoveryStepView::Done(Err(failure)) => InitStepView::Done(
                    Err(InitErrorView::Gateway { iface: config.wan1, failure }),
                ),
                DiscoveryStepView::Done(Ok(secondary)) => InitStepView::Run(
                    self.at(InitPhaseView::RoutePrimary { secondary }),
                    CommandView::ReplaceDefaultRoute {
                        gateway: primary,
                        dev: config.wan0,
                        table: TABLE_WAN0,
                    },
                ),
            },
            InitPhaseView::RoutePrimary { secondary } => match outcome {
                Err(cause) => InitStepView::Done(
                    Err(InitErrorView::DefaultRoute { table: TABLE_WAN0, cause }),
                ),
                Ok(_) => InitStepView::Run(
                    self.at(InitPhaseView::RouteSecondary),
                    CommandView::ReplaceDefaultRoute {
                        gateway: secondary,
                        dev: config.wan1,
                        table: TABLE_WAN1,
                    },
                ),
            },
            InitPhaseView::RouteSecondary => match outcome {
                Err(cause) => InitStepView::Done(
                    Err(InitErrorView::DefaultRoute { table: TABLE_WAN1, cause }),
                ),
                Ok(_) => InitStepView::Run(
                    self.at(
                        InitPhaseView::LinksPrimary(
                            MirrorView::Listing { iface: config.wan0, table: TABLE_WAN0 },
                        ),
                    ),
                    CommandView::ListLinkRoutes { dev: config.wan0 },
                ),
            },
            InitPhaseView::LinksPrimary(mirror) => match mirror.advance(outcome) {
                MirrorStepView::Run(next, command) => InitStepView::Run(
                    self.at(InitPhaseView::LinksPrimary(next)),
                    command,
                ),
                MirrorStepView::Done(Err(cause)) => InitStepView::Done(
                    Err(InitErrorView::LinkRoutes { iface: config.wan0, table: TABLE_WAN0, cause }),
                ),
                MirrorStepView::Done(Ok(_)) => InitStepView::Run(
                    self.at(
                        InitPhaseView::LinksSecondary(
                            MirrorView::Listing { iface: config.wan1, table: TABLE_WAN1 },
                        ),
                    ),
                    CommandView::ListLinkRoutes { dev: config.wan1 },
                ),
            },
            InitPhaseView::LinksSecondary(mirror) => match mirror.advance(outcome) {
                MirrorStepView::Run(next, command) => InitStepView::Run(
                    self.at(InitPhaseView::LinksSecondary(next)),
                    command,
                ),
                MirrorStepView::Done(Err(cause)) => InitStepView::Done(
                    Err(InitErrorView::LinkRoutes { iface: config.wan1, table: TABLE_WAN1, cause }),
                ),
                MirrorStepView::Done(Ok(_)) => InitStepView::Run(
                    self.at(
                        InitPhaseView::BaseRule(
                            RuleInsertionView::Listing {
                                from: lan_subnet_text(),
                                table: TABLE_WAN0,
                                priority: PRIO_LAN_DEFAULT,
                            },
                        ),
                    ),
                    CommandView::ListRules,
                ),
            },
            InitPhaseView::BaseRule(insertion) => match insertion.advance(outcome) {
                InsertionStepView::Run(next, command) => InitStepView::Run(
                    self.at(InitPhaseView::BaseRule(next)),
                    command,
                ),
                InsertionStepView::Done(Err(cause)) => InitStepView::Done(
                    Err(InitErrorView::BaseRule { cause }),
                ),
                InsertionStepView::Done(Ok(_)) => InitStepView::Done(Ok(())),
            },
        }
    }
}

/// Starts the sequence that sends the subnet out by the primary WAN: the
/// first thing to do is to remove a stray address of the subnet from the
/// primary WAN.
pub fn initialize_lan_to_wan0(config: &Config) -> (start: (Initialization, Command))
    ensures
        start.0@ == (InitializationView { config: config@, phase: InitPhaseView::CleaningPrimary }),
        start.1@ == (CommandView::DeleteAddress { cidr: lan_subnet_text(), dev: config@.wan0 }),
{
    (
        Initialization { config: config.duplicate(), phase: InitPhase::CleaningPrimary },
        Command::DeleteAddress { cidr: String::from_str(lan_subnet()), dev: config.wan0.clone() },
    )
}

impl Initialization {
    /// Takes the outcome of the command that was run last and says what to
    /// do next.
    pub fn advance(self, outcome: Outcome) -> (step: InitStep)
        ensures
            step@ == self@.advance(outcome_view(outcome)),
    {
        let Initialization { config, phase } = self;
        match phase {
            InitPhase::CleaningPrimary => {
                let command = Command::DeleteAddress {
                    cidr: String::from_str(lan_subnet()),
                    dev: config.wan1.clone(),
                };
                InitStep::Run(Initialization { config, phase: InitPhase::CleaningSecondary }, command)
            },
            InitPhase::CleaningSecondary => {
                let (discovery, command) = get_default_gateway_for_iface(config.wan0.as_str());
                InitStep::Run(
                    Initialization { config, phase: InitPhase::GatewayPrimary(discovery) },
                    command,
                )
            },
            InitPhase::GatewayPrimary(discovery) => match discovery.advance(outcome) {
                DiscoveryStep::Run(next, command) => InitStep::Run(
                    Initialization { config, phase: InitPhase::GatewayPrimary(next) },
                    command,
                ),
                DiscoveryStep::Done(Err(failure)) => InitStep::Done(
                    Err(InitError::Gateway { iface: config.wan0, failure }),
                ),
                DiscoveryStep::Done(Ok(primary)) => {
                    let (discovery, command) = get_default_gateway_for_iface(config.wan1.as_str());
                    InitStep::Run(
                        Initialization {
                            config,
                            phase: InitPhase::GatewaySecondary { primary, discovery },
                        },
                        command,
                    )
                },
            },
            InitPhase::GatewaySecondary { primary, discovery } => match discovery.advance(outcome) {
                DiscoveryStep::Run(next, command) => InitStep::Run(
                    Initialization {
                        config,
                        phase: InitPhase::GatewaySecondary { primary, discovery: next },
                    },
                    command,
                ),
                DiscoveryStep::Done(Err(failure)) => InitStep::Done(
                    Err(InitError::Gateway { iface: config.wan1, failure }),
                ),
                DiscoveryStep::Done(Ok(secondary)) => {
                    let command = ensure_table_default_route(
                        config.wan0.as_str(),
                        TABLE_WAN0,
                        primary.as_str(),
                    );
                    InitStep::Run(
                        Initialization { config, phase: InitPhase::RoutePrimary { secondary } },
                        command,
                    )
                },
            },
            InitPhase::RoutePrimary { secondary } => match outcome {
                Err(cause) => InitStep::Done(
                    Err(InitError::DefaultRoute { table: TABLE_WAN0, cause }),
                ),
                Ok(_) => {
                    let command = ensure_table_default_route(
                        config.wan1.as_str(),
                        TABLE_WAN1,
                        secondary.as_str(),
                    );
                    InitStep::Run(Initialization { config, phase: InitPhase::RouteSecondary }, command)
                },
            },
            InitPhase::RouteSecondary => match outcome {
                Err(cause) => InitStep::Done(
                    Err(InitError::DefaultRoute { table: TABLE_WAN1, cause }),
                ),
                Ok(_) => {
                    let (mirror, command) = mirror_link_routes_to_table(
                        config.wan0.as_str(),
                        TABLE_WAN0,
                    );
                    InitStep::Run(
                        Initialization { config, phase: InitPhase::LinksPrimary(mirror) },
                        command,
                    )
                },
            },
            InitPhase::LinksPrimary(mirror) => match mirror.advance(outcome) {
                MirrorStep::Run(next, command) => InitStep::Run(
                    Initialization { config, phase: InitPhase::LinksPrimary(next) },
                    command,
                ),
                MirrorStep::Done(Err(cause)) => InitStep::Done(
                    Err(InitError::LinkRoutes { iface: config.wan0, table: TABLE_WAN0, cause }),
                ),
                MirrorStep::Done(Ok(_)) => {
                    let (mirror, command) = mirror_link_routes_to_table(
                        config.wan1.as_str(),
                        TABLE_WAN1,
                    );
                    InitStep::Run(
                        Initialization { config, phase: InitPhase::LinksSecondary(mirror) },
                        command,
                    )
                },
            },
            InitPhase::LinksSecondary(mirror) => match mirror.advance(outcome) {
                MirrorStep::Run(next, command) => InitStep::Run(
                    Initialization { config, phase: InitPhase::LinksSecondary(next) },
                    command,
                ),
                MirrorStep::Done(Err(cause)) => InitStep::Done(
                    Err(InitError::LinkRoutes { iface: config.wan1, table: TABLE_WAN1, cause }),
                ),
                MirrorStep::Done(Ok(_)) => {
                    let (insertion, command) = add_ip_rule(
                        lan_subnet(),
                        TABLE_WAN0,
                        PRIO_LAN_DEFAULT,
                    );
                    InitStep::Run(
                        Initialization { config, phase: InitPhase::BaseRule(insertion) },
                        command,
                    )
                },
            },
            InitPhase::BaseRule(insertion) => match insertion.advance(outcome) {
                InsertionStep::Run(next, command) => InitStep::Run(
                    Initialization { config, phase: InitPhase::BaseRule(next) },
                    command,
                ),
                InsertionStep::Done(Err(cause)) => InitStep::Done(
                    Err(InitError::BaseRule { cause }),
                ),
                InsertionStep::Done(Ok(_)) => InitStep::Done(Ok(())),
            },
        }
    }
}

} // verus!
