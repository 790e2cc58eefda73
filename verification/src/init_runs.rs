//! The start-up sequence run against the model of the system: what it
//! leaves behind in the rule table and in the routes, whatever the commands
//! bring back.

use crate::command::CommandView;
use crate::config::ConfigView;
use crate::init::{InitPhaseView, InitStepView, InitializationView};
use crate::kernel::{
    count_rules, has_rule, lemma_count_after_add, lemma_count_of, lemma_rules_of_after_add,
    lemma_single_rule, rules_of, Answer, Destination, Kernel, PolicyRule, Route,
};
use crate::gateway::{DiscoveryStepView, DiscoveryView};
use crate::pattern::{captures_of, LineCaptureView};
use crate::policy::{lan_subnet_text, PRIO_LAN_DEFAULT, PRIO_SPECIFIC, TABLE_WAN0, TABLE_WAN1};
use crate::routes::{link_commands, MirrorView, LINK_PATTERN};
use crate::rules::RuleInsertionView;
use crate::text::split_lines;
use vstd::prelude::*;

verus! {

/// The rule that sends the whole subnet to the primary table.
pub open spec fn subnet_rule() -> PolicyRule {
    PolicyRule { selector: lan_subnet_text(), table: TABLE_WAN0, priority: PRIO_LAN_DEFAULT }
}

/// Whether every command of `pending` replaces a link-scope route.
pub open spec fn replaces_links(pending: Seq<CommandView>) -> bool {
    forall|i: int| 0 <= i < pending.len() ==> (#[trigger] pending[i]) is ReplaceLinkRoute
}

/// Whether `command` is of the kind that belongs to the phase of `state`.
/// A gateway is looked for on the interface of its WAN. The only command
/// that changes a rule is the addition of the subnet's rule, with the
/// priority of the subnet's rule; the only commands that change a route are
/// replacements.
pub open spec fn in_step(state: InitializationView, command: CommandView) -> bool {
    match state.phase {
        InitPhaseView::CleaningPrimary => command is DeleteAddress,
        InitPhaseView::CleaningSecondary => command is DeleteAddress,
        InitPhaseView::GatewayPrimary(discovery) => {
            command is ShowDefaultRoute && discovery.iface() == state.config.wan0
        },
        InitPhaseView::GatewaySecondary { primary, discovery } => {
            command is ShowDefaultRoute && discovery.iface() == state.config.wan1
        },
        InitPhaseView::RoutePrimary { secondary } => {
            &&& command matches CommandView::ReplaceDefaultRoute { gateway, dev, table }
            &&& dev == state.config.wan0
            &&& table == TABLE_WAN0
        },
        InitPhaseView::RouteSecondary => {
            &&& command matches CommandView::ReplaceDefaultRoute { gateway, dev, table }
            &&& dev == state.config.wan1
            &&& table == TABLE_WAN1
        },
        InitPhaseView::LinksPrimary(MirrorView::Listing { iface, table }) => {
            command is ListLinkRoutes
        },
        InitPhaseView::LinksPrimary(MirrorView::Replacing { pending }) => {
            command is ReplaceLinkRoute && replaces_links(pending)
        },
        InitPhaseView::LinksSecondary(MirrorView::Listing { iface, table }) => {
            command is ListLinkRoutes
        },
        InitPhaseView::LinksSecondary(MirrorView::Replacing { pending }) => {
            command is ReplaceLinkRoute && replaces_links(pending)
        },
        InitPhaseView::BaseRule(RuleInsertionView::Listing { from, table, priority }) => {
            &&& command == CommandView::ListRules
            &&& from == lan_subnet_text()
            &&& table == TABLE_WAN0
            &&& priority == PRIO_LAN_DEFAULT
        },
        InitPhaseView::BaseRule(RuleInsertionView::Adding) => command == (CommandView::AddRule {
            from: lan_subnet_text(),
            table: TABLE_WAN0,
            priority: PRIO_LAN_DEFAULT,
        }),
    }
}

/// The start-up sequence under way, together with what it works on and
/// what it has found.
pub struct InitRun {
    pub kernel: Kernel,
    pub step: InitStepView,
    /// The gateway that the discovery on the primary WAN's interface ended
    /// with, once it has.
    pub primary: Option<Seq<char>>,
    /// The gateway that the discovery on the secondary WAN's interface
    /// ended with, once it has.
    pub secondary: Option<Seq<char>>,
}

/// The gateway that a discovery ends with on `answer`, if it ends with one.
pub open spec fn found(discovery: DiscoveryView, answer: Answer) -> Option<Seq<char>> {
    match discovery.advance(answer) {
        DiscoveryStepView::Done(Ok(gateway)) => Some(gateway),
        _ => None,
    }
}

impl InitRun {
    /// The sequence as it starts: the first command is out and nothing has
    /// come back.
    pub open spec fn started(config: ConfigView, kernel: Kernel) -> InitRun {
        InitRun {
            kernel,
            step: InitStepView::Run(
                InitializationView { config, phase: InitPhaseView::CleaningPrimary },
                CommandView::DeleteAddress { cidr: lan_subnet_text(), dev: config.wan0 },
            ),
            primary: None,
            secondary: None,
        }
    }

    /// Whether `answer` shows the truth about the subnet's rule, where the
    /// command that is out lists the rules.
    pub open spec fn answered(self, answer: Answer) -> bool {
        match self.step {
            InitStepView::Run(state, command) => self.kernel.shows_truly(
                command,
                answer,
                lan_subnet_text(),
                TABLE_WAN0,
            ),
            InitStepView::Done(_) => true,
        }
    }

    /// The run after `answer` came back for the command that is out. A run
    /// that is over stays as it is.
    pub open spec fn next(self, answer: Answer) -> InitRun {
        match self.step {
            InitStepView::Run(state, command) => InitRun {
                kernel: self.kernel.after(command, answer),
                step: state.advance(answer),
                primary: match state.phase {
                    InitPhaseView::GatewayPrimary(discovery) => found(discovery, answer),
                    _ => self.primary,
                },
                secondary: match state.phase {
                    InitPhaseView::GatewaySecondary { primary, discovery } => found(
                        discovery,
                        answer,
                    ),
                    _ => self.secondary,
                },
            },
            InitStepView::Done(_) => self,
        }
    }

    /// The run after the answers came back one by one.
    pub open spec fn run(self, answers: Seq<Answer>) -> InitRun
        decreases answers.len(),
    {
        if answers.len() == 0 {
            self
        } else {
            self.next(answers[0]).run(answers.drop_first())
        }
    }

    /// Whether every rule listing among the answers shows the truth about
    /// the subnet's rule at its turn.
    pub open spec fn truthful(self, answers: Seq<Answer>) -> bool
        decreases answers.len(),
    {
        answers.len() == 0 || (self.answered(answers[0]) && self.next(answers[0]).truthful(
            answers.drop_first(),
        ))
    }

    /// Whether the sequence went through.
    pub open spec fn went_through(self) -> bool {
        self.step matches InitStepView::Done(Ok(_))
    }
}

/// Whether the default route of `table` goes via `gateway` on `dev`.
pub open spec fn default_route_by(
    kernel: Kernel,
    table: u32,
    dev: Seq<char>,
    gateway: Option<Seq<char>>,
) -> bool {
    &&& gateway is Some
    &&& kernel.routes.contains_key(Destination::Default { table })
    &&& kernel.routes[Destination::Default { table }] == (Route { gateway, dev })
}

spec fn primary_routed(phase: InitPhaseView) -> bool {
    phase is RouteSecondary || phase is LinksPrimary || phase is LinksSecondary || phase is BaseRule
}

spec fn secondary_routed(phase: InitPhaseView) -> bool {
    phase is LinksPrimary || phase is LinksSecondary || phase is BaseRule
}

/// Where a truthful run of the sequence can be, seen from its start.
spec fn on_course(now: InitRun, config: ConfigView, kernel: Kernel) -> bool {
    match now.step {
        InitStepView::Run(state, command) => {
            &&& state.config == config
            &&& in_step(state, command)
            &&& now.kernel.rules == kernel.rules
            &&& state.phase matches InitPhaseView::BaseRule(RuleInsertionView::Adding) ==> !has_rule(
                kernel.rules,
                lan_subnet_text(),
                TABLE_WAN0,
            )
            &&& state.phase matches InitPhaseView::GatewaySecondary { primary, discovery }
                ==> now.primary == Some(primary)
            &&& state.phase matches InitPhaseView::RoutePrimary { secondary } ==> now.secondary
                == Some(secondary) && now.primary is Some && command
                == (CommandView::ReplaceDefaultRoute {
                gateway: now.primary->0,
                dev: config.wan0,
                table: TABLE_WAN0,
            })
            &&& state.phase is RouteSecondary ==> now.secondary is Some && command
                == (CommandView::ReplaceDefaultRoute {
                gateway: now.secondary->0,
                dev: config.wan1,
                table: TABLE_WAN1,
            })
            &&& primary_routed(state.phase) ==> default_route_by(
                now.kernel,
                TABLE_WAN0,
                config.wan0,
                now.primary,
            )
            &&& secondary_routed(state.phase) ==> default_route_by(
                now.kernel,
                TABLE_WAN1,
                config.wan1,
                now.secondary,
            )
        },
        InitStepView::Done(Ok(_)) => {
            &&& default_route_by(now.kernel, TABLE_WAN0, config.wan0, now.primary)
            &&& default_route_by(now.kernel, TABLE_WAN1, config.wan1, now.secondary)
            &&& if has_rule(kernel.rules, lan_subnet_text(), TABLE_WAN0) {
                now.kernel.rules == kernel.rules
            } else {
                now.kernel.rules == kernel.rules.push(subnet_rule())
            }
        },
        InitStepView::Done(Err(_)) => now.kernel.rules == kernel.rules,
    }
}

/// Every command that copies link routes replaces a link-scope route.
pub proof fn lemma_link_commands_replace(
    lines: Seq<LineCaptureView>,
    iface: Seq<char>,
    table: u32,
)
    ensures
        replaces_links(link_commands(lines, iface, table)),
    decreases lines.len(),
{
    if lines.len() > 0 {
        lemma_link_commands_replace(lines.drop_last(), iface, table);
    }
}

proof fn lemma_in_step(state: InitializationView, command: CommandView, answer: Answer)
    requires
        in_step(state, command),
    ensures
        state.advance(answer) matches InitStepView::Run(next, following) ==> in_step(
            next,
            following,
        ) && next.config == state.config,
{
    match state.phase {
        InitPhaseView::LinksPrimary(MirrorView::Listing { iface, table })
        | InitPhaseView::LinksSecondary(MirrorView::Listing { iface, table }) => {
            if let Ok(output) = answer {
                lemma_link_commands_replace(
                    captures_of(LINK_PATTERN@, split_lines(output)),
                    iface,
                    table,
                );
            }
        },
        _ => {},
    }
}

proof fn lemma_step(now: InitRun, answer: Answer, config: ConfigView, kernel: Kernel)
    requires
        on_course(now, config, kernel),
        now.answered(answer),
    ensures
        on_course(now.next(answer), config, kernel),
{
    match now.step {
        InitStepView::Run(state, command) => {
            lemma_in_step(state, command, answer);
            lemma_count_after_add(kernel.rules, subnet_rule(), lan_subnet_text(), TABLE_WAN0);
        },
        InitStepView::Done(_) => {},
    }
}

proof fn lemma_run(now: InitRun, answers: Seq<Answer>, config: ConfigView, kernel: Kernel)
    requires
        on_course(now, config, kernel),
        now.truthful(answers),
    ensures
        on_course(now.run(answers), config, kernel),
    decreases answers.len(),
{
    if answers.len() > 0 {
        lemma_step(now, answers[0], config, kernel);
        lemma_run(now.next(answers[0]), answers.drop_first(), config, kernel);
    }
}

/// The start-up sequence never leaves its protocol: the command that
/// follows on any answer is again of the kind that belongs to the phase.
pub proof fn initialization_stays_in_step(
    state: InitializationView,
    command: CommandView,
    answer: Answer,
)
    requires
        in_step(state, command),
    ensures
        state.advance(answer) matches InitStepView::Run(next, following) ==> in_step(
            next,
            following,
        ) && next.config == state.config,
        in_step(
            InitializationView { config: state.config, phase: InitPhaseView::CleaningPrimary },
            CommandView::DeleteAddress { cidr: lan_subnet_text(), dev: state.config.wan0 },
        ),
{
    lemma_in_step(state, command, answer);
}

proof fn lemma_run_in_step(now: InitRun, answers: Seq<Answer>)
    requires
        now.step matches InitStepView::Run(state, command) ==> in_step(state, command),
    ensures
        now.run(answers).step matches InitStepView::Run(state, command) ==> in_step(
            state,
            command,
        ),
    decreases answers.len(),
{
    if answers.len() > 0 {
        if let InitStepView::Run(state, command) = now.step {
            lemma_in_step(state, command, answers[0]);
        }
        lemma_run_in_step(now.next(answers[0]), answers.drop_first());
    }
}

/// Whatever comes back during the start-up sequence, the one rule that it
/// adds is the subnet's rule, in the primary table, and its priority value
/// is strictly above that of any override, so every override is evaluated
/// before it. The sequence deletes no rule.
pub proof fn subnet_rule_ranks_behind_overrides(
    config: ConfigView,
    kernel: Kernel,
    answers: Seq<Answer>,
)
    ensures
        InitRun::started(config, kernel).run(answers).step matches InitStepView::Run(
            _,
            command,
        ) ==> !(command is DeleteRule) && (command matches CommandView::AddRule {
            from,
            table,
            priority,
        } ==> from == lan_subnet_text() && table == TABLE_WAN0 && priority == PRIO_LAN_DEFAULT
            && PRIO_SPECIFIC < priority),
{
    lemma_run_in_step(InitRun::started(config, kernel), answers);
}

/// The start-up sequence adds the subnet's rule at most once, and never
/// where the system holds it already: on a system that holds the rule the
/// rule table stays as it is, however far the sequence gets; on any other
/// the only change there can be is that one rule, behind all others. No
/// other rule is added or removed.
pub proof fn initialization_adds_subnet_rule_once(
    config: ConfigView,
    kernel: Kernel,
    answers: Seq<Answer>,
)
    requires
        InitRun::started(config, kernel).truthful(answers),
    ensures
        ({
            let end = InitRun::started(config, kernel).run(answers);
            if has_rule(kernel.rules, lan_subnet_text(), TABLE_WAN0) {
                end.kernel.rules == kernel.rules
            } else {
                end.kernel.rules == kernel.rules || end.kernel.rules == kernel.rules.push(
                    subnet_rule(),
                )
            }
        }),
{
    lemma_run(InitRun::started(config, kernel), answers, config, kernel);
}

/// Whether the subnet has no rule, in whatever table, or its one rule and
/// nothing else.
pub open spec fn subnet_kept(kernel: Kernel) -> bool {
    let own = rules_of(kernel.rules, lan_subnet_text());
    own == Seq::<PolicyRule>::empty() || own == seq![subnet_rule()]
}

/// A start-up sequence that went through leaves the default policy in
/// place: the default route of each table goes via the gateway that was
/// found on the interface of its WAN, on that interface, and the subnet's
/// rule is there. Where the subnet had no rule but that one before, it has
/// exactly that one after: bound to the primary table, with the priority of
/// the subnet's rule.
pub proof fn initialization_converges(config: ConfigView, kernel: Kernel, answers: Seq<Answer>)
    requires
        InitRun::started(config, kernel).truthful(answers),
        InitRun::started(config, kernel).run(answers).went_through(),
    ensures
        ({
            let end = InitRun::started(config, kernel).run(answers);
            &&& default_route_by(end.kernel, TABLE_WAN0, config.wan0, end.primary)
            &&& default_route_by(end.kernel, TABLE_WAN1, config.wan1, end.secondary)
            &&& has_rule(end.kernel.rules, lan_subnet_text(), TABLE_WAN0)
            &&& count_rules(kernel.rules, lan_subnet_text(), TABLE_WAN0) <= 1 ==> count_rules(
                end.kernel.rules,
                lan_subnet_text(),
                TABLE_WAN0,
            ) == 1
            &&& subnet_kept(kernel) ==> rules_of(end.kernel.rules, lan_subnet_text())
                == seq![subnet_rule()]
        }),
{
    lemma_run(InitRun::started(config, kernel), answers, config, kernel);
    lemma_count_after_add(kernel.rules, subnet_rule(), lan_subnet_text(), TABLE_WAN0);
    lemma_count_of(kernel.rules, lan_subnet_text(), TABLE_WAN0);
    lemma_single_rule(subnet_rule(), lan_subnet_text(), TABLE_WAN0);
    lemma_rules_of_after_add(kernel.rules, subnet_rule(), lan_subnet_text());
    assert(Seq::<PolicyRule>::empty().push(subnet_rule()) =~= seq![subnet_rule()]);
}

/// Running the start-up sequence again on the system that a first run left
/// converged adds no rule: the rule table after the second run is the rule
/// table after the first, however far the second run gets.
pub proof fn second_initialization_adds_no_rule(
    config: ConfigView,
    kernel: Kernel,
    first: Seq<Answer>,
    second: Seq<Answer>,
)
    requires
        InitRun::started(config, kernel).truthful(first),
        InitRun::started(config, kernel).run(first).went_through(),
        InitRun::started(config, InitRun::started(config, kernel).run(first).kernel).truthful(
            second,
        ),
    ensures
        ({
            let converged = InitRun::started(config, kernel).run(first).kernel;
            let end = InitRun::started(config, converged).run(second);
            &&& end.kernel.rules == converged.rules
            &&& end.went_through() ==> default_route_by(
                end.kernel,
                TABLE_WAN0,
                config.wan0,
                end.primary,
            ) && default_route_by(end.kernel, TABLE_WAN1, config.wan1, end.secondary)
        }),
{
    let converged = InitRun::started(config, kernel).run(first).kernel;
    initialization_converges(config, kernel, first);
    initialization_adds_subnet_rule_once(config, converged, second);
    lemma_run(InitRun::started(config, converged), second, config, converged);
}

/// Whether the sequence has dealt with the routes: it is at the subnet's
/// rule, or over.
pub open spec fn routes_dealt_with(step: InitStepView) -> bool {
    step is Done || (step matches InitStepView::Run(state, _) && state.phase is BaseRule)
}

proof fn lemma_run_append(now: InitRun, first: Seq<Answer>, then: Seq<Answer>)
    ensures
        now.run(first + then) == now.run(first).run(then),
    decreases first.len(),
{
    if first.len() == 0 {
        assert(first + then =~= then);
    } else {
        assert((first + then).drop_first() =~= first.drop_first() + then);
        assert((first + then)[0] == first[0]);
        lemma_run_append(now.next(first[0]), first.drop_first(), then);
    }
}

/// What a run does to the routes is laid over what was there, and what it
/// does next depends on the answers alone.
proof fn lemma_routes_laid_over(now: InitRun, bare: InitRun, answers: Seq<Answer>)
    requires
        now.step == bare.step,
        bare.kernel.routes == Map::<Destination, Route>::empty(),
    ensures
        now.run(answers).step == bare.run(answers).step,
        now.run(answers).kernel.routes == now.kernel.routes.union_prefer_right(
            bare.run(answers).kernel.routes,
        ),
    decreases answers.len(),
{
    if answers.len() == 0 {
        assert(now.kernel.routes =~= now.kernel.routes.union_prefer_right(bare.kernel.routes));
    } else {
        let now_next = now.next(answers[0]);
        let bare_next = bare.next(answers[0]);
        let none = InitRun {
            kernel: Kernel { rules: bare_next.kernel.rules, routes: Map::empty() },
            step: bare_next.step,
            primary: bare_next.primary,
            secondary: bare_next.secondary,
        };
        lemma_routes_laid_over(now_next, none, answers.drop_first());
        lemma_routes_laid_over(bare_next, none, answers.drop_first());
        let rest = none.run(answers.drop_first()).kernel.routes;
        assert(now_next.kernel.routes.union_prefer_right(rest)
            =~= now.kernel.routes.union_prefer_right(
            bare_next.kernel.routes.union_prefer_right(rest),
        ));
    }
}

proof fn lemma_routes_stay(now: InitRun, answers: Seq<Answer>)
    requires
        routes_dealt_with(now.step),
        now.step matches InitStepView::Run(state, command) ==> in_step(state, command),
    ensures
        now.run(answers).kernel.routes == now.kernel.routes,
    decreases answers.len(),
{
    if answers.len() > 0 {
        if let InitStepView::Run(state, command) = now.step {
            lemma_in_step(state, command, answers[0]);
        }
        lemma_routes_stay(now.next(answers[0]), answers.drop_first());
    }
}

/// What the sequence does to the routes does not depend on the routes that
/// were there, and doing it twice is doing it once: a run that hears what
/// another run heard, on the routes that the other left, leaves them as
/// they are.
pub proof fn same_answers_leave_same_routes(
    config: ConfigView,
    kernel: Kernel,
    later: Kernel,
    answers: Seq<Answer>,
)
    requires
        later.routes == InitRun::started(config, kernel).run(answers).kernel.routes,
    ensures
        InitRun::started(config, later).run(answers).kernel.routes == later.routes,
        InitRun::started(config, later).run(answers).step == InitRun::started(config, kernel).run(
            answers,
        ).step,
{
    let bare = InitRun::started(config, Kernel { rules: kernel.rules, routes: Map::empty() });
    lemma_routes_laid_over(InitRun::started(config, kernel), bare, answers);
    lemma_routes_laid_over(InitRun::started(config, later), bare, answers);
    let written = bare.run(answers).kernel.routes;
    assert(later.routes.union_prefer_right(written) =~= later.routes);
}

/// Running the start-up sequence again on the system that a first run left
/// leaves every route as it is, when the second run hears what the first
/// run heard until the routes were dealt with: one route for each
/// destination, and the same one. What the two runs hear once they are at
/// the subnet's rule is of no account.
pub proof fn second_initialization_leaves_routes(
    config: ConfigView,
    kernel: Kernel,
    heard: Seq<Answer>,
    first: Seq<Answer>,
    second: Seq<Answer>,
)
    requires
        routes_dealt_with(InitRun::started(config, kernel).run(heard).step),
    ensures
        ({
            let converged = InitRun::started(config, kernel).run(heard + first).kernel;
            InitRun::started(config, converged).run(heard + second).kernel.routes
                == converged.routes
        }),
{
    let start = InitRun::started(config, kernel);
    let converged = start.run(heard + first).kernel;
    let again = InitRun::started(config, converged);
    lemma_run_append(start, heard, first);
    lemma_run_append(again, heard, second);
    lemma_run_in_step(start, heard);
    lemma_run_in_step(again, heard);
    lemma_routes_stay(start.run(heard), first);
    assert(converged.routes == start.run(heard).kernel.routes);
    same_answers_leave_same_routes(config, kernel, converged, heard);
    lemma_routes_stay(again.run(heard), second);
}

/// Running the start-up sequence again on the system that a first run left
/// converged changes nothing at all: no rule and no route is added, removed
/// or altered, however far the second run gets. This holds when the second
/// run hears what the first run heard until the routes were dealt with, and
/// the rule listings of both runs show the truth.
pub proof fn second_initialization_changes_nothing(
    config: ConfigView,
    kernel: Kernel,
    heard: Seq<Answer>,
    first: Seq<Answer>,
    second: Seq<Answer>,
)
    requires
        routes_dealt_with(InitRun::started(config, kernel).run(heard).step),
        InitRun::started(config, kernel).truthful(heard + first),
        InitRun::started(config, kernel).run(heard + first).went_through(),
        InitRun::started(
            config,
            InitRun::started(config, kernel).run(heard + first).kernel,
        ).truthful(heard + second),
    ensures
        ({
            let converged = InitRun::started(config, kernel).run(heard + first).kernel;
            InitRun::started(config, converged).run(heard + second).kernel == converged
        }),
{
    second_initialization_adds_no_rule(config, kernel, heard + first, heard + second);
    second_initialization_leaves_routes(config, kernel, heard, first, second);
}

/// Whether the sequence is listing the rules to see whether the subnet's
/// rule is there.
pub open spec fn listing_rules(step: InitStepView) -> bool {
    step matches InitStepView::Run(state, _) && state.phase matches InitPhaseView::BaseRule(
        RuleInsertionView::Listing { .. },
    )
}

proof fn lemma_truthful_append(now: InitRun, first: Seq<Answer>, then: Seq<Answer>)
    requires
        now.truthful(first + then),
    ensures
        now.truthful(first),
        now.run(first).truthful(then),
    decreases first.len(),
{
    if first.len() == 0 {
        assert(first + then =~= then);
    } else {
        assert((first + then).drop_first() =~= first.drop_first() + then);
        assert((first + then)[0] == first[0]);
        lemma_truthful_append(now.next(first[0]), first.drop_first(), then);
    }
}

proof fn lemma_over_stays_over(now: InitRun, answers: Seq<Answer>)
    requires
        now.step is Done,
    ensures
        now.run(answers) == now,
    decreases answers.len(),
{
    if answers.len() > 0 {
        lemma_over_stays_over(now.next(answers[0]), answers.drop_first());
    }
}

proof fn lemma_addition_ends(now: InitRun, answers: Seq<Answer>)
    requires
        now.step matches InitStepView::Run(state, _) && state.phase matches InitPhaseView::BaseRule(
            RuleInsertionView::Adding,
        ),
        answers.len() >= 1,
    ensures
        now.run(answers).step is Done,
{
    lemma_over_stays_over(now.next(answers[0]), answers.drop_first());
}

/// While the sequence has not yet come to list the rules, it has not added
/// one.
proof fn lemma_no_addition_before_listing(start: InitRun, heard: Seq<Answer>, k: int)
    requires
        start.step matches InitStepView::Run(state, command) ==> in_step(state, command),
        listing_rules(start.run(heard).step),
        0 <= k <= heard.len(),
    ensures
        !(start.run(heard.take(k)).step matches InitStepView::Run(_, CommandView::AddRule { .. })),
{
    let here = start.run(heard.take(k));
    lemma_run_in_step(start, heard.take(k));
    lemma_run_in_step(start, heard);
    assert(heard =~= heard.take(k) + heard.skip(k));
    lemma_run_append(start, heard.take(k), heard.skip(k));
    if here.step matches InitStepView::Run(state, CommandView::AddRule { .. }) {
        if k < heard.len() {
            lemma_addition_ends(here, heard.skip(k));
        } else {
            assert(heard.skip(k) =~= Seq::<Answer>::empty());
        }
    }
}

/// Running the start-up sequence again on the system that a first run left
/// converged goes through without adding a rule. When the second run hears
/// what the first heard until the rules are listed, and the listing comes
/// back and shows the truth, then the second run is over with that answer
/// and has gone through; it has at no point asked for a rule to be added;
/// and the system is as the first run left it, rule for rule and route for
/// route.
pub proof fn second_initialization_goes_through(
    config: ConfigView,
    kernel: Kernel,
    heard: Seq<Answer>,
    first: Seq<Answer>,
    listing: Seq<char>,
)
    requires
        listing_rules(InitRun::started(config, kernel).run(heard).step),
        InitRun::started(config, kernel).truthful(heard + first),
        InitRun::started(config, kernel).run(heard + first).went_through(),
        InitRun::started(
            config,
            InitRun::started(config, kernel).run(heard + first).kernel,
        ).truthful(heard.push(Ok(listing))),
    ensures
        ({
            let converged = InitRun::started(config, kernel).run(heard + first).kernel;
            let again = InitRun::started(config, converged);
            let second = heard.push(Ok(listing));
            &&& again.run(second).went_through()
            &&& again.run(second).kernel == converged
            &&& forall|k: int|
                0 <= k <= second.len() ==> !(#[trigger] again.run(second.take(k)).step
                    matches InitStepView::Run(_, CommandView::AddRule { .. }))
        }),
{
    let start = InitRun::started(config, kernel);
    let converged = start.run(heard + first).kernel;
    let again = InitRun::started(config, converged);
    let answer: Answer = Ok(listing);
    let second = heard.push(answer);
    assert(second =~= heard + seq![answer]);
    // The second run comes to the listing as the first did.
    let bare = InitRun::started(config, Kernel { rules: kernel.rules, routes: Map::empty() });
    lemma_routes_laid_over(start, bare, heard);
    lemma_routes_laid_over(again, bare, heard);
    let there = again.run(heard);
    assert(there.step == start.run(heard).step);
    lemma_run_in_step(again, heard);
    // Until then it has changed no rule, and the subnet's rule is there.
    initialization_converges(config, kernel, heard + first);
    lemma_truthful_append(again, heard, seq![answer]);
    lemma_run(again, heard, config, converged);
    assert(there.kernel.rules == converged.rules);
    // So the listing shows the rule, and the run is over.
    lemma_run_append(again, heard, seq![answer]);
    assert(seq![answer].drop_first() =~= Seq::<Answer>::empty());
    assert(seq![answer][0] == answer);
    assert(there.next(answer).run(seq![answer].drop_first()) == there.next(answer));
    assert(there.run(seq![answer]) == there.next(answer));
    assert(there.answered(answer));
    assert(again.run(second).went_through());
    second_initialization_changes_nothing(config, kernel, heard, first, seq![answer]);
    assert forall|k: int| 0 <= k <= second.len() implies !(#[trigger] again.run(
        second.take(k),
    ).step matches InitStepView::Run(_, CommandView::AddRule { .. })) by {
        if k <= heard.len() {
            assert(second.take(k) =~= heard.take(k));
            lemma_no_addition_before_listing(again, heard, k);
        } else {
            assert(second.take(k) =~= second);
        }
    }
}

} // verus!
