//! Switches run against the model of the system: what a switch leaves
//! behind in the rule table and in the host record, whatever the commands
//! bring back.

use crate::command::CommandView;
use crate::config::Nic;
use crate::kernel::{
    count_rules, lemma_count_after, lemma_count_of, lemma_rules_of_after, lemma_single_rule, rules_of,
    Answer, Kernel, PolicyRule,
};
use crate::policy::{PRIO_LAN_DEFAULT, PRIO_SPECIFIC, TABLE_WAN0, TABLE_WAN1};
use crate::rules::RuleInsertionView;
use crate::switch::{
    begun, host_selector, CoordinatorView, SwitchPhaseView, SwitchSessionView, SwitchStepView,
};
use vstd::prelude::*;

verus! {

/// Whether `command` is the one that belongs to the phase of `session`: the
/// removal from the primary table, the removal from the secondary table, the
/// listing, or the addition of the host's rule to the secondary table with
/// the priority of an override. Only a switch to the secondary link lists
/// or adds.
pub open spec fn in_step(session: SwitchSessionView, command: CommandView) -> bool {
    &&& session.selector == host_selector(session.address)
    &&& match session.phase {
        SwitchPhaseView::ClearingPrimary => command == (CommandView::DeleteRule {
            from: session.selector,
            table: TABLE_WAN0,
        }),
        SwitchPhaseView::ClearingSecondary => command == (CommandView::DeleteRule {
            from: session.selector,
            table: TABLE_WAN1,
        }),
        SwitchPhaseView::Inserting(RuleInsertionView::Listing { from, table, priority }) => {
            &&& session.nic == Nic::Wan1
            &&& command == CommandView::ListRules
            &&& from == session.selector
            &&& table == TABLE_WAN1
            &&& priority == PRIO_SPECIFIC
        },
        SwitchPhaseView::Inserting(RuleInsertionView::Adding) => {
            &&& session.nic == Nic::Wan1
            &&& command == (CommandView::AddRule {
                from: session.selector,
                table: TABLE_WAN1,
                priority: PRIO_SPECIFIC,
            })
        },
    }
}

/// The host record and the system between two switches.
pub struct World {
    pub coordinator: CoordinatorView,
    pub kernel: Kernel,
}

/// One request to switch a host, with what its commands brought back.
pub struct Request {
    pub address: Seq<char>,
    pub nic: Nic,
    pub answers: Seq<Answer>,
}

/// A switch under way, together with what it works on.
pub struct SwitchRun {
    pub coordinator: CoordinatorView,
    pub kernel: Kernel,
    pub step: SwitchStepView,
}

impl SwitchRun {
    /// A switch of the host at `address` to `nic` as a valid request starts
    /// it: the first command is out and nothing has come back.
    pub open spec fn started(
        coordinator: CoordinatorView,
        kernel: Kernel,
        address: Seq<char>,
        nic: Nic,
    ) -> SwitchRun {
        SwitchRun {
            coordinator,
            kernel,
            step: SwitchStepView::Run(
                begun(address, nic),
                CommandView::DeleteRule { from: host_selector(address), table: TABLE_WAN0 },
            ),
        }
    }

    /// The run after `answer` came back for the command that is out. A run
    /// that is over stays as it is.
    pub open spec fn next(self, answer: Answer) -> SwitchRun {
        match self.step {
            SwitchStepView::Run(session, command) => {
                let (step, coordinator) = self.coordinator.advance(session, answer);
                SwitchRun { coordinator, kernel: self.kernel.after(command, answer), step }
            },
            SwitchStepView::Done(_) => self,
        }
    }

    /// The run after the answers came back one by one.
    pub open spec fn run(self, answers: Seq<Answer>) -> SwitchRun
        decreases answers.len(),
    {
        if answers.len() == 0 {
            self
        } else {
            self.next(answers[0]).run(answers.drop_first())
        }
    }

    /// Whether `answer` shows the truth about the host's override rule,
    /// where the command that is out lists the rules.
    pub open spec fn shown(self, answer: Answer) -> bool {
        match self.step {
            SwitchStepView::Run(session, command) => self.kernel.shows_truly(
                command,
                answer,
                session.selector,
                TABLE_WAN1,
            ),
            SwitchStepView::Done(_) => true,
        }
    }

    /// Whether every rule listing among the answers shows the truth about
    /// the host's override rule at its turn.
    pub open spec fn shown_truly(self, answers: Seq<Answer>) -> bool
        decreases answers.len(),
    {
        answers.len() == 0 || (self.shown(answers[0]) && self.next(answers[0]).shown_truly(
            answers.drop_first(),
        ))
    }

    /// Whether `answer` is one that the system gives to the command that is
    /// out when it does as it is told.
    pub open spec fn answered(self, answer: Answer) -> bool {
        match self.step {
            SwitchStepView::Run(session, command) => self.kernel.answers(
                command,
                answer,
                session.selector,
                TABLE_WAN1,
            ),
            SwitchStepView::Done(_) => true,
        }
    }

    /// Whether each of the answers is one that the system gives at its turn
    /// when it does as it is told.
    pub open spec fn truthful(self, answers: Seq<Answer>) -> bool
        decreases answers.len(),
    {
        answers.len() == 0 || (self.answered(answers[0]) && self.next(answers[0]).truthful(
            answers.drop_first(),
        ))
    }

    /// Whether `answer` is one that the system gives to the command that is
    /// out when it does as it is told and nothing goes wrong.
    pub open spec fn heeded(self, answer: Answer) -> bool {
        match self.step {
            SwitchStepView::Run(session, command) => self.kernel.obeys(
                command,
                answer,
                session.selector,
                TABLE_WAN1,
            ),
            SwitchStepView::Done(_) => true,
        }
    }

    /// Whether each of the answers is one that the system gives at its turn
    /// when it does as it is told and nothing goes wrong.
    pub open spec fn obeyed(self, answers: Seq<Answer>) -> bool
        decreases answers.len(),
    {
        answers.len() == 0 || (self.heeded(answers[0]) && self.next(answers[0]).obeyed(
            answers.drop_first(),
        ))
    }

    /// Whether the switch went through.
    pub open spec fn went_through(self) -> bool {
        self.step matches SwitchStepView::Done(Ok(_))
    }

    /// What the run leaves behind.
    pub open spec fn world(self) -> World {
        World { coordinator: self.coordinator, kernel: self.kernel }
    }
}

/// How many override rules are left of `before` when one was removed, if
/// there was one.
pub open spec fn cleared(before: nat) -> nat {
    if before > 0 {
        (before - 1) as nat
    } else {
        0
    }
}

/// How many override rules a host has after a switch to `nic` that went
/// through, when it had `before`: one is removed, and a host that goes to
/// the secondary link and is left with none gets one.
pub open spec fn overrides_after(before: nat, nic: Nic) -> nat {
    match nic {
        Nic::Wan0 => cleared(before),
        Nic::Wan1 => if cleared(before) == 0 {
            1
        } else {
            cleared(before)
        },
    }
}

/// Where any run of a switch can be, seen from its start: in its protocol,
/// with every other selector and every route as they were.
spec fn apart(now: SwitchRun, kernel: Kernel, address: Seq<char>) -> bool {
    &&& now.kernel.routes == kernel.routes
    &&& forall|other: Seq<char>|
        other != host_selector(address) ==> #[trigger] rules_of(now.kernel.rules, other)
            == rules_of(kernel.rules, other)
    &&& now.step matches SwitchStepView::Run(session, command) ==> session.address == address
        && in_step(session, command)
}

/// The override rule of the host at `address`.
pub open spec fn override_rule(address: Seq<char>) -> PolicyRule {
    PolicyRule { selector: host_selector(address), table: TABLE_WAN1, priority: PRIO_SPECIFIC }
}

/// The rules that a host has of its own after a switch to `nic` that went
/// through, when it had none but its override before: the override on the
/// secondary link, none on the primary link.
pub open spec fn rules_wanted(address: Seq<char>, nic: Nic) -> Seq<PolicyRule> {
    match nic {
        Nic::Wan0 => Seq::empty(),
        Nic::Wan1 => seq![override_rule(address)],
    }
}

/// Whether the host at `address` has no rule of its own, in whatever
/// table, or its override and nothing else.
pub open spec fn clean(kernel: Kernel, address: Seq<char>) -> bool {
    let own = rules_of(kernel.rules, host_selector(address));
    own == Seq::<PolicyRule>::empty() || own == seq![override_rule(address)]
}

/// Where a run of a switch can be when the system does as it is told and
/// the host had no rule but its override before.
spec fn exact(now: SwitchRun, kernel: Kernel, address: Seq<char>, nic: Nic) -> bool {
    let own = rules_of(now.kernel.rules, host_selector(address));
    &&& apart(now, kernel, address)
    &&& match now.step {
        SwitchStepView::Run(session, command) => {
            &&& session.nic == nic
            &&& if session.phase is Inserting {
                own == Seq::<PolicyRule>::empty()
            } else {
                own == rules_of(kernel.rules, host_selector(address))
            }
        },
        SwitchStepView::Done(Ok(_)) => own == rules_wanted(address, nic),
        SwitchStepView::Done(Err(_)) => own == Seq::<PolicyRule>::empty(),
    }
}

/// Where a run of a switch can be when its listings show the truth.
spec fn kept_low(now: SwitchRun, kernel: Kernel, address: Seq<char>) -> bool {
    let held = count_rules(now.kernel.rules, host_selector(address), TABLE_WAN1);
    let before = count_rules(kernel.rules, host_selector(address), TABLE_WAN1);
    &&& apart(now, kernel, address)
    &&& held <= before || held <= 1
    &&& now.step matches SwitchStepView::Run(session, command) ==> (session.phase
        matches SwitchPhaseView::Inserting(RuleInsertionView::Adding) ==> held == 0)
}

/// Where a run of a switch can be when the system does as it is told.
spec fn on_course(
    now: SwitchRun,
    coordinator: CoordinatorView,
    kernel: Kernel,
    address: Seq<char>,
    nic: Nic,
) -> bool {
    let held = count_rules(now.kernel.rules, host_selector(address), TABLE_WAN1);
    let before = count_rules(kernel.rules, host_selector(address), TABLE_WAN1);
    let stray = count_rules(now.kernel.rules, host_selector(address), TABLE_WAN0);
    let stray_before = count_rules(kernel.rules, host_selector(address), TABLE_WAN0);
    &&& apart(now, kernel, address)
    &&& stray == if now.step matches SwitchStepView::Run(session, _) && session.phase
        is ClearingPrimary {
        stray_before
    } else {
        cleared(stray_before)
    }
    &&& match now.step {
        SwitchStepView::Run(session, command) => {
            &&& now.coordinator == coordinator
            &&& session.nic == nic
            &&& match session.phase {
                SwitchPhaseView::ClearingPrimary => held == before,
                SwitchPhaseView::ClearingSecondary => held == before,
                SwitchPhaseView::Inserting(RuleInsertionView::Listing { .. }) => held == cleared(
                    before,
                ),
                SwitchPhaseView::Inserting(RuleInsertionView::Adding) => held == 0 && cleared(
                    before,
                ) == 0,
            }
        },
        SwitchStepView::Done(Ok(_)) => {
            &&& now.coordinator.config == coordinator.config
            &&& now.coordinator.mappings == coordinator.mappings.insert(address, nic)
            &&& held == overrides_after(before, nic)
        },
        SwitchStepView::Done(Err(_)) => now.coordinator == coordinator && held == cleared(before),
    }
}

proof fn lemma_apart_step(now: SwitchRun, answer: Answer, kernel: Kernel, address: Seq<char>)
    requires
        apart(now, kernel, address),
    ensures
        apart(now.next(answer), kernel, address),
{
    let then = now.next(answer);
    match now.step {
        SwitchStepView::Run(session, command) => {
            assert forall|other: Seq<char>| other != host_selector(address) implies #[trigger] rules_of(
                then.kernel.rules,
                other,
            ) == rules_of(kernel.rules, other) by {
                lemma_rules_of_after(now.kernel, command, answer, other);
            }
        },
        SwitchStepView::Done(_) => {},
    }
}

proof fn lemma_apart_run(now: SwitchRun, answers: Seq<Answer>, kernel: Kernel, address: Seq<char>)
    requires
        apart(now, kernel, address),
    ensures
        apart(now.run(answers), kernel, address),
    decreases answers.len(),
{
    if answers.len() > 0 {
        lemma_apart_step(now, answers[0], kernel, address);
        lemma_apart_run(now.next(answers[0]), answers.drop_first(), kernel, address);
    }
}

proof fn lemma_low_run(now: SwitchRun, answers: Seq<Answer>, kernel: Kernel, address: Seq<char>)
    requires
        kept_low(now, kernel, address),
        now.shown_truly(answers),
    ensures
        kept_low(now.run(answers), kernel, address),
    decreases answers.len(),
{
    if answers.len() > 0 {
        lemma_apart_step(now, answers[0], kernel, address);
        if let SwitchStepView::Run(session, command) = now.step {
            lemma_count_after(now.kernel, command, answers[0], host_selector(address), TABLE_WAN1);
        }
        lemma_low_run(now.next(answers[0]), answers.drop_first(), kernel, address);
    }
}

proof fn lemma_course_run(
    now: SwitchRun,
    answers: Seq<Answer>,
    coordinator: CoordinatorView,
    kernel: Kernel,
    address: Seq<char>,
    nic: Nic,
)
    requires
        on_course(now, coordinator, kernel, address, nic),
        now.truthful(answers),
    ensures
        on_course(now.run(answers), coordinator, kernel, address, nic),
    decreases answers.len(),
{
    if answers.len() > 0 {
        lemma_apart_step(now, answers[0], kernel, address);
        if let SwitchStepView::Run(session, command) = now.step {
            lemma_count_after(now.kernel, command, answers[0], host_selector(address), TABLE_WAN1);
            lemma_count_after(now.kernel, command, answers[0], host_selector(address), TABLE_WAN0);
        }
        lemma_course_run(
            now.next(answers[0]),
            answers.drop_first(),
            coordinator,
            kernel,
            address,
            nic,
        );
    }
}

proof fn lemma_exact_run(
    now: SwitchRun,
    answers: Seq<Answer>,
    kernel: Kernel,
    address: Seq<char>,
    nic: Nic,
)
    requires
        clean(kernel, address),
        exact(now, kernel, address, nic),
        now.truthful(answers),
    ensures
        exact(now.run(answers), kernel, address, nic),
    decreases answers.len(),
{
    if answers.len() > 0 {
        let selector = host_selector(address);
        lemma_apart_step(now, answers[0], kernel, address);
        if let SwitchStepView::Run(session, command) = now.step {
            lemma_rules_of_after(now.kernel, command, answers[0], selector);
            lemma_count_of(now.kernel.rules, selector, TABLE_WAN0);
            lemma_count_of(now.kernel.rules, selector, TABLE_WAN1);
            lemma_single_rule(override_rule(address), selector, TABLE_WAN0);
            lemma_single_rule(override_rule(address), selector, TABLE_WAN1);
            let own = rules_of(now.kernel.rules, selector);
            if own == Seq::<PolicyRule>::empty() {
                assert(Seq::<PolicyRule>::empty().push(override_rule(address))
                    =~= seq![override_rule(address)]);
            }
        }
        lemma_exact_run(now.next(answers[0]), answers.drop_first(), kernel, address, nic);
    }
}

proof fn lemma_obeyed_is_truthful(now: SwitchRun, answers: Seq<Answer>)
    requires
        now.obeyed(answers),
    ensures
        now.truthful(answers),
        now.shown_truly(answers),
    decreases answers.len(),
{
    if answers.len() > 0 {
        lemma_obeyed_is_truthful(now.next(answers[0]), answers.drop_first());
    }
}

proof fn lemma_obeyed_run(now: SwitchRun, answers: Seq<Answer>, kernel: Kernel, address: Seq<char>)
    requires
        apart(now, kernel, address),
        now.obeyed(answers),
        !(now.step matches SwitchStepView::Done(Err(_))),
    ensures
        !(now.run(answers).step matches SwitchStepView::Done(Err(_))),
    decreases answers.len(),
{
    if answers.len() > 0 {
        lemma_apart_step(now, answers[0], kernel, address);
        lemma_obeyed_run(now.next(answers[0]), answers.drop_first(), kernel, address);
    }
}

/// How many commands a switch still has to hear of at most.
spec fn answers_owed(step: SwitchStepView) -> nat {
    match step {
        SwitchStepView::Run(session, _) => match session.phase {
            SwitchPhaseView::ClearingPrimary => 4,
            SwitchPhaseView::ClearingSecondary => 3,
            SwitchPhaseView::Inserting(RuleInsertionView::Listing { .. }) => 2,
            SwitchPhaseView::Inserting(RuleInsertionView::Adding) => 1,
        },
        SwitchStepView::Done(_) => 0,
    }
}

proof fn lemma_run_ends(now: SwitchRun, answers: Seq<Answer>)
    requires
        answers.len() >= answers_owed(now.step),
    ensures
        now.run(answers).step is Done,
    decreases answers.len(),
{
    if answers.len() > 0 {
        lemma_run_ends(now.next(answers[0]), answers.drop_first());
    }
}

/// A switch never leaves its protocol: the command that follows on any
/// answer is again the one that belongs to the phase, for the same host and
/// the same link.
pub proof fn switch_stays_in_step(
    coordinator: CoordinatorView,
    session: SwitchSessionView,
    command: CommandView,
    answer: Answer,
)
    requires
        in_step(session, command),
    ensures
        coordinator.advance(session, answer).0 matches SwitchStepView::Run(next, following)
            ==> in_step(next, following) && next.address == session.address && next.nic
            == session.nic,
        in_step(
            begun(session.address, session.nic),
            CommandView::DeleteRule { from: host_selector(session.address), table: TABLE_WAN0 },
        ),
{
}

/// A switch is over when four of its commands have come back, whatever
/// they brought back.
pub proof fn switch_ends_within_four_commands(
    coordinator: CoordinatorView,
    kernel: Kernel,
    address: Seq<char>,
    nic: Nic,
    answers: Seq<Answer>,
)
    requires
        answers.len() >= 4,
    ensures
        SwitchRun::started(coordinator, kernel, address, nic).run(answers).step is Done,
{
    lemma_run_ends(SwitchRun::started(coordinator, kernel, address, nic), answers);
}

/// Whatever comes back during a switch, a rule that the switch adds for a
/// host is an override: it binds the host's selector to the secondary
/// table, and its priority value is strictly below that of the subnet's
/// rule, so it is evaluated first.
pub proof fn override_outranks_subnet_rule(
    coordinator: CoordinatorView,
    kernel: Kernel,
    address: Seq<char>,
    nic: Nic,
    answers: Seq<Answer>,
)
    ensures
        SwitchRun::started(coordinator, kernel, address, nic).run(answers).step matches SwitchStepView::Run(
            _,
            CommandView::AddRule { from, table, priority },
        ) ==> from == host_selector(address) && table == TABLE_WAN1 && priority == PRIO_SPECIFIC
            && priority < PRIO_LAN_DEFAULT,
{
    lemma_apart_run(SwitchRun::started(coordinator, kernel, address, nic), answers, kernel, address);
}

/// A switch of one host touches nothing of another, whatever comes back:
/// the rules of every other selector, in whatever table, are the same rules
/// in the same order as before, and no route has changed.
pub proof fn switch_leaves_others_alone(
    coordinator: CoordinatorView,
    kernel: Kernel,
    address: Seq<char>,
    nic: Nic,
    answers: Seq<Answer>,
    other: Seq<char>,
    table: u32,
)
    requires
        other != host_selector(address),
    ensures
        ({
            let end = SwitchRun::started(coordinator, kernel, address, nic).run(answers);
            &&& rules_of(end.kernel.rules, other) == rules_of(kernel.rules, other)
            &&& count_rules(end.kernel.rules, other, table) == count_rules(
                kernel.rules,
                other,
                table,
            )
            &&& end.kernel.routes == kernel.routes
        }),
{
    let end = SwitchRun::started(coordinator, kernel, address, nic).run(answers);
    lemma_apart_run(SwitchRun::started(coordinator, kernel, address, nic), answers, kernel, address);
    assert(rules_of(end.kernel.rules, other) == rules_of(kernel.rules, other));
    lemma_count_of(end.kernel.rules, other, table);
    lemma_count_of(kernel.rules, other, table);
}

/// A switch adds no second override: as long as the rule listings show the
/// truth, a host has at no point of a switch more override rules than it
/// had before, unless it had none and has one.
pub proof fn switch_adds_no_second_override(
    coordinator: CoordinatorView,
    kernel: Kernel,
    address: Seq<char>,
    nic: Nic,
    answers: Seq<Answer>,
)
    requires
        SwitchRun::started(coordinator, kernel, address, nic).shown_truly(answers),
    ensures
        ({
            let end = SwitchRun::started(coordinator, kernel, address, nic).run(answers);
            let held = count_rules(end.kernel.rules, host_selector(address), TABLE_WAN1);
            held <= count_rules(kernel.rules, host_selector(address), TABLE_WAN1) || held <= 1
        }),
{
    lemma_low_run(SwitchRun::started(coordinator, kernel, address, nic), answers, kernel, address);
}

/// A switch that went through, on a system that does as it is told, has
/// removed one override rule of the host if there was one, and one rule of
/// the host in the primary table if there was one, has made sure that a
/// host on the secondary link has an override, and has put the host on
/// record with its link. A host that had at most one override rule before
/// thus has exactly one on the secondary link and none on the primary link.
/// A switch that did not go through, or is still under way, leaves the
/// record as it was.
pub proof fn switch_settles_host(
    coordinator: CoordinatorView,
    kernel: Kernel,
    address: Seq<char>,
    nic: Nic,
    answers: Seq<Answer>,
)
    requires
        SwitchRun::started(coordinator, kernel, address, nic).truthful(answers),
    ensures
        ({
            let end = SwitchRun::started(coordinator, kernel, address, nic).run(answers);
            let before = count_rules(kernel.rules, host_selector(address), TABLE_WAN1);
            if end.went_through() {
                &&& count_rules(end.kernel.rules, host_selector(address), TABLE_WAN1)
                    == overrides_after(before, nic)
                &&& count_rules(end.kernel.rules, host_selector(address), TABLE_WAN0) == cleared(
                    count_rules(kernel.rules, host_selector(address), TABLE_WAN0),
                )
                &&& before <= 1 ==> overrides_after(before, nic) == (if nic == Nic::Wan1 {
                    1nat
                } else {
                    0nat
                })
                &&& end.coordinator.mappings == coordinator.mappings.insert(address, nic)
                &&& end.coordinator.config == coordinator.config
            } else {
                end.coordinator == coordinator
            }
        }),
{
    lemma_course_run(
        SwitchRun::started(coordinator, kernel, address, nic),
        answers,
        coordinator,
        kernel,
        address,
        nic,
    );
}

impl World {
    /// The start of the switch that `request` asks for.
    pub open spec fn start(self, request: Request) -> SwitchRun {
        SwitchRun::started(self.coordinator, self.kernel, request.address, request.nic)
    }

    /// The switch that `request` asks for, as far as its answers take it.
    pub open spec fn switch(self, request: Request) -> SwitchRun {
        self.start(request).run(request.answers)
    }

    /// What is left behind when the requests were served one after another.
    pub open spec fn after(self, requests: Seq<Request>) -> World
        decreases requests.len(),
    {
        if requests.len() == 0 {
            self
        } else {
            self.after(requests.drop_last()).switch(requests.last()).world()
        }
    }

    /// Whether every rule listing that came back for a request shows the
    /// truth about the override rule of the request's host.
    pub open spec fn shown_truly(self, requests: Seq<Request>) -> bool
        decreases requests.len(),
    {
        requests.len() == 0 || (self.shown_truly(requests.drop_last()) && self.after(
            requests.drop_last(),
        ).start(requests.last()).shown_truly(requests.last().answers))
    }

    /// Whether every request ran its four commands at most and heard of each
    /// what the system gives when it does as it is told and nothing goes
    /// wrong.
    pub open spec fn obeyed(self, requests: Seq<Request>) -> bool
        decreases requests.len(),
    {
        requests.len() == 0 || (self.obeyed(requests.drop_last()) && requests.last().answers.len()
            >= 4 && self.after(requests.drop_last()).start(requests.last()).obeyed(
            requests.last().answers,
        ))
    }

    /// How many override rules the host at `address` has.
    pub open spec fn overrides(self, address: Seq<char>) -> nat {
        count_rules(self.kernel.rules, host_selector(address), TABLE_WAN1)
    }

    /// Whether no host has more than one override rule.
    pub open spec fn tidy(self) -> bool {
        forall|address: Seq<char>| #[trigger] self.overrides(address) <= 1
    }
}

proof fn lemma_tidy_switch(world: World, request: Request)
    requires
        world.tidy(),
        world.start(request).shown_truly(request.answers),
    ensures
        world.switch(request).world().tidy(),
{
    let end = world.switch(request).world();
    assert(world.overrides(request.address) <= 1);
    lemma_low_run(world.start(request), request.answers, world.kernel, request.address);
    assert forall|address: Seq<char>| #[trigger] end.overrides(address) <= 1 by {
        assert(world.overrides(address) <= 1);
        let selector = host_selector(address);
        if selector != host_selector(request.address) {
            assert(rules_of(end.kernel.rules, selector) == rules_of(world.kernel.rules, selector));
            lemma_count_of(end.kernel.rules, selector, TABLE_WAN1);
            lemma_count_of(world.kernel.rules, selector, TABLE_WAN1);
        }
    }
}

/// Two hosts with different addresses have different selectors.
pub proof fn lemma_selectors_differ(first: Seq<char>, second: Seq<char>)
    requires
        first != second,
    ensures
        host_selector(first) != host_selector(second),
{
    if host_selector(first) == host_selector(second) {
        assert(first.len() == second.len()) by {
            assert(host_selector(first).len() == first.len() + "/32"@.len());
            assert(host_selector(second).len() == second.len() + "/32"@.len());
        }
        assert forall|i: int| 0 <= i < first.len() implies first[i] == second[i] by {
            assert(host_selector(first)[i] == first[i]);
            assert(host_selector(second)[i] == second[i]);
        }
        assert(first =~= second);
    }
}

/// Whatever switches are asked for, of whatever hosts to whatever links,
/// again and again and however far each one gets: as long as the rule
/// listings show the truth, where no host had more than one override rule
/// before, none has more than one after.
pub proof fn switches_keep_hosts_tidy(world: World, requests: Seq<Request>)
    requires
        world.tidy(),
        world.shown_truly(requests),
    ensures
        world.after(requests).tidy(),
    decreases requests.len(),
{
    if requests.len() > 0 {
        switches_keep_hosts_tidy(world, requests.drop_last());
        lemma_tidy_switch(world.after(requests.drop_last()), requests.last());
    }
}

/// However often one host is switched to one link, and however far each
/// switch gets: as long as the rule listings show the truth, the host has
/// no more override rules after than it had before, unless it had none and
/// has one. A host that had at most one has at most one.
pub proof fn repeated_switch_keeps_one_override(
    world: World,
    address: Seq<char>,
    nic: Nic,
    requests: Seq<Request>,
)
    requires
        forall|i: int|
            0 <= i < requests.len() ==> (#[trigger] requests[i]).address == address
                && requests[i].nic == nic,
        world.shown_truly(requests),
    ensures
        world.after(requests).overrides(address) <= world.overrides(address) || world.after(
            requests,
        ).overrides(address) <= 1,
    decreases requests.len(),
{
    if requests.len() > 0 {
        let earlier = requests.drop_last();
        assert forall|i: int| 0 <= i < earlier.len() implies (#[trigger] earlier[i]).address
            == address && earlier[i].nic == nic by {
            assert(earlier[i] == requests[i]);
        }
        repeated_switch_keeps_one_override(world, address, nic, earlier);
        let before = world.after(earlier);
        switch_adds_no_second_override(
            before.coordinator,
            before.kernel,
            address,
            nic,
            requests.last().answers,
        );
    }
}

/// A host that is moved to the secondary link, back to the primary link and
/// to the secondary link again, on a system that does as it is told, is on
/// record with the primary link in between, and has exactly one override
/// rule and is on record with the secondary link at the end. Each switch
/// takes one stray rule away, so this holds of a host that had up to four
/// override rules before.
pub proof fn there_and_back_again(
    world: World,
    address: Seq<char>,
    there: Seq<Answer>,
    back: Seq<Answer>,
    again: Seq<Answer>,
)
    requires
        world.overrides(address) <= 4,
        ({
            let first = world.switch(Request { address, nic: Nic::Wan1, answers: there });
            let second = first.world().switch(Request { address, nic: Nic::Wan0, answers: back });
            let third = second.world().switch(Request { address, nic: Nic::Wan1, answers: again });
            &&& world.start(Request { address, nic: Nic::Wan1, answers: there }).truthful(there)
            &&& first.world().start(Request { address, nic: Nic::Wan0, answers: back }).truthful(
                back,
            )
            &&& second.world().start(Request { address, nic: Nic::Wan1, answers: again }).truthful(
                again,
            )
            &&& first.went_through()
            &&& second.went_through()
            &&& third.went_through()
        }),
    ensures
        ({
            let first = world.switch(Request { address, nic: Nic::Wan1, answers: there });
            let second = first.world().switch(Request { address, nic: Nic::Wan0, answers: back });
            let third = second.world().switch(Request { address, nic: Nic::Wan1, answers: again });
            &&& world.overrides(address) <= 2 ==> second.world().overrides(address) == 0
            &&& second.coordinator.mappings.contains_key(address)
            &&& second.coordinator.mappings[address] == Nic::Wan0
            &&& third.world().overrides(address) == 1
            &&& third.coordinator.mappings.contains_key(address)
            &&& third.coordinator.mappings[address] == Nic::Wan1
        }),
{
    let first = world.switch(Request { address, nic: Nic::Wan1, answers: there });
    let second = first.world().switch(Request { address, nic: Nic::Wan0, answers: back });
    switch_settles_host(world.coordinator, world.kernel, address, Nic::Wan1, there);
    switch_settles_host(first.coordinator, first.kernel, address, Nic::Wan0, back);
    switch_settles_host(second.coordinator, second.kernel, address, Nic::Wan1, again);
}

/// Two hosts that are switched one after the other, on a system that does
/// as it is told, each end with the rules that their own switch leaves and
/// on record with their link; the switch of the second changes nothing for
/// the first.
pub proof fn two_hosts_settle_apart(world: World, first: Request, second: Request)
    requires
        first.address != second.address,
        world.start(first).truthful(first.answers),
        world.switch(first).world().start(second).truthful(second.answers),
        world.switch(first).went_through(),
        world.switch(first).world().switch(second).went_through(),
    ensures
        ({
            let end = world.switch(first).world().switch(second);
            &&& end.world().overrides(first.address) == overrides_after(
                world.overrides(first.address),
                first.nic,
            )
            &&& end.world().overrides(second.address) == overrides_after(
                world.overrides(second.address),
                second.nic,
            )
            &&& end.coordinator.mappings.contains_key(first.address)
            &&& end.coordinator.mappings[first.address] == first.nic
            &&& end.coordinator.mappings.contains_key(second.address)
            &&& end.coordinator.mappings[second.address] == second.nic
        }),
{
    let between = world.switch(first);
    lemma_selectors_differ(first.address, second.address);
    switch_settles_host(world.coordinator, world.kernel, first.address, first.nic, first.answers);
    switch_leaves_others_alone(
        world.coordinator,
        world.kernel,
        first.address,
        first.nic,
        first.answers,
        host_selector(second.address),
        TABLE_WAN1,
    );
    switch_settles_host(
        between.coordinator,
        between.kernel,
        second.address,
        second.nic,
        second.answers,
    );
    switch_leaves_others_alone(
        between.coordinator,
        between.kernel,
        second.address,
        second.nic,
        second.answers,
        host_selector(first.address),
        TABLE_WAN1,
    );
}

/// A switch on a system that does as it is told leaves a host with the
/// rules it asked for and no others: a host that had no rule of its own
/// but, at most, its override has, after a switch that went through,
/// exactly its override on the secondary link, with the priority of an
/// override, and no rule at all on the primary link. In neither table is
/// there anything else of the host, and however far the switch gets the
/// host never has more than that.
pub proof fn switch_leaves_exactly_the_override(
    coordinator: CoordinatorView,
    kernel: Kernel,
    address: Seq<char>,
    nic: Nic,
    answers: Seq<Answer>,
)
    requires
        clean(kernel, address),
        SwitchRun::started(coordinator, kernel, address, nic).truthful(answers),
    ensures
        ({
            let end = SwitchRun::started(coordinator, kernel, address, nic).run(answers);
            &&& clean(end.kernel, address)
            &&& end.went_through() ==> rules_of(end.kernel.rules, host_selector(address))
                == rules_wanted(address, nic)
            &&& end.went_through() ==> count_rules(
                end.kernel.rules,
                host_selector(address),
                TABLE_WAN0,
            ) == 0
        }),
{
    let start = SwitchRun::started(coordinator, kernel, address, nic);
    let end = start.run(answers);
    lemma_exact_run(start, answers, kernel, address, nic);
    lemma_count_of(end.kernel.rules, host_selector(address), TABLE_WAN0);
    lemma_single_rule(override_rule(address), host_selector(address), TABLE_WAN0);
}

/// On a system that does as it is told and where nothing goes wrong, a
/// switch goes through once its four commands have come back.
pub proof fn switch_goes_through(
    coordinator: CoordinatorView,
    kernel: Kernel,
    address: Seq<char>,
    nic: Nic,
    answers: Seq<Answer>,
)
    requires
        answers.len() >= 4,
        SwitchRun::started(coordinator, kernel, address, nic).obeyed(answers),
    ensures
        SwitchRun::started(coordinator, kernel, address, nic).run(answers).went_through(),
        SwitchRun::started(coordinator, kernel, address, nic).truthful(answers),
{
    let start = SwitchRun::started(coordinator, kernel, address, nic);
    lemma_run_ends(start, answers);
    lemma_obeyed_run(start, answers, kernel, address);
    lemma_obeyed_is_truthful(start, answers);
}

proof fn lemma_host_stays_clean(world: World, address: Seq<char>, requests: Seq<Request>)
    requires
        clean(world.kernel, address),
        forall|i: int| 0 <= i < requests.len() ==> (#[trigger] requests[i]).address == address,
        world.obeyed(requests),
    ensures
        clean(world.after(requests).kernel, address),
    decreases requests.len(),
{
    if requests.len() > 0 {
        let earlier = requests.drop_last();
        assert forall|i: int| 0 <= i < earlier.len() implies (#[trigger] earlier[i]).address
            == address by {
            assert(earlier[i] == requests[i]);
        }
        lemma_host_stays_clean(world, address, earlier);
        let before = world.after(earlier);
        let last = requests.last();
        lemma_obeyed_is_truthful(before.start(last), last.answers);
        switch_leaves_exactly_the_override(
            before.coordinator,
            before.kernel,
            address,
            last.nic,
            last.answers,
        );
    }
}

/// However often a host is switched, on a system that does as it is told
/// and where nothing goes wrong: every one of the switches goes through,
/// and after the last the host has exactly the rules that the last asked
/// for, and is on record with the link of the last. A host that is
/// switched to the secondary link again and again has its one override, and
/// never a second.
pub proof fn repeated_switch_leaves_exactly_the_override(
    world: World,
    address: Seq<char>,
    requests: Seq<Request>,
)
    requires
        clean(world.kernel, address),
        requests.len() >= 1,
        forall|i: int| 0 <= i < requests.len() ==> (#[trigger] requests[i]).address == address,
        world.obeyed(requests),
    ensures
        ({
            let before = world.after(requests.drop_last());
            let end = before.switch(requests.last());
            &&& end.went_through()
            &&& end.world() == world.after(requests)
            &&& rules_of(end.kernel.rules, host_selector(address)) == rules_wanted(
                address,
                requests.last().nic,
            )
            &&& count_rules(end.kernel.rules, host_selector(address), TABLE_WAN0) == 0
            &&& end.coordinator.mappings.contains_key(address)
            &&& end.coordinator.mappings[address] == requests.last().nic
        }),
{
    let earlier = requests.drop_last();
    assert forall|i: int| 0 <= i < earlier.len() implies (#[trigger] earlier[i]).address
        == address by {
        assert(earlier[i] == requests[i]);
    }
    lemma_host_stays_clean(world, address, earlier);
    let before = world.after(earlier);
    let last = requests.last();
    switch_goes_through(before.coordinator, before.kernel, address, last.nic, last.answers);
    switch_leaves_exactly_the_override(
        before.coordinator,
        before.kernel,
        address,
        last.nic,
        last.answers,
    );
    switch_settles_host(before.coordinator, before.kernel, address, last.nic, last.answers);
}

/// A host without a rule of its own that is moved to the secondary link,
/// back to the primary link and to the secondary link again, on a system
/// that does as it is told and where nothing goes wrong: all three switches
/// go through. In between the host has no rule and is on record with the
/// primary link. At the end it has exactly one rule, its override in the
/// secondary table with the priority of an override, none in the primary
/// table, and is on record with the secondary link.
pub proof fn there_and_back_again_exactly(
    world: World,
    address: Seq<char>,
    there: Seq<Answer>,
    back: Seq<Answer>,
    again: Seq<Answer>,
)
    requires
        clean(world.kernel, address),
        there.len() >= 4,
        back.len() >= 4,
        again.len() >= 4,
        ({
            let first = world.switch(Request { address, nic: Nic::Wan1, answers: there });
            let second = first.world().switch(Request { address, nic: Nic::Wan0, answers: back });
            &&& world.start(Request { address, nic: Nic::Wan1, answers: there }).obeyed(there)
            &&& first.world().start(Request { address, nic: Nic::Wan0, answers: back }).obeyed(back)
            &&& second.world().start(Request { address, nic: Nic::Wan1, answers: again }).obeyed(
                again,
            )
        }),
    ensures
        ({
            let first = world.switch(Request { address, nic: Nic::Wan1, answers: there });
            let second = first.world().switch(Request { address, nic: Nic::Wan0, answers: back });
            let third = second.world().switch(Request { address, nic: Nic::Wan1, answers: again });
            &&& first.went_through()
            &&& second.went_through()
            &&& third.went_through()
            &&& rules_of(second.kernel.rules, host_selector(address)) == Seq::<PolicyRule>::empty()
            &&& second.coordinator.mappings.contains_key(address)
            &&& second.coordinator.mappings[address] == Nic::Wan0
            &&& rules_of(third.kernel.rules, host_selector(address)) == seq![override_rule(address)]
            &&& count_rules(third.kernel.rules, host_selector(address), TABLE_WAN1) == 1
            &&& count_rules(third.kernel.rules, host_selector(address), TABLE_WAN0) == 0
            &&& third.coordinator.mappings.contains_key(address)
            &&& third.coordinator.mappings[address] == Nic::Wan1
        }),
{
    let first = world.switch(Request { address, nic: Nic::Wan1, answers: there });
    let second = first.world().switch(Request { address, nic: Nic::Wan0, answers: back });
    let third = second.world().switch(Request { address, nic: Nic::Wan1, answers: again });
    switch_goes_through(world.coordinator, world.kernel, address, Nic::Wan1, there);
    switch_leaves_exactly_the_override(world.coordinator, world.kernel, address, Nic::Wan1, there);
    switch_goes_through(first.coordinator, first.kernel, address, Nic::Wan0, back);
    switch_leaves_exactly_the_override(first.coordinator, first.kernel, address, Nic::Wan0, back);
    switch_settles_host(first.coordinator, first.kernel, address, Nic::Wan0, back);
    switch_goes_through(second.coordinator, second.kernel, address, Nic::Wan1, again);
    switch_leaves_exactly_the_override(second.coordinator, second.kernel, address, Nic::Wan1, again);
    switch_settles_host(second.coordinator, second.kernel, address, Nic::Wan1, again);
    lemma_count_of(third.kernel.rules, host_selector(address), TABLE_WAN1);
    lemma_single_rule(override_rule(address), host_selector(address), TABLE_WAN1);
}

/// Two hosts that are switched one after the other, in either order, on a
/// system that does as it is told and where nothing goes wrong: both
/// switches go through, each host has exactly the rules that its own switch
/// asked for and is on record with its link, and no rule of any other
/// selector was added, removed or moved.
pub proof fn two_hosts_settle_exactly(world: World, first: Request, second: Request)
    requires
        first.address != second.address,
        clean(world.kernel, first.address),
        clean(world.kernel, second.address),
        first.answers.len() >= 4,
        second.answers.len() >= 4,
        world.start(first).obeyed(first.answers),
        world.switch(first).world().start(second).obeyed(second.answers),
    ensures
        ({
            let between = world.switch(first);
            let end = between.world().switch(second);
            &&& between.went_through()
            &&& end.went_through()
            &&& rules_of(end.kernel.rules, host_selector(first.address)) == rules_wanted(
                first.address,
                first.nic,
            )
            &&& rules_of(end.kernel.rules, host_selector(second.address)) == rules_wanted(
                second.address,
                second.nic,
            )
            &&& forall|other: Seq<char>|
                other != host_selector(first.address) && other != host_selector(second.address)
                    ==> #[trigger] rules_of(end.kernel.rules, other) == rules_of(
                    world.kernel.rules,
                    other,
                )
            &&& end.coordinator.mappings.contains_key(first.address)
            &&& end.coordinator.mappings[first.address] == first.nic
            &&& end.coordinator.mappings.contains_key(second.address)
            &&& end.coordinator.mappings[second.address] == second.nic
        }),
{
    let between = world.switch(first);
    let end = between.world().switch(second);
    let one = host_selector(first.address);
    let two = host_selector(second.address);
    lemma_selectors_differ(first.address, second.address);
    switch_goes_through(world.coordinator, world.kernel, first.address, first.nic, first.answers);
    switch_leaves_exactly_the_override(
        world.coordinator,
        world.kernel,
        first.address,
        first.nic,
        first.answers,
    );
    switch_settles_host(world.coordinator, world.kernel, first.address, first.nic, first.answers);
    switch_leaves_others_alone(
        world.coordinator,
        world.kernel,
        first.address,
        first.nic,
        first.answers,
        two,
        TABLE_WAN1,
    );
    switch_goes_through(
        between.coordinator,
        between.kernel,
        second.address,
        second.nic,
        second.answers,
    );
    switch_leaves_exactly_the_override(
        between.coordinator,
        between.kernel,
        second.address,
        second.nic,
        second.answers,
    );
    switch_settles_host(
        between.coordinator,
        between.kernel,
        second.address,
        second.nic,
        second.answers,
    );
    switch_leaves_others_alone(
        between.coordinator,
        between.kernel,
        second.address,
        second.nic,
        second.answers,
        one,
        TABLE_WAN1,
    );
    assert forall|other: Seq<char>| other != one && other != two implies #[trigger] rules_of(
        end.kernel.rules,
        other,
    ) == rules_of(world.kernel.rules, other) by {
        switch_leaves_others_alone(
            world.coordinator,
            world.kernel,
            first.address,
            first.nic,
            first.answers,
            other,
            TABLE_WAN1,
        );
        switch_leaves_others_alone(
            between.coordinator,
            between.kernel,
            second.address,
            second.nic,
            second.answers,
            other,
            TABLE_WAN1,
        );
    }
}

} // verus!
