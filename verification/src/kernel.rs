//! A model of what the system holds: the policy rules in the order in which
//! they were added, and the routes of each table. It says what each command
//! does to them, and which answers a system in a given state can give. The
//! engine's guarantees are stated against this model.

use crate::command::{CommandErrorView, CommandView};
use crate::rules::rule_listed;
use vstd::prelude::*;

verus! {

/// A policy rule: traffic from `selector` looks up `table`. The rule with
/// the smaller priority value is evaluated first.
pub struct PolicyRule {
    pub selector: Seq<char>,
    pub table: u32,
    pub priority: u32,
}

/// Whether `rule` binds `selector` to `table`.
pub open spec fn selects(rule: PolicyRule, selector: Seq<char>, table: u32) -> bool {
    rule.selector == selector && rule.table == table
}

/// How many rules bind `selector` to `table`.
pub open spec fn count_rules(rules: Seq<PolicyRule>, selector: Seq<char>, table: u32) -> nat
    decreases rules.len(),
{
    if rules.len() == 0 {
        0
    } else {
        count_rules(rules.drop_first(), selector, table) + if selects(rules[0], selector, table) {
            1nat
        } else {
            0nat
        }
    }
}

/// Whether some rule binds `selector` to `table`.
pub open spec fn has_rule(rules: Seq<PolicyRule>, selector: Seq<char>, table: u32) -> bool {
    count_rules(rules, selector, table) > 0
}

/// The rules without the first one that binds `selector` to `table`.
pub open spec fn delete_first(rules: Seq<PolicyRule>, selector: Seq<char>, table: u32) -> Seq<
    PolicyRule,
>
    decreases rules.len(),
{
    if rules.len() == 0 {
        rules
    } else if selects(rules[0], selector, table) {
        rules.drop_first()
    } else {
        seq![rules[0]] + delete_first(rules.drop_first(), selector, table)
    }
}

/// The rules of `selector` among `rules`, whatever their table, in order.
pub open spec fn rules_of(rules: Seq<PolicyRule>, selector: Seq<char>) -> Seq<PolicyRule>
    decreases rules.len(),
{
    if rules.len() == 0 {
        Seq::empty()
    } else if rules[0].selector == selector {
        seq![rules[0]] + rules_of(rules.drop_first(), selector)
    } else {
        rules_of(rules.drop_first(), selector)
    }
}

/// What a route leads to.
pub struct Route {
    pub gateway: Option<Seq<char>>,
    pub dev: Seq<char>,
}

/// What a table holds at most one route for.
pub enum Destination {
    Default { table: u32 },
    Link { table: u32, prefix: Seq<char> },
}

/// The state of the system, as far as the engine changes it.
pub struct Kernel {
    pub rules: Seq<PolicyRule>,
    pub routes: Map<Destination, Route>,
}

/// What a command brought back, as a mathematical value.
pub type Answer = Result<Seq<char>, CommandErrorView>;

impl Kernel {
    /// The system after `command` came back with `answer`. A command that
    /// failed changed nothing. A rule that is added goes behind the others;
    /// a deletion takes the first rule that fits; a replacement leaves one
    /// route for its destination. Queries change nothing, and addresses are
    /// not part of the model.
    pub open spec fn after(self, command: CommandView, answer: Answer) -> Kernel {
        if answer is Err {
            self
        } else {
            match command {
                CommandView::AddRule { from, table, priority } => Kernel {
                    rules: self.rules.push(PolicyRule { selector: from, table, priority }),
                    routes: self.routes,
                },
                CommandView::DeleteRule { from, table } => Kernel {
                    rules: delete_first(self.rules, from, table),
                    routes: self.routes,
                },
                CommandView::ReplaceDefaultRoute { gateway, dev, table } => Kernel {
                    rules: self.rules,
                    routes: self.routes.insert(
                        Destination::Default { table },
                        Route { gateway: Some(gateway), dev },
                    ),
                },
                CommandView::ReplaceLinkRoute { prefix, dev, table } => Kernel {
                    rules: self.rules,
                    routes: self.routes.insert(
                        Destination::Link { table, prefix },
                        Route { gateway: None, dev },
                    ),
                },
                _ => self,
            }
        }
    }

    /// Whether `answer` shows the truth about the rule that binds `selector`
    /// to `table`: a rule listing that comes back shows that rule exactly
    /// when the system holds it. Of every other command any answer is taken.
    pub open spec fn shows_truly(
        self,
        command: CommandView,
        answer: Answer,
        selector: Seq<char>,
        table: u32,
    ) -> bool {
        command is ListRules ==> (answer matches Ok(listing) ==> (rule_listed(
            listing,
            selector,
            table,
        ) <==> has_rule(self.rules, selector, table)))
    }

    /// Whether `answer` is one that the system gives to `command` when it
    /// does as it is told: a rule listing shows the truth about the rule
    /// that binds `selector` to `table`, and a deletion succeeds exactly
    /// when there is a rule to delete.
    pub open spec fn answers(
        self,
        command: CommandView,
        answer: Answer,
        selector: Seq<char>,
        table: u32,
    ) -> bool {
        &&& self.shows_truly(command, answer, selector, table)
        &&& command matches CommandView::DeleteRule { from, table: of } ==> (answer is Ok
            <==> has_rule(self.rules, from, of))
    }

    /// Whether `answer` is one that the system gives to `command` when it
    /// does as it is told and nothing goes wrong: a rule listing comes back
    /// and shows the truth, an addition succeeds, and a deletion succeeds
    /// exactly when there is a rule to delete.
    pub open spec fn obeys(
        self,
        command: CommandView,
        answer: Answer,
        selector: Seq<char>,
        table: u32,
    ) -> bool {
        &&& self.answers(command, answer, selector, table)
        &&& command is ListRules || command is AddRule ==> answer is Ok
    }
}

/// A rule that is added counts once more where it fits, and nowhere else.
pub proof fn lemma_count_after_add(
    rules: Seq<PolicyRule>,
    rule: PolicyRule,
    selector: Seq<char>,
    table: u32,
)
    ensures
        count_rules(rules.push(rule), selector, table) == count_rules(rules, selector, table)
            + if selects(rule, selector, table) {
            1nat
        } else {
            0nat
        },
    decreases rules.len(),
{
    let added = rules.push(rule);
    if rules.len() == 0 {
        assert(added.drop_first() =~= Seq::<PolicyRule>::empty());
        assert(count_rules(added.drop_first(), selector, table) == 0);
    } else {
        assert(added.drop_first() =~= rules.drop_first().push(rule));
        lemma_count_after_add(rules.drop_first(), rule, selector, table);
    }
}

/// A deletion takes one rule away where there was one to take, and leaves
/// every other count as it was.
pub proof fn lemma_count_after_delete(
    rules: Seq<PolicyRule>,
    selector: Seq<char>,
    table: u32,
    other: Seq<char>,
    other_table: u32,
)
    ensures
        count_rules(delete_first(rules, selector, table), other, other_table) == if other
            == selector && other_table == table && has_rule(rules, selector, table) {
            (count_rules(rules, selector, table) - 1) as nat
        } else {
            count_rules(rules, other, other_table)
        },
    decreases rules.len(),
{
    if rules.len() == 0 {
    } else if selects(rules[0], selector, table) {
    } else {
        let rest = rules.drop_first();
        let kept = seq![rules[0]] + delete_first(rest, selector, table);
        assert(kept.drop_first() =~= delete_first(rest, selector, table));
        assert(kept[0] == rules[0]);
        lemma_count_after_delete(rest, selector, table, other, other_table);
    }
}

/// What a command does to the count of the rules that bind `selector` to
/// `table`.
pub proof fn lemma_count_after(
    kernel: Kernel,
    command: CommandView,
    answer: Answer,
    selector: Seq<char>,
    table: u32,
)
    ensures
        count_rules(kernel.after(command, answer).rules, selector, table) == count_rules(
            kernel.rules,
            selector,
            table,
        ) + (match command {
            CommandView::AddRule { from, table: to, priority } => if answer is Ok && from
                == selector && to == table {
                1int
            } else {
                0int
            },
            CommandView::DeleteRule { from, table: of } => if answer is Ok && from == selector
                && of == table && has_rule(kernel.rules, selector, table) {
                -1int
            } else {
                0int
            },
            _ => 0int,
        }),
{
    match command {
        CommandView::AddRule { from, table: to, priority } => {
            lemma_count_after_add(
                kernel.rules,
                PolicyRule { selector: from, table: to, priority },
                selector,
                table,
            );
        },
        CommandView::DeleteRule { from, table: of } => {
            lemma_count_after_delete(kernel.rules, from, of, selector, table);
        },
        _ => {},
    }
}


/// A rule that is added goes behind the rules of its selector, and nowhere
/// else.
pub proof fn lemma_rules_of_after_add(rules: Seq<PolicyRule>, rule: PolicyRule, selector: Seq<char>)
    ensures
        rules_of(rules.push(rule), selector) == if rule.selector == selector {
            rules_of(rules, selector).push(rule)
        } else {
            rules_of(rules, selector)
        },
    decreases rules.len(),
{
    let added = rules.push(rule);
    if rules.len() == 0 {
        assert(added.drop_first() =~= Seq::<PolicyRule>::empty());
        assert(rules_of(added.drop_first(), selector) =~= Seq::<PolicyRule>::empty());
        assert(rules_of(added, selector) =~= if rule.selector == selector {
            rules_of(rules, selector).push(rule)
        } else {
            rules_of(rules, selector)
        });
    } else {
        assert(added.drop_first() =~= rules.drop_first().push(rule));
        lemma_rules_of_after_add(rules.drop_first(), rule, selector);
        assert(rules_of(added, selector) =~= if rule.selector == selector {
            rules_of(rules, selector).push(rule)
        } else {
            rules_of(rules, selector)
        });
    }
}

/// A deletion takes its rule from the rules of its selector, and from no
/// other.
pub proof fn lemma_rules_of_after_delete(
    rules: Seq<PolicyRule>,
    selector: Seq<char>,
    table: u32,
    other: Seq<char>,
)
    ensures
        rules_of(delete_first(rules, selector, table), other) == if other == selector {
            delete_first(rules_of(rules, selector), selector, table)
        } else {
            rules_of(rules, other)
        },
    decreases rules.len(),
{
    if rules.len() == 0 {
    } else {
        let rest = rules.drop_first();
        lemma_rules_of_after_delete(rest, selector, table, other);
        if selects(rules[0], selector, table) {
            if other == selector {
                let own = seq![rules[0]] + rules_of(rest, selector);
                assert(own.drop_first() =~= rules_of(rest, selector));
            }
        } else {
            let kept = seq![rules[0]] + delete_first(rest, selector, table);
            assert(kept.drop_first() =~= delete_first(rest, selector, table));
            assert(kept[0] == rules[0]);
            if other == selector && rules[0].selector == selector {
                let own = seq![rules[0]] + rules_of(rest, selector);
                assert(own.drop_first() =~= rules_of(rest, selector));
                assert(own[0] == rules[0]);
            }
        }
    }
}

/// The rules of a selector are counted among the rules of that selector.
pub proof fn lemma_count_of(rules: Seq<PolicyRule>, selector: Seq<char>, table: u32)
    ensures
        count_rules(rules_of(rules, selector), selector, table) == count_rules(
            rules,
            selector,
            table,
        ),
    decreases rules.len(),
{
    if rules.len() > 0 {
        let rest = rules.drop_first();
        lemma_count_of(rest, selector, table);
        if rules[0].selector == selector {
            let own = seq![rules[0]] + rules_of(rest, selector);
            assert(own.drop_first() =~= rules_of(rest, selector));
            assert(own[0] == rules[0]);
        }
    }
}

/// What a command does to the rules of `selector`.
pub proof fn lemma_rules_of_after(
    kernel: Kernel,
    command: CommandView,
    answer: Answer,
    selector: Seq<char>,
)
    ensures
        rules_of(kernel.after(command, answer).rules, selector) == (match command {
            CommandView::AddRule { from, table, priority } => if answer is Ok && from == selector {
                rules_of(kernel.rules, selector).push(PolicyRule { selector, table, priority })
            } else {
                rules_of(kernel.rules, selector)
            },
            CommandView::DeleteRule { from, table } => if answer is Ok && from == selector {
                delete_first(rules_of(kernel.rules, selector), selector, table)
            } else {
                rules_of(kernel.rules, selector)
            },
            _ => rules_of(kernel.rules, selector),
        }),
{
    match command {
        CommandView::AddRule { from, table, priority } => {
            lemma_rules_of_after_add(
                kernel.rules,
                PolicyRule { selector: from, table, priority },
                selector,
            );
        },
        CommandView::DeleteRule { from, table } => {
            lemma_rules_of_after_delete(kernel.rules, from, table, selector);
        },
        _ => {},
    }
}

/// One rule alone: how it counts, and what a deletion leaves of it.
pub proof fn lemma_single_rule(rule: PolicyRule, selector: Seq<char>, table: u32)
    ensures
        count_rules(seq![rule], selector, table) == if selects(rule, selector, table) {
            1nat
        } else {
            0nat
        },
        delete_first(seq![rule], selector, table) == if selects(rule, selector, table) {
            Seq::<PolicyRule>::empty()
        } else {
            seq![rule]
        },
        rules_of(seq![rule], rule.selector) == seq![rule],
{
    let one = seq![rule];
    assert(one.drop_first() =~= Seq::<PolicyRule>::empty());
    assert(count_rules(one.drop_first(), selector, table) == 0);
    assert(delete_first(one.drop_first(), selector, table) =~= Seq::<PolicyRule>::empty());
    assert(delete_first(one, selector, table) =~= if selects(rule, selector, table) {
        Seq::<PolicyRule>::empty()
    } else {
        seq![rule]
    });
    assert(rules_of(one.drop_first(), rule.selector) =~= Seq::<PolicyRule>::empty());
    assert(rules_of(one, rule.selector) =~= seq![rule]);
}

/// A replacement that is run twice leaves what it leaves when run once: a
/// table never holds two routes for one destination.
pub proof fn replacing_twice_is_replacing_once(kernel: Kernel, command: CommandView, answer: Answer)
    requires
        command is ReplaceDefaultRoute || command is ReplaceLinkRoute,
    ensures
        kernel.after(command, answer).after(command, answer) == kernel.after(command, answer),
{
    let once = kernel.after(command, answer);
    assert(once.after(command, answer).routes =~= once.routes);
}

} // verus!
