//! The rule listing as the system prints it, and the proof that the reader
//! of the listing finds a rule exactly when the system holds it.

use crate::command::{decimal, digit, CommandView};
use crate::kernel::{has_rule, selects, Kernel, PolicyRule};
use crate::rules::{rule_listed, rule_needle};
use crate::text::{holds_words, is_blank, lemma_first_newline, occurs_at, split_lines, stands_at};
use vstd::prelude::*;

verus! {

/// Whether `c` is a decimal digit.
pub open spec fn is_digit(c: char) -> bool {
    c == '0' || c == '1' || c == '2' || c == '3' || c == '4' || c == '5' || c == '6' || c == '7'
        || c == '8' || c == '9'
}

/// Whether `c` can stand in an address or a prefix: a digit, a dot or a
/// slash.
pub open spec fn is_plain(c: char) -> bool {
    is_digit(c) || c == '.' || c == '/'
}

/// Whether `text` is made of digits, dots and slashes alone.
pub open spec fn plain(text: Seq<char>) -> bool {
    forall|i: int| 0 <= i < text.len() ==> is_plain(#[trigger] text[i])
}

/// How the listing shows one rule: the priority, a colon and a tab, then
/// the selector and the table as the reader looks for them.
pub open spec fn rule_line(rule: PolicyRule) -> Seq<char> {
    decimal(rule.priority as nat) + ":\tfrom "@ + rule.selector + " lookup "@ + decimal(
        rule.table as nat,
    )
}

/// The listing of `rules`: one line for each rule, in order.
pub open spec fn listing_of(rules: Seq<PolicyRule>) -> Seq<char>
    decreases rules.len(),
{
    if rules.len() == 0 {
        Seq::empty()
    } else {
        rule_line(rules[0]) + "\n"@ + listing_of(rules.drop_first())
    }
}

/// Whether the listing of `rules` can be read: every selector is made of
/// digits, dots and slashes.
pub open spec fn legible(rules: Seq<PolicyRule>) -> bool {
    forall|i: int| 0 <= i < rules.len() ==> plain((#[trigger] rules[i]).selector)
}

/// A number in decimal notation is a string of digits, and not an empty one.
pub proof fn lemma_decimal_digits(n: nat)
    ensures
        decimal(n).len() >= 1,
        n >= 10 ==> decimal(n).len() >= 2,
        forall|i: int| 0 <= i < decimal(n).len() ==> is_digit(#[trigger] decimal(n)[i]),
    decreases n,
{
    if n >= 10 {
        lemma_decimal_digits(n / 10);
    }
}

proof fn lemma_digit_injective(a: nat, b: nat)
    requires
        a < 10,
        b < 10,
        digit(a) == digit(b),
    ensures
        a == b,
{
}

/// Two numbers that are written alike are the same number.
pub proof fn lemma_decimal_injective(a: nat, b: nat)
    requires
        decimal(a) == decimal(b),
    ensures
        a == b,
    decreases a,
{
    lemma_decimal_digits(a);
    lemma_decimal_digits(b);
    if a < 10 {
        assert(decimal(a).len() == 1);
        assert(b < 10);
        assert(decimal(a)[0] == digit(a));
        assert(decimal(b)[0] == digit(b));
        lemma_digit_injective(a, b);
    } else {
        assert(b >= 10);
        assert(decimal(a) == decimal(a / 10).push(digit(a % 10)));
        assert(decimal(b) == decimal(b / 10).push(digit(b % 10)));
        assert(decimal(a).last() == digit(a % 10));
        assert(decimal(b).last() == digit(b % 10));
        lemma_digit_injective(a % 10, b % 10);
        assert(decimal(a).drop_last() =~= decimal(a / 10));
        assert(decimal(b).drop_last() =~= decimal(b / 10));
        lemma_decimal_injective(a / 10, b / 10);
    }
}

/// The character at offset `p` of the line of `rule`, part by part.
spec fn line_char(rule: PolicyRule, p: int) -> char {
    let head = decimal(rule.priority as nat).len() as int;
    let body = rule.selector.len() as int;
    if p < head {
        decimal(rule.priority as nat)[p]
    } else if p < head + 7 {
        ":\tfrom "@[p - head]
    } else if p < head + 7 + body {
        rule.selector[p - head - 7]
    } else if p < head + 7 + body + 8 {
        " lookup "@[p - head - 7 - body]
    } else {
        decimal(rule.table as nat)[p - head - 7 - body - 8]
    }
}

spec fn line_len(rule: PolicyRule) -> int {
    (decimal(rule.priority as nat).len() + 7 + rule.selector.len() + 8 + decimal(
        rule.table as nat,
    ).len()) as int
}

proof fn lemma_line_len(rule: PolicyRule)
    ensures
        rule_line(rule).len() == line_len(rule),
        decimal(rule.priority as nat).len() >= 1,
        decimal(rule.table as nat).len() >= 1,
{
    reveal_strlit(":\tfrom ");
    reveal_strlit(" lookup ");
    lemma_decimal_digits(rule.priority as nat);
    lemma_decimal_digits(rule.table as nat);
}

proof fn lemma_line_char(rule: PolicyRule, p: int)
    requires
        0 <= p < line_len(rule),
    ensures
        rule_line(rule)[p] == line_char(rule, p),
{
    reveal_strlit(":\tfrom ");
    reveal_strlit(" lookup ");
}

/// The character at offset `k` of what the reader looks for, part by part.
spec fn needle_char(selector: Seq<char>, table: u32, k: int) -> char {
    let body = selector.len() as int;
    if k < 5 {
        "from "@[k]
    } else if k < 5 + body {
        selector[k - 5]
    } else if k < 5 + body + 8 {
        " lookup "@[k - 5 - body]
    } else {
        decimal(table as nat)[k - 5 - body - 8]
    }
}

spec fn needle_len(selector: Seq<char>, table: u32) -> int {
    (5 + selector.len() + 8 + decimal(table as nat).len()) as int
}

proof fn lemma_needle_len(selector: Seq<char>, table: u32)
    ensures
        rule_needle(selector, table).len() == needle_len(selector, table),
        decimal(table as nat).len() >= 1,
{
    reveal_strlit("from ");
    reveal_strlit(" lookup ");
    lemma_decimal_digits(table as nat);
}

proof fn lemma_needle_char(selector: Seq<char>, table: u32, k: int)
    requires
        0 <= k < needle_len(selector, table),
    ensures
        rule_needle(selector, table)[k] == needle_char(selector, table, k),
{
    reveal_strlit("from ");
    reveal_strlit(" lookup ");
}

/// Whether `c` is neither a letter nor a blank of the listing's fixed words.
spec fn is_data(c: char) -> bool {
    c != 'f' && c != ' ' && c != '\n' && c != '\r'
}

proof fn lemma_plain_is_data(c: char)
    requires
        is_plain(c),
    ensures
        is_data(c),
{
}

/// The line of a rule holds what the reader looks for when it looks for
/// that rule.
proof fn lemma_line_holds_own_needle(rule: PolicyRule)
    requires
        plain(rule.selector),
    ensures
        holds_words(rule_line(rule), rule_needle(rule.selector, rule.table)),
{
    lemma_line_len(rule);
    lemma_needle_len(rule.selector, rule.table);
    let line = rule_line(rule);
    let needle = rule_needle(rule.selector, rule.table);
    let head = decimal(rule.priority as nat).len() as int;
    let at = head + 2;
    let part = line.subrange(at, at + needle.len());
    assert forall|k: int| 0 <= k < needle.len() implies part[k] == needle[k] by {
        assert(part[k] == line[at + k]);
        lemma_line_char(rule, at + k);
        lemma_needle_char(rule.selector, rule.table, k);
        reveal_strlit(":\tfrom ");
        reveal_strlit("from ");
    }
    assert(part =~= needle);
    assert(occurs_at(line, needle, at));
    assert(is_blank(line[at - 1])) by {
        lemma_line_char(rule, at - 1);
        reveal_strlit(":\tfrom ");
    }
    assert(at + needle.len() == line.len());
    assert(stands_at(line, needle, at));
}

/// What the reader looks for starts where the line says `from`.
proof fn lemma_needle_starts_at(rule: PolicyRule, selector: Seq<char>, table: u32, at: int)
    requires
        plain(rule.selector),
        occurs_at(rule_line(rule), rule_needle(selector, table), at),
    ensures
        at == decimal(rule.priority as nat).len() + 2,
{
    lemma_line_len(rule);
    lemma_needle_len(selector, table);
    let line = rule_line(rule);
    let needle = rule_needle(selector, table);
    let head = decimal(rule.priority as nat).len() as int;
    let body = rule.selector.len() as int;
    assert(line.subrange(at, at + needle.len())[0] == line[at]);
    lemma_needle_char(selector, table, 0);
    lemma_line_char(rule, at);
    reveal_strlit("from ");
    reveal_strlit(":\tfrom ");
    reveal_strlit(" lookup ");
    assert(line[at] == 'f');
    lemma_decimal_digits(rule.priority as nat);
    lemma_decimal_digits(rule.table as nat);
    if at < head {
        assert(is_digit(decimal(rule.priority as nat)[at]));
    } else if at < head + 7 {
    } else if at < head + 7 + body {
        lemma_plain_is_data(rule.selector[at - head - 7]);
    } else if at < head + 7 + body + 8 {
    } else {
        assert(is_digit(decimal(rule.table as nat)[at - head - 7 - body - 8]));
    }
}

/// The line and what the reader looks for agree at offset `k` of the latter.
proof fn lemma_agree_at(rule: PolicyRule, selector: Seq<char>, table: u32, at: int, k: int)
    requires
        occurs_at(rule_line(rule), rule_needle(selector, table), at),
        0 <= k < needle_len(selector, table),
    ensures
        at + k < line_len(rule),
        line_char(rule, at + k) == needle_char(selector, table, k),
{
    lemma_line_len(rule);
    lemma_needle_len(selector, table);
    let line = rule_line(rule);
    let needle = rule_needle(selector, table);
    assert(line.subrange(at, at + needle.len())[k] == line[at + k]);
    lemma_line_char(rule, at + k);
    lemma_needle_char(selector, table, k);
}

/// The selector that the reader looks for is the selector of the line.
proof fn lemma_selectors_agree(rule: PolicyRule, selector: Seq<char>, table: u32, at: int)
    requires
        plain(rule.selector),
        plain(selector),
        occurs_at(rule_line(rule), rule_needle(selector, table), at),
    ensures
        selector == rule.selector,
{
    lemma_needle_starts_at(rule, selector, table, at);
    lemma_needle_len(selector, table);
    let body = rule.selector.len() as int;
    let wanted = selector.len() as int;
    reveal_strlit(" lookup ");
    if wanted < body {
        lemma_agree_at(rule, selector, table, at, 5 + wanted);
        lemma_plain_is_data(rule.selector[wanted]);
    } else if wanted > body {
        lemma_agree_at(rule, selector, table, at, 5 + body);
        lemma_plain_is_data(selector[body]);
    }
    assert(wanted == body);
    assert forall|p: int| 0 <= p < body implies selector[p] == rule.selector[p] by {
        lemma_agree_at(rule, selector, table, at, 5 + p);
    }
    assert(selector =~= rule.selector);
}

/// The table that the reader looks for is the table of the line.
proof fn lemma_tables_agree(rule: PolicyRule, selector: Seq<char>, table: u32, at: int)
    requires
        selector == rule.selector,
        at == decimal(rule.priority as nat).len() + 2,
        stands_at(rule_line(rule), rule_needle(selector, table), at),
    ensures
        table == rule.table,
{
    lemma_needle_len(selector, table);
    lemma_line_len(rule);
    lemma_decimal_digits(rule.table as nat);
    let body = rule.selector.len() as int;
    let tail = decimal(table as nat).len() as int;
    let written = decimal(rule.table as nat).len() as int;
    let end = at + needle_len(selector, table);
    // Behind the digits that are looked for the line is over: a further
    // digit of the line's table is no white space.
    if tail < written {
        lemma_line_char(rule, end);
        assert(is_digit(decimal(rule.table as nat)[tail]));
    }
    assert(tail == written);
    assert forall|p: int| 0 <= p < tail implies decimal(table as nat)[p] == decimal(
        rule.table as nat,
    )[p] by {
        lemma_agree_at(rule, selector, table, at, 5 + body + 8 + p);
    }
    assert(decimal(table as nat) =~= decimal(rule.table as nat));
    lemma_decimal_injective(table as nat, rule.table as nat);
}

/// A line that holds what the reader looks for is the line of a rule of
/// that selector and that table.
proof fn lemma_needle_names_rule(rule: PolicyRule, selector: Seq<char>, table: u32)
    requires
        plain(rule.selector),
        plain(selector),
        holds_words(rule_line(rule), rule_needle(selector, table)),
    ensures
        selects(rule, selector, table),
{
    let at = choose|at: int| stands_at(rule_line(rule), rule_needle(selector, table), at);
    lemma_needle_starts_at(rule, selector, table, at);
    lemma_selectors_agree(rule, selector, table, at);
    lemma_tables_agree(rule, selector, table, at);
}

/// The line of a rule holds no line break.
proof fn lemma_line_unbroken(rule: PolicyRule, j: int)
    requires
        plain(rule.selector),
        0 <= j < line_len(rule),
    ensures
        rule_line(rule)[j] != '\n',
        rule_line(rule)[j] != '\r',
{
    lemma_line_char(rule, j);
    reveal_strlit(":\tfrom ");
    reveal_strlit(" lookup ");
    lemma_decimal_digits(rule.priority as nat);
    lemma_decimal_digits(rule.table as nat);
    let head = decimal(rule.priority as nat).len() as int;
    let body = rule.selector.len() as int;
    if j < head {
        assert(is_digit(decimal(rule.priority as nat)[j]));
    } else if j < head + 7 {
    } else if j < head + 7 + body {
        lemma_plain_is_data(rule.selector[j - head - 7]);
    } else if j < head + 7 + body + 8 {
    } else {
        assert(is_digit(decimal(rule.table as nat)[j - head - 7 - body - 8]));
    }
}

/// The lines of a listing are the lines of its rules.
proof fn lemma_lines_of_listing(rules: Seq<PolicyRule>)
    requires
        forall|i: int| 0 <= i < rules.len() ==> plain((#[trigger] rules[i]).selector),
    ensures
        split_lines(listing_of(rules)) == Seq::new(rules.len(), |i: int| rule_line(rules[i])),
    decreases rules.len(),
{
    let lines = Seq::new(rules.len(), |i: int| rule_line(rules[i]));
    if rules.len() == 0 {
        assert(split_lines(listing_of(rules)) =~= lines);
    } else {
        reveal_strlit("\n");
        let rest = rules.drop_first();
        let line = rule_line(rules[0]);
        let listing = listing_of(rules);
        assert(listing == line + "\n"@ + listing_of(rest));
        lemma_line_len(rules[0]);
        assert forall|j: int| 0 <= j < line.len() implies listing[j] != '\n' by {
            lemma_line_unbroken(rules[0], j);
            assert(listing[j] == line[j]);
        }
        assert(listing[line.len() as int] == '\n');
        lemma_first_newline(listing, line.len() as int);
        assert(listing.take(line.len() as int) =~= line);
        lemma_line_unbroken(rules[0], line.len() - 1);
        assert(listing.skip(line.len() as int + 1) =~= listing_of(rest));
        assert forall|i: int| 0 <= i < rest.len() implies plain((#[trigger] rest[i]).selector) by {
            assert(rest[i] == rules[i + 1]);
        }
        lemma_lines_of_listing(rest);
        let later = Seq::new(rest.len(), |i: int| rule_line(rest[i]));
        assert(lines =~= seq![line] + later);
        assert(split_lines(listing) =~= seq![line] + split_lines(listing_of(rest)));
    }
}

/// The system holds a rule exactly when one of its rules is that rule.
pub proof fn lemma_has_rule(rules: Seq<PolicyRule>, selector: Seq<char>, table: u32)
    ensures
        has_rule(rules, selector, table) <==> exists|i: int|
            0 <= i < rules.len() && selects(#[trigger] rules[i], selector, table),
    decreases rules.len(),
{
    if rules.len() > 0 {
        let rest = rules.drop_first();
        lemma_has_rule(rest, selector, table);
        if has_rule(rules, selector, table) {
            if selects(rules[0], selector, table) {
            } else {
                let i = choose|i: int| 0 <= i < rest.len() && selects(#[trigger] rest[i], selector, table);
                assert(selects(rules[i + 1], selector, table));
            }
        }
        if exists|i: int| 0 <= i < rules.len() && selects(#[trigger] rules[i], selector, table) {
            let i = choose|i: int| 0 <= i < rules.len() && selects(#[trigger] rules[i], selector, table);
            if i > 0 {
                assert(selects(rest[i - 1], selector, table));
            }
        }
    }
}

/// The reader of the listing is right: in the listing of a rule table
/// whose selectors are made of digits, dots and slashes it finds a rule of
/// a selector and a table exactly when the rule table holds one.
pub proof fn listing_shows_rules_truly(rules: Seq<PolicyRule>, selector: Seq<char>, table: u32)
    requires
        plain(selector),
        legible(rules),
    ensures
        rule_listed(listing_of(rules), selector, table) <==> has_rule(rules, selector, table),
{
    lemma_lines_of_listing(rules);
    lemma_has_rule(rules, selector, table);
    let lines = split_lines(listing_of(rules));
    let needle = rule_needle(selector, table);
    if rule_listed(listing_of(rules), selector, table) {
        let k = choose|k: int| 0 <= k < lines.len() && holds_words(#[trigger] lines[k], needle);
        assert(lines[k] == rule_line(rules[k]));
        lemma_needle_names_rule(rules[k], selector, table);
    }
    if has_rule(rules, selector, table) {
        let i = choose|i: int| 0 <= i < rules.len() && selects(#[trigger] rules[i], selector, table);
        lemma_line_holds_own_needle(rules[i]);
        assert(lines[i] == rule_line(rules[i]));
        assert(holds_words(lines[i], needle));
    }
}

/// A system that prints its rules in this form shows the truth about them.
pub proof fn printed_listing_is_truthful(kernel: Kernel, selector: Seq<char>, table: u32)
    requires
        plain(selector),
        legible(kernel.rules),
    ensures
        kernel.shows_truly(CommandView::ListRules, Ok(listing_of(kernel.rules)), selector, table),
{
    listing_shows_rules_truly(kernel.rules, selector, table);
}

} // verus!
