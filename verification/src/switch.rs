//! The per-host override: validation of a request, the commands that move
//! one host to a WAN link, and the record of which host uses which link.

use crate::command::{
    outcome_view, Command, CommandError, CommandErrorView, CommandView, Outcome,
};
use crate::config::{nic_of, Config, ConfigView, Nic};
use crate::pattern::{capture, first_capture};
use crate::policy::{PRIO_SPECIFIC, TABLE_WAN0, TABLE_WAN1};
use crate::rules::{
    add_ip_rule, del_ip_rule_quiet, InsertionStep, InsertionStepView, RuleInsertion,
    RuleInsertionView,
};
use vstd::prelude::*;
use vstd::string::*;

verus! {

/// A host address as a request may give it: a dotted quad, which is what is
/// captured, with an optional mask length behind it, and nothing else.
pub const HOST_PATTERN: &'static str = "^(\\d+\\.\\d+\\.\\d+\\.\\d+)(/\\d+)?$";

/// Why a request was turned down before anything was done.
#[derive(Debug, Clone, Copy, PartialEq, Eq, Structural)]
pub enum ValidationError {
    /// The link is neither `wan0` nor `wan1`.
    InvalidNic,
    /// The address is no dotted quad with an optional mask length.
    InvalidAddress,
}

impl ValidationError {
    /// The reason, in plain text.
    pub open spec fn message_text(self) -> Seq<char> {
        match self {
            ValidationError::InvalidNic => "nic must be 'wan0' or 'wan1'"@,
            ValidationError::InvalidAddress => {
                "Invalid IP format. Expected: IP or IP/subnet (e.g., 10.40.0.3 or 10.40.0.3/20)"@
            },
        }
    }

    /// The reason, in plain text.
    pub fn message(self) -> (text: &'static str)
        ensures
            text@ == self.message_text(),
    {
        match self {
            ValidationError::InvalidNic => "nic must be 'wan0' or 'wan1'",
            ValidationError::InvalidAddress => {
                "Invalid IP format. Expected: IP or IP/subnet (e.g., 10.40.0.3 or 10.40.0.3/20)"
            },
        }
    }
}

/// Why a switch did not take place.
#[derive(Debug, Clone, PartialEq, Eq)]
pub enum SwitchError {
    /// The request was malformed; nothing was done.
    Validation(ValidationError),
    /// A command that had to succeed did not. What was done before it stays.
    Command(CommandError),
}

/// A switch's failure as a mathematical value.
pub enum SwitchErrorView {
    Validation(ValidationError),
    Command(CommandErrorView),
}

impl View for SwitchError {
    type V = SwitchErrorView;

    open spec fn view(&self) -> SwitchErrorView {
        match self {
            SwitchError::Validation(error) => SwitchErrorView::Validation(*error),
            SwitchError::Command(error) => SwitchErrorView::Command(error@),
        }
    }
}

impl SwitchErrorView {
    /// The HTTP status that reports the failure: a client error for a
    /// malformed request, a server error for a failed command.
    pub open spec fn status_code(self) -> u16 {
        match self {
            SwitchErrorView::Validation(_) => 400,
            SwitchErrorView::Command(_) => 500,
        }
    }

    /// The report for the caller.
    pub open spec fn message(self) -> Seq<char> {
        match self {
            SwitchErrorView::Validation(error) => error.message_text(),
            SwitchErrorView::Command(error) => "Failed to add policy rule: "@ + error.message(),
        }
    }
}

impl SwitchError {
    /// The HTTP status that reports the failure.
    pub fn status_code(&self) -> (code: u16)
        ensures
            code == self@.status_code(),
    {
        match self {
            SwitchError::Validation(_) => 400,
            SwitchError::Command(_) => 500,
        }
    }

    /// The report for the caller.
    pub fn message(&self) -> (text: String)
        ensures
            text@ == self@.message(),
    {
        match self {
            SwitchError::Validation(error) => String::from_str(error.message()),
            SwitchError::Command(error) => {
                let mut text = String::from_str("Failed to add policy rule: ");
                text.append(error.message().as_str());
                text
            },
        }
    }
}

/// What a request asks for, once its link and its address have been read:
/// the link must be known, then the address must be well formed.
pub open spec fn validated(nic: Option<Nic>, address: Option<Seq<char>>) -> Result<
    (Seq<char>, Nic),
    ValidationError,
> {
    match nic {
        None => Err(ValidationError::InvalidNic),
        Some(nic) => match address {
            None => Err(ValidationError::InvalidAddress),
            Some(address) => Ok((address, nic)),
        },
    }
}

/// Checks a request whose link and address have been read.
pub fn validate(nic: Option<Nic>, address: Option<String>) -> (target: Result<
    (String, Nic),
    ValidationError,
>)
    ensures
        match validated(nic, address.deep_view()) {
            Ok((address, nic)) => target matches Ok(found) && found.0@ == address && found.1 == nic,
            Err(error) => target == Err::<(String, Nic), ValidationError>(error),
        },
{
    match nic {
        None => Err(ValidationError::InvalidNic),
        Some(nic) => match address {
            None => Err(ValidationError::InvalidAddress),
            Some(address) => Ok((address, nic)),
        },
    }
}

/// The selector of a single host: its bare address with the mask length 32.
pub open spec fn host_selector(address: Seq<char>) -> Seq<char> {
    address + "/32"@
}

/// One host and its link.
#[derive(Debug, Clone, PartialEq, Eq)]
pub struct HostEntry {
    /// The bare address of the host.
    pub address: String,
    /// The link that carries its traffic.
    pub nic: Nic,
}

/// Whether `entries` is `map` written as a list: no address twice, every
/// entry in the map, and every address of the map in an entry.
pub open spec fn lists(entries: Seq<HostEntry>, map: Map<Seq<char>, Nic>) -> bool {
    &&& forall|i: int, j: int|
        0 <= i < j < entries.len() ==> entries[i].address@ != entries[j].address@
    &&& forall|i: int|
        0 <= i < entries.len() ==> map.contains_key(#[trigger] entries[i].address@)
            && map[entries[i].address@] == entries[i].nic
    &&& forall|address: Seq<char>|
        map.contains_key(address) ==> exists|i: int|
            0 <= i < entries.len() && #[trigger] entries[i].address@ == address
}

/// Which host uses which link. It lives in memory only.
#[derive(Debug)]
pub struct HostMapping {
    entries: Vec<HostEntry>,
}

spec fn known(entries: Seq<HostEntry>, address: Seq<char>) -> bool {
    exists|i: int| 0 <= i < entries.len() && #[trigger] entries[i].address@ == address
}

spec fn slot_of(entries: Seq<HostEntry>, address: Seq<char>) -> int {
    choose|i: int| 0 <= i < entries.len() && #[trigger] entries[i].address@ == address
}

spec fn distinct(entries: Seq<HostEntry>) -> bool {
    forall|i: int, j: int|
        0 <= i < j < entries.len() ==> (#[trigger] entries[i]).address@ != (
        #[trigger] entries[j]).address@
}

spec fn map_of(entries: Seq<HostEntry>) -> Map<Seq<char>, Nic> {
    Map::new(
        |address: Seq<char>| known(entries, address),
        |address: Seq<char>| entries[slot_of(entries, address)].nic,
    )
}

proof fn lemma_slot(entries: Seq<HostEntry>, k: int)
    requires
        distinct(entries),
        0 <= k < entries.len(),
    ensures
        known(entries, entries[k].address@),
        slot_of(entries, entries[k].address@) == k,
{
    let address = entries[k].address@;
    assert(known(entries, address));
    let s = slot_of(entries, address);
    assert(0 <= s < entries.len() && entries[s].address@ == address);
    if s < k {
        assert(entries[s].address@ != entries[k].address@);
    } else if k < s {
        assert(entries[k].address@ != entries[s].address@);
    }
}

proof fn lemma_lists(entries: Seq<HostEntry>)
    requires
        distinct(entries),
    ensures
        lists(entries, map_of(entries)),
{
    assert forall|i: int| 0 <= i < entries.len() implies map_of(entries).contains_key(
        #[trigger] entries[i].address@,
    ) && map_of(entries)[entries[i].address@] == entries[i].nic by {
        lemma_slot(entries, i);
    }
}

proof fn lemma_replaced(before: Seq<HostEntry>, k: int, entry: HostEntry)
    requires
        distinct(before),
        0 <= k < before.len(),
        before[k].address@ == entry.address@,
    ensures
        distinct(before.update(k, entry)),
        map_of(before.update(k, entry)) == map_of(before).insert(entry.address@, entry.nic),
{
    let after = before.update(k, entry);
    assert forall|i: int| 0 <= i < after.len() implies (#[trigger] after[i]).address@
        == before[i].address@ by {}
    assert(distinct(after)) by {
        assert forall|i: int, j: int| 0 <= i < j < after.len() implies (#[trigger] after[i]).address@
            != (#[trigger] after[j]).address@ by {
            assert(before[i].address@ != before[j].address@);
        }
    }
    let wanted = map_of(before).insert(entry.address@, entry.nic);
    assert forall|address: Seq<char>| map_of(after).contains_key(address) <==> wanted.contains_key(
        address,
    ) by {
        if known(after, address) {
            let i = slot_of(after, address);
            assert(before[i].address@ == address);
        }
        if known(before, address) {
            let i = slot_of(before, address);
            assert(after[i].address@ == address);
        }
        if address == entry.address@ {
            assert(after[k].address@ == address);
        }
    }
    assert forall|address: Seq<char>| map_of(after).contains_key(address) implies map_of(
        after,
    )[address] == wanted[address] by {
        let i = slot_of(after, address);
        assert(0 <= i < after.len() && after[i].address@ == address);
        lemma_slot(after, i);
        lemma_slot(before, i);
        if i != k {
            assert(after[i] == before[i]);
            if address == entry.address@ {
                if i < k {
                    assert(before[i].address@ != before[k].address@);
                } else {
                    assert(before[k].address@ != before[i].address@);
                }
            }
        }
    }
    assert(map_of(after) =~= wanted);
}

proof fn lemma_appended(before: Seq<HostEntry>, entry: HostEntry)
    requires
        distinct(before),
        !known(before, entry.address@),
    ensures
        distinct(before.push(entry)),
        map_of(before.push(entry)) == map_of(before).insert(entry.address@, entry.nic),
{
    let after = before.push(entry);
    let last = before.len() as int;
    assert(distinct(after)) by {
        assert forall|i: int, j: int| 0 <= i < j < after.len() implies (#[trigger] after[i]).address@
            != (#[trigger] after[j]).address@ by {
            if j < last {
                assert(before[i].address@ != before[j].address@);
            } else {
                assert(after[i] == before[i]);
                assert(before[i].address@ != entry.address@);
            }
        }
    }
    let wanted = map_of(before).insert(entry.address@, entry.nic);
    assert forall|address: Seq<char>| map_of(after).contains_key(address) <==> wanted.contains_key(
        address,
    ) by {
        if known(after, address) {
            let i = slot_of(after, address);
            if i < last {
                assert(before[i].address@ == address);
            }
        }
        if known(before, address) {
            let i = slot_of(before, address);
            assert(after[i].address@ == address);
        }
        if address == entry.address@ {
            assert(after[last].address@ == address);
        }
    }
    assert forall|address: Seq<char>| map_of(after).contains_key(address) implies map_of(
        after,
    )[address] == wanted[address] by {
        let i = slot_of(after, address);
        assert(0 <= i < after.len() && after[i].address@ == address);
        lemma_slot(after, i);
        if i < last {
            assert(after[i] == before[i]);
            lemma_slot(before, i);
        }
    }
    assert(map_of(after) =~= wanted);
}

impl View for HostMapping {
    type V = Map<Seq<char>, Nic>;

    closed spec fn view(&self) -> Map<Seq<char>, Nic> {
        map_of(self.entries@)
    }
}

impl HostMapping {
    #[verifier::type_invariant]
    spec fn no_address_twice(self) -> bool {
        distinct(self.entries@)
    }

    /// A record of no host.
    pub fn new() -> (mapping: HostMapping)
        ensures
            mapping@ == Map::<Seq<char>, Nic>::empty(),
    {
        let mapping = HostMapping { entries: Vec::new() };
        assert(mapping@ =~= Map::<Seq<char>, Nic>::empty());
        mapping
    }

    fn find(&self, address: &str) -> (slot: Option<usize>)
        ensures
            match slot {
                Some(k) => k < self.entries.len() && self.entries[k as int].address@ == address@,
                None => !known(self.entries@, address@),
            },
    {
        let wanted = String::from_str(address);
        let mut k: usize = 0;
        while k < self.entries.len()
            invariant
                k <= self.entries.len(),
                wanted@ == address@,
                forall|i: int| 0 <= i < k ==> (#[trigger] self.entries[i]).address@ != address@,
            decreases self.entries.len() - k,
        {
            if self.entries[k].address == wanted {
                return Some(k);
            }
            k += 1;
        }
        None
    }

    /// The link of a host, if the host is on record.
    pub fn get(&self, address: &str) -> (nic: Option<Nic>)
        ensures
            nic == if self@.contains_key(address@) {
                Some(self@[address@])
            } else {
                None
            },
    {
        proof {
            use_type_invariant(self);
        }
        match self.find(address) {
            Some(k) => {
                proof {
                    lemma_slot(self.entries@, k as int);
                }
                Some(self.entries[k].nic)
            },
            None => None,
        }
    }

    /// Puts a host on record with its link, in place of what was on record
    /// for it.
    pub fn insert(&mut self, address: String, nic: Nic)
        ensures
            final(self)@ == old(self)@.insert(address@, nic),
    {
        proof {
            use_type_invariant(&*self);
        }
        let found = self.find(address.as_str());
        let mut entries: Vec<HostEntry> = Vec::new();
        std::mem::swap(&mut entries, &mut self.entries);
        let ghost before = entries@;
        let entry = HostEntry { address, nic };
        match found {
            Some(k) => {
                proof {
                    lemma_replaced(before, k as int, entry);
                }
                entries.set(k, entry);
            },
            None => {
                proof {
                    lemma_appended(before, entry);
                }
                entries.push(entry);
            },
        }
        self.entries = entries;
    }

    /// The record as a list, each host once.
    pub fn entries(&self) -> (list: Vec<HostEntry>)
        ensures
            lists(list@, self@),
    {
        proof {
            use_type_invariant(self);
            lemma_lists(self.entries@);
        }
        let mut list: Vec<HostEntry> = Vec::new();
        let mut k: usize = 0;
        while k < self.entries.len()
            invariant
                k <= self.entries.len(),
                list.len() == k,
                forall|i: int|
                    0 <= i < k ==> (#[trigger] list[i]).address@ == self.entries[i].address@
                        && list[i].nic == self.entries[i].nic,
            decreases self.entries.len() - k,
        {
            list.push(HostEntry { address: self.entries[k].address.clone(), nic: self.entries[k].nic });
            k += 1;
        }
        proof {
            let map = map_of(self.entries@);
            assert forall|address: Seq<char>| map.contains_key(address) implies exists|i: int|
                0 <= i < list.len() && #[trigger] list[i].address@ == address by {
                let s = slot_of(self.entries@, address);
                assert(list[s].address@ == address);
            }
        }
        list
    }
}

/// Where a switch stands, between its commands.
#[derive(Debug, Clone, PartialEq, Eq)]
pub enum SwitchPhase {
    /// The host's rule in the primary table is being removed.
    ClearingPrimary,
    /// The host's rule in the secondary table is being removed.
    ClearingSecondary,
    /// The host's rule in the secondary table is being put in place.
    Inserting(RuleInsertion),
}

/// A phase as a mathematical value.
pub enum SwitchPhaseView {
    ClearingPrimary,
    ClearingSecondary,
    Inserting(RuleInsertionView),
}

impl View for SwitchPhase {
    type V = SwitchPhaseView;

    open spec fn view(&self) -> SwitchPhaseView {
        match self {
            SwitchPhase::ClearingPrimary => SwitchPhaseView::ClearingPrimary,
            SwitchPhase::ClearingSecondary => SwitchPhaseView::ClearingSecondary,
            SwitchPhase::Inserting(insertion) => SwitchPhaseView::Inserting(insertion@),
        }
    }
}

/// One switch of one host, under way.
#[derive(Debug, Clone, PartialEq, Eq)]
pub struct SwitchSession {
    /// The bare address of the host.
    pub address: String,
    /// The selector of the host's rules.
    pub selector: String,
    /// The link that the host is moved to.
    pub nic: Nic,
    /// What is being done at the moment.
    pub phase: SwitchPhase,
}

/// A switch under way as a mathematical value.
pub struct SwitchSessionView {
    pub address: Seq<char>,
    pub selector: Seq<char>,
    pub nic: Nic,
    pub phase: SwitchPhaseView,
}

impl View for SwitchSession {
    type V = SwitchSessionView;

    open spec fn view(&self) -> SwitchSessionView {
        SwitchSessionView {
            address: self.address@,
            selector: self.selector@,
            nic: self.nic,
            phase: self.phase@,
        }
    }
}

/// What a switch does next.
#[derive(Debug, PartialEq, Eq)]
pub enum SwitchStep {
    /// Run the command and come back with its outcome.
    Run(SwitchSession, Command),
    /// The switch is over: the host is on record with its new link, and the
    /// message says so; or a command failed and the record is as it was.
    Done(Result<String, SwitchError>),
}

/// A step as a mathematical value.
pub enum SwitchStepView {
    Run(SwitchSessionView, CommandView),
    Done(Result<Seq<char>, SwitchErrorView>),
}

impl View for SwitchStep {
    type V = SwitchStepView;

    open spec fn view(&self) -> SwitchStepView {
        match self {
            SwitchStep::Run(session, command) => SwitchStepView::Run(session@, command@),
            SwitchStep::Done(Ok(message)) => SwitchStepView::Done(Ok(message@)),
            SwitchStep::Done(Err(error)) => SwitchStepView::Done(Err(error@)),
        }
    }
}

/// What the caller is told after a switch.
pub open spec fn success_message(selector: Seq<char>, nic: Nic, config: ConfigView) -> Seq<char> {
    match nic {
        Nic::Wan0 => "Routed "@ + selector + " to wan0 ("@ + config.wan0 + ") via default policy"@,
        Nic::Wan1 => "Routed "@ + selector + " to wan1 ("@ + config.wan1 + ") via policy"@,
    }
}

/// The start of a switch of the host at `address` to `nic`: the session,
/// about to clear the host's rule in the primary table.
pub open spec fn begun(address: Seq<char>, nic: Nic) -> SwitchSessionView {
    SwitchSessionView {
        address,
        selector: host_selector(address),
        nic,
        phase: SwitchPhaseView::ClearingPrimary,
    }
}

/// The coordinator as a mathematical value.
pub struct CoordinatorView {
    pub config: ConfigView,
    pub mappings: Map<Seq<char>, Nic>,
}

impl CoordinatorView {
    /// The end of a switch that went through: the host goes on record with
    /// its link, and the caller is told.
    pub open spec fn finish(self, session: SwitchSessionView) -> (SwitchStepView, CoordinatorView) {
        (
            SwitchStepView::Done(Ok(success_message(session.selector, session.nic, self.config))),
            CoordinatorView {
                config: self.config,
                mappings: self.mappings.insert(session.address, session.nic),
            },
        )
    }

    /// The switch's rule. Whatever rule the host had in either table is
    /// removed first, and whether a removal succeeds is of no account. A
    /// host that goes to the secondary link then gets its rule there, with
    /// the priority of an override, unless the listing shows it already; a
    /// host that goes to the primary link gets none. The record changes
    /// only at the end of a switch that went through.
    pub open spec fn advance(
        self,
        session: SwitchSessionView,
        outcome: Result<Seq<char>, CommandErrorView>,
    ) -> (SwitchStepView, CoordinatorView) {
        match session.phase {
            SwitchPhaseView::ClearingPrimary => (
                SwitchStepView::Run(
                    SwitchSessionView {
                        address: session.address,
                        selector: session.selector,
                        nic: session.nic,
                        phase: SwitchPhaseView::ClearingSecondary,
                    },
                    CommandView::DeleteRule { from: session.selector, table: TABLE_WAN1 },
                ),
                self,
            ),
            SwitchPhaseView::ClearingSecondary => match session.nic {
                Nic::Wan0 => self.finish(session),
                Nic::Wan1 => (
                    SwitchStepView::Run(
                        SwitchSessionView {
                            address: session.address,
                            selector: session.selector,
                            nic: session.nic,
                            phase: SwitchPhaseView::Inserting(
                                RuleInsertionView::Listing {
                                    from: session.selector,
                                    table: TABLE_WAN1,
                                    priority: PRIO_SPECIFIC,
                                },
                            ),
                        },
                        CommandView::ListRules,
                    ),
                    self,
                ),
            },
            SwitchPhaseView::Inserting(insertion) => match insertion.advance(outcome) {
                InsertionStepView::Run(next, command) => (
                    SwitchStepView::Run(
                        SwitchSessionView {
                            address: session.address,
                            selector: session.selector,
                            nic: session.nic,
                            phase: SwitchPhaseView::Inserting(next),
                        },
                        command,
                    ),
                    self,
                ),
                InsertionStepView::Done(Ok(_)) => self.finish(session),
                InsertionStepView::Done(Err(error)) => (
                    SwitchStepView::Done(Err(SwitchErrorView::Command(error))),
                    self,
                ),
            },
        }
    }
}

/// The keeper of the host record, and the one place where a host's link is
/// changed.
#[derive(Debug)]
pub struct SwitchCoordinator {
    config: Config,
    mappings: HostMapping,
}

impl View for SwitchCoordinator {
    type V = CoordinatorView;

    closed spec fn view(&self) -> CoordinatorView {
        CoordinatorView { config: self.config@, mappings: self.mappings@ }
    }
}

impl SwitchSession {
    /// Starts the switch of the host at `address` to `nic`: the first thing
    /// to do is to remove the host's rule from the primary table.
    pub fn begin(address: String, nic: Nic) -> (start: (SwitchSession, Command))
        ensures
            start.0@ == begun(address@, nic),
            start.1@ == (CommandView::DeleteRule {
                from: host_selector(address@),
                table: TABLE_WAN0,
            }),
    {
        let mut selector = address.clone();
        selector.append("/32");
        let command = del_ip_rule_quiet(selector.as_str(), TABLE_WAN0);
        (SwitchSession { address, selector, nic, phase: SwitchPhase::ClearingPrimary }, command)
    }
}

impl SwitchCoordinator {
    /// A coordinator with no host on record.
    pub fn new(config: Config) -> (coordinator: SwitchCoordinator)
        ensures
            coordinator@.config == config@,
            coordinator@.mappings == Map::<Seq<char>, Nic>::empty(),
    {
        SwitchCoordinator { config, mappings: HostMapping::new() }
    }

    /// The interface names.
    pub fn config(&self) -> (config: &Config)
        ensures
            config@ == self@.config,
    {
        &self.config
    }

    /// The link of a host, if the host is on record.
    pub fn lookup(&self, address: &str) -> (nic: Option<Nic>)
        ensures
            nic == if self@.mappings.contains_key(address@) {
                Some(self@.mappings[address@])
            } else {
                None
            },
    {
        self.mappings.get(address)
    }

    /// The record as a list, each host once.
    pub fn mappings(&self) -> (list: Vec<HostEntry>)
        ensures
            lists(list@, self@.mappings),
    {
        self.mappings.entries()
    }

    /// Takes a request to move the host at `ip` to the link `nic`. A request
    /// with an unknown link or a malformed address is turned down; for any
    /// other the switch starts, with the host's bare address, and the first
    /// command is handed out. The record is not touched.
    pub fn switch(&self, ip: &str, nic: &str) -> (start: Result<(SwitchSession, Command), SwitchError>)
        ensures
            match validated(nic_of(nic@), first_capture(HOST_PATTERN@, ip@)) {
                Err(error) => start matches Err(refusal) && refusal@ == SwitchErrorView::Validation(
                    error,
                ),
                Ok((address, link)) => start matches Ok(begin) && begin.0@ == begun(address, link)
                    && begin.1@ == (CommandView::DeleteRule {
                    from: host_selector(address),
                    table: TABLE_WAN0,
                }),
            },
    {
        let link = Nic::parse(nic);
        let address = match link {
            Some(_) => capture(HOST_PATTERN, ip),
            None => None,
        };
        match validate(link, address) {
            Err(error) => Err(SwitchError::Validation(error)),
            Ok((address, link)) => Ok(SwitchSession::begin(address, link)),
        }
    }

    fn finish(&mut self, session: SwitchSession) -> (step: SwitchStep)
        ensures
            (step@, final(self)@) == old(self)@.finish(session@),
    {
        let mut message = String::from_str("Routed ");
        message.append(session.selector.as_str());
        match session.nic {
            Nic::Wan0 => {
                message.append(" to wan0 (");
                message.append(self.config.wan0.as_str());
                message.append(") via default policy");
            },
            Nic::Wan1 => {
                message.append(" to wan1 (");
                message.append(self.config.wan1.as_str());
                message.append(") via policy");
            },
        }
        self.mappings.insert(session.address, session.nic);
        SwitchStep::Done(Ok(message))
    }

    /// Takes the outcome of the command that was run last and says what to
    /// do next.
    pub fn advance(&mut self, session: SwitchSession, outcome: Outcome) -> (step: SwitchStep)
        ensures
            (step@, final(self)@) == old(self)@.advance(session@, outcome_view(outcome)),
    {
        let SwitchSession { address, selector, nic, phase } = session;
        match phase {
            SwitchPhase::ClearingPrimary => {
                let command = del_ip_rule_quiet(selector.as_str(), TABLE_WAN1);
                SwitchStep::Run(
                    SwitchSession { address, selector, nic, phase: SwitchPhase::ClearingSecondary },
                    command,
                )
            },
            SwitchPhase::ClearingSecondary => match nic {
                Nic::Wan0 => self.finish(SwitchSession { address, selector, nic, phase }),
                Nic::Wan1 => {
                    let (insertion, command) = add_ip_rule(
                        selector.as_str(),
                        TABLE_WAN1,
                        PRIO_SPECIFIC,
                    );
                    SwitchStep::Run(
                        SwitchSession {
                            address,
                            selector,
                            nic,
                            phase: SwitchPhase::Inserting(insertion),
                        },
                        command,
                    )
                },
            },
            SwitchPhase::Inserting(insertion) => match insertion.advance(outcome) {
                InsertionStep::Run(next, command) => SwitchStep::Run(
                    SwitchSession { address, selector, nic, phase: SwitchPhase::Inserting(next) },
                    command,
                ),
                InsertionStep::Done(Ok(_)) => self.finish(
                    SwitchSession {
                        address,
                        selector,
                        nic,
                        phase: SwitchPhase::Inserting(RuleInsertion::Adding),
                    },
                ),
                InsertionStep::Done(Err(error)) => SwitchStep::Done(Err(SwitchError::Command(error))),
            },
        }
    }
}

} // verus!
