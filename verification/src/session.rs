use crate::digest::{hex_of, sha512};
use crate::install::{
    accepts, install_of, lies_below, plan_install, verify_download, Install, InstallView,
    SkipReason,
};
use crate::document::Json;
use crate::manifest::{
    entries_of, lemma_selection_keeps_order, manifest_in, read_document, read_manifest,
    required_places, select, selected, views, EntryView, ManifestError, ModEntry,
};
use crate::text::same_ignoring_case;
use vstd::prelude::*;

verus! {

/// How far a run has come.
#[derive(Clone, Copy, Debug, PartialEq, Eq, Structural)]
pub enum Phase {
    /// The user has not yet said whether to install.
    Confirming,
    /// The bytes of the next entry are awaited.
    Fetching,
    /// Every entry has been dealt with.
    Completed,
    /// The user said no.
    Declined,
}

/// What happened outside the library.
#[derive(Debug, PartialEq)]
pub enum Event {
    /// The user answered the question whether to install.
    Answer(bool),
    /// The bytes that were fetched for the entry in turn.
    Body(Vec<u8>),
}

/// An event, as a value.
pub enum EventView {
    Answer(bool),
    Body(Seq<u8>),
}

impl View for Event {
    type V = EventView;

    open spec fn view(&self) -> EventView {
        match self {
            Event::Answer(yes) => EventView::Answer(*yes),
            Event::Body(bytes) => EventView::Body(bytes@),
        }
    }
}

/// What is to be done outside the library next.
#[derive(Debug, PartialEq)]
pub enum Command {
    /// Ask the user whether to install `count` artifacts below `root`.
    Ask { count: usize, root: String },
    /// Fetch the bytes at `url`.
    Fetch { url: String },
    /// Report that the run is complete, and end.
    Complete,
    /// End without a word.
    Quit,
}

/// A command, as a value.
pub enum CommandView {
    Ask { count: nat, root: Seq<char> },
    Fetch { url: Seq<char> },
    Complete,
    Quit,
}

impl View for Command {
    type V = CommandView;

    open spec fn view(&self) -> CommandView {
        match self {
            Command::Ask { count, root } => CommandView::Ask { count: *count as nat, root: root@ },
            Command::Fetch { url } => CommandView::Fetch { url: url@ },
            Command::Complete => CommandView::Complete,
            Command::Quit => CommandView::Quit,
        }
    }
}

/// What an event led to.
#[derive(Debug, PartialEq)]
pub enum Outcome {
    /// Nothing to write and nothing to report.
    Nothing,
    /// The fetched bytes passed their check and are to be written.
    Install(Install),
    /// The fetched bytes are dropped, with a warning that names the entry.
    Skip { relative_path: String, reason: SkipReason },
}

/// An outcome, as a value.
pub enum OutcomeView {
    Nothing,
    Install(InstallView),
    Skip { relative_path: Seq<char>, reason: SkipReason },
}

impl View for Outcome {
    type V = OutcomeView;

    open spec fn view(&self) -> OutcomeView {
        match self {
            Outcome::Nothing => OutcomeView::Nothing,
            Outcome::Install(install) => OutcomeView::Install(install@),
            Outcome::Skip { relative_path, reason } => OutcomeView::Skip {
                relative_path: relative_path@,
                reason: *reason,
            },
        }
    }
}

/// The answer to an event: first `outcome` is carried out, then `command`.
#[derive(Debug, PartialEq)]
pub struct Directive {
    pub outcome: Outcome,
    pub command: Command,
}

/// The state of a run, as a value.
pub struct SessionView {
    pub root: Seq<char>,
    pub entries: Seq<EntryView>,
    pub next: nat,
    pub phase: Phase,
}

/// A run over the selected entries of a manifest, one after the other.
///
/// The session decides; its user asks, fetches and writes, and reports back
/// with events.
#[derive(Debug)]
pub struct Session {
    root: String,
    entries: Vec<ModEntry>,
    next: usize,
    phase: Phase,
}

/// The state in which a run over `entries` below `root` begins.
pub open spec fn opened(root: Seq<char>, entries: Seq<EntryView>) -> SessionView {
    SessionView { root, entries, next: 0, phase: Phase::Confirming }
}

/// The state `s` with `next` as the entry in turn: complete once there is no
/// such entry.
pub open spec fn turned_to(s: SessionView, next: nat) -> SessionView {
    SessionView {
        next,
        phase: if next < s.entries.len() {
            Phase::Fetching
        } else {
            Phase::Completed
        },
        ..s
    }
}

/// What becomes of the bytes fetched for `entry`: an install if they have
/// the declared digest, and else a skip that names the entry.
pub open spec fn judged(root: Seq<char>, entry: EntryView, bytes: Seq<u8>) -> OutcomeView {
    if accepts(entry, bytes) {
        OutcomeView::Install(install_of(root, entry, bytes))
    } else {
        OutcomeView::Skip {
            relative_path: entry.relative_path,
            reason: SkipReason::HashMismatch,
        }
    }
}

/// The command that a state waits on.
pub open spec fn pending_of(s: SessionView) -> CommandView {
    match s.phase {
        Phase::Confirming => CommandView::Ask { count: s.entries.len(), root: s.root },
        Phase::Fetching => CommandView::Fetch { url: s.entries[s.next as int].source_url },
        Phase::Completed => CommandView::Complete,
        Phase::Declined => CommandView::Quit,
    }
}

/// The state after an event, and what the event led to.
///
/// An answer counts while the session is confirming: yes turns to the first
/// entry, no declines. A body counts while the session is fetching: it is
/// judged against the entry in turn, and the session turns to the next. An
/// event that does not count changes nothing.
pub open spec fn step_of(s: SessionView, event: EventView) -> (SessionView, OutcomeView) {
    match (s.phase, event) {
        (Phase::Confirming, EventView::Answer(true)) => (turned_to(s, 0), OutcomeView::Nothing),
        (Phase::Confirming, EventView::Answer(false)) => (
            SessionView { phase: Phase::Declined, ..s },
            OutcomeView::Nothing,
        ),
        (Phase::Fetching, EventView::Body(bytes)) => (
            turned_to(s, s.next + 1),
            judged(s.root, s.entries[s.next as int], bytes),
        ),
        _ => (s, OutcomeView::Nothing),
    }
}

impl View for Session {
    type V = SessionView;

    closed spec fn view(&self) -> SessionView {
        SessionView {
            root: self.root@,
            entries: views(self.entries@),
            next: self.next as nat,
            phase: self.phase,
        }
    }
}

impl Session {
    #[verifier::type_invariant]
    spec fn in_step(self) -> bool {
        self.next <= self.entries@.len() && (self.phase == Phase::Fetching ==> self.next
            < self.entries@.len())
    }

    /// Opens a run over `entries`, to be installed below `root`.
    pub fn new(root: String, entries: Vec<ModEntry>) -> (session: Session)
        ensures
            session@ == opened(root@, views(entries@)),
    {
        Session { root, entries, next: 0, phase: Phase::Confirming }
    }

    /// Opens a run over the entries that a manifest document declares as
    /// required, in the order of the manifest, or says why the manifest is
    /// rejected.
    pub fn plan(root: String, doc: &Json) -> (r: Result<Session, ManifestError>)
        ensures
            match r {
                Ok(session) => entries_of(doc@) matches Ok(entries) && session@ == opened(
                    root@,
                    selected(entries),
                ),
                Err(error) => entries_of(doc@) == Err::<Seq<EntryView>, ManifestError>(error),
            },
    {
        match read_manifest(doc) {
            Ok(entries) => Ok(Session::new(root, select(entries))),
            Err(error) => Err(error),
        }
    }

    /// Opens a run over the entries that the bytes of a manifest declare
    /// as required, in the order of the manifest, or says why the manifest
    /// is rejected.
    pub fn open(root: String, manifest: Vec<u8>) -> (r: Result<Session, ManifestError>)
        ensures
            match r {
                Ok(session) => manifest_in(manifest@) matches Ok(entries) && session@ == opened(
                    root@,
                    selected(entries),
                ),
                Err(error) => manifest_in(manifest@) == Err::<Seq<EntryView>, ManifestError>(error),
            },
    {
        match read_document(manifest) {
            Ok(doc) => Session::plan(root, &doc),
            Err(error) => Err(error),
        }
    }

    /// How far the run has come.
    pub fn phase(&self) -> (phase: Phase)
        ensures
            phase == self@.phase,
    {
        self.phase
    }

    /// The command that the session waits on.
    pub fn pending(&self) -> (command: Command)
        ensures
            command@ == pending_of(self@),
    {
        proof {
            use_type_invariant(self);
        }
        match self.phase {
            Phase::Confirming => Command::Ask {
                count: self.entries.len(),
                root: self.root.clone(),
            },
            Phase::Fetching => Command::Fetch {
                url: self.entries[self.next].source_url().clone(),
            },
            Phase::Completed => Command::Complete,
            Phase::Declined => Command::Quit,
        }
    }

    /// Takes an event and says what to do about it, as [`step_of`]
    /// describes; the command is the one that the session then waits on.
    pub fn step(&mut self, event: Event) -> (directive: Directive)
        ensures
            (final(self)@, directive.outcome@) == step_of(old(self)@, event@),
            directive.command@ == pending_of(final(self)@),
            directive.outcome matches Outcome::Install(install) ==> lies_below(
                old(self)@.root,
                install@,
            ),
    {
        proof {
            use_type_invariant(&*self);
        }
        let outcome = match event {
            Event::Answer(yes) => {
                match self.phase {
                    Phase::Confirming => {
                        if !yes {
                            self.phase = Phase::Declined;
                        } else {
                            self.next = 0;
                            if self.entries.len() > 0 {
                                self.phase = Phase::Fetching;
                            } else {
                                self.phase = Phase::Completed;
                            }
                        }
                    },
                    _ => {},
                }
                Outcome::Nothing
            },
            Event::Body(bytes) => {
                match self.phase {
                    Phase::Fetching => {
                        let outcome = judge(self.root.as_str(), &self.entries[self.next], bytes);
                        let count = self.entries.len();
                        if self.next + 1 == count {
                            self.phase = Phase::Completed;
                        }
                        self.next = self.next + 1;
                        outcome
                    },
                    _ => Outcome::Nothing,
                }
            },
        };
        let command = self.pending();
        Directive { outcome, command }
    }
}

/// Judges the bytes fetched for `entry`, as [`judged`] describes.
pub fn judge(root: &str, entry: &ModEntry, bytes: Vec<u8>) -> (outcome: Outcome)
    ensures
        outcome@ == judged(root@, entry@, bytes@),
        outcome matches Outcome::Install(install) ==> lies_below(root@, install@),
{
    match verify_download(entry, bytes) {
        Ok(checked) => Outcome::Install(plan_install(root, entry, checked)),
        Err(reason) => Outcome::Skip { relative_path: entry.relative_path().clone(), reason },
    }
}

/// What a sequence of events leads to from state `s`: for each event, in
/// turn, its outcome and the command that the session then waits on.
pub open spec fn trace(s: SessionView, events: Seq<EventView>) -> Seq<(OutcomeView, CommandView)>
    decreases events.len(),
{
    if events.len() == 0 {
        Seq::empty()
    } else {
        let (t, outcome) = step_of(s, events[0]);
        seq![(outcome, pending_of(t))] + trace(t, events.skip(1))
    }
}

/// The state that a sequence of events leads to from state `s`.
pub open spec fn after(s: SessionView, events: Seq<EventView>) -> SessionView
    decreases events.len(),
{
    if events.len() == 0 {
        s
    } else {
        after(step_of(s, events[0]).0, events.skip(1))
    }
}

/// The events of a run in which `bodies` are fetched, one after the other.
pub open spec fn fetched(bodies: Seq<Seq<u8>>) -> Seq<EventView> {
    Seq::new(bodies.len(), |i: int| EventView::Body(bodies[i]))
}

/// The command that follows once the entry at `index` has been dealt with.
pub open spec fn command_after(entries: Seq<EntryView>, index: int) -> CommandView {
    if index + 1 < entries.len() {
        CommandView::Fetch { url: entries[index + 1].source_url }
    } else {
        CommandView::Complete
    }
}

/// The bytes fetched for an entry are installed if and only if their
/// SHA-512 digest, in hexadecimal, is the declared digest up to the case of
/// its letters; otherwise nothing is written for the entry and a skip that
/// names it is reported.
pub proof fn lemma_digest_gate(root: Seq<char>, entry: EntryView, bytes: Seq<u8>)
    ensures
        accepts(entry, bytes) <==> same_ignoring_case(hex_of(sha512(bytes)), entry.expected_digest),
        judged(root, entry, bytes) is Install <==> accepts(entry, bytes),
        accepts(entry, bytes) ==> judged(root, entry, bytes) == OutcomeView::Install(
            install_of(root, entry, bytes),
        ),
        !accepts(entry, bytes) ==> judged(root, entry, bytes) == (OutcomeView::Skip {
            relative_path: entry.relative_path,
            reason: SkipReason::HashMismatch,
        }),
{
}

/// Only a body that arrives while the session is fetching leads to an
/// install or a skip, and it is judged against the entry in turn.
pub proof fn lemma_outcome_needs_body(s: SessionView, event: EventView)
    ensures
        !(step_of(s, event).1 is Nothing) ==> s.phase == Phase::Fetching && event is Body
            && step_of(s, event).1 == judged(s.root, s.entries[s.next as int], event->Body_0),
{
}

/// From a session that has turned to its entry `s.next`, fetching the
/// bodies of the entries that are left deals with them in their order: the
/// `k`-th body is judged against the `k`-th entry that is left, and the
/// next entry is asked for until none is left.
pub proof fn lemma_entries_in_turn(s: SessionView, bodies: Seq<Seq<u8>>)
    requires
        s == turned_to(s, s.next),
        s.next + bodies.len() == s.entries.len(),
    ensures
        trace(s, fetched(bodies)).len() == bodies.len(),
        forall|k: int|
            #![trigger trace(s, fetched(bodies))[k]]
            0 <= k < bodies.len() ==> trace(s, fetched(bodies))[k] == (
                judged(s.root, s.entries[s.next + k], bodies[k]),
                command_after(s.entries, s.next + k),
            ),
        after(s, fetched(bodies)).phase == Phase::Completed,
        after(s, fetched(bodies)).next == s.entries.len(),
    decreases bodies.len(),
{
    let events = fetched(bodies);
    if bodies.len() > 0 {
        let t = step_of(s, events[0]).0;
        let rest = bodies.skip(1);
        assert(events.skip(1) =~= fetched(rest));
        lemma_entries_in_turn(t, rest);
    }
}

/// A run that the user confirms deals with the entries in their order.
///
/// After the answer, the body fetched for entry `k` is the `k`-th to be
/// judged, and it is judged against entry `k`: the installs and skips come
/// in the order of the entries. Then the run is complete.
pub proof fn lemma_run_in_order(root: Seq<char>, entries: Seq<EntryView>, bodies: Seq<Seq<u8>>)
    requires
        bodies.len() == entries.len(),
    ensures
        ({
            let events = seq![EventView::Answer(true)] + fetched(bodies);
            let run = trace(opened(root, entries), events);
            &&& run.len() == entries.len() + 1
            &&& run[0] == (OutcomeView::Nothing, command_after(entries, -1))
            &&& forall|k: int|
                #![trigger run[k + 1]]
                0 <= k < entries.len() ==> run[k + 1] == (
                    judged(root, entries[k], bodies[k]),
                    command_after(entries, k),
                )
            &&& after(opened(root, entries), events).phase == Phase::Completed
        }),
{
    let events = seq![EventView::Answer(true)] + fetched(bodies);
    let start = opened(root, entries);
    let confirmed = step_of(start, events[0]).0;
    assert(events.skip(1) =~= fetched(bodies));
    lemma_entries_in_turn(confirmed, bodies);
}

/// A confirmed run over a manifest installs in the order of the manifest:
/// the `k`-th body is judged against the `k`-th required entry, counted in
/// the order of the manifest, and entries that are not required are never
/// fetched.
pub proof fn lemma_manifest_order(
    root: Seq<char>,
    entries: Seq<EntryView>,
    bodies: Seq<Seq<u8>>,
)
    requires
        bodies.len() == selected(entries).len(),
    ensures
        ({
            let events = seq![EventView::Answer(true)] + fetched(bodies);
            let run = trace(opened(root, selected(entries)), events);
            let places = required_places(entries);
            &&& run.len() == places.len() + 1
            &&& forall|k: int|
                #![trigger run[k + 1]]
                0 <= k < places.len() ==> 0 <= places[k] < entries.len() && run[k + 1].0
                    == judged(root, entries[places[k]], bodies[k])
            &&& forall|a: int, b: int| 0 <= a < b < places.len() ==> places[a] < places[b]
        }),
{
    lemma_selection_keeps_order(entries);
    lemma_run_in_order(root, selected(entries), bodies);
}

/// Once the user has declined, no event leads to anything: every outcome
/// is `Nothing` and every command is `Quit`.
pub proof fn lemma_declined_stays(s: SessionView, events: Seq<EventView>)
    requires
        s.phase == Phase::Declined,
    ensures
        trace(s, events).len() == events.len(),
        forall|k: int|
            0 <= k < events.len() ==> #[trigger] trace(s, events)[k] == (
                OutcomeView::Nothing,
                CommandView::Quit,
            ),
        after(s, events) == s,
    decreases events.len(),
{
    if events.len() > 0 {
        lemma_declined_stays(s, events.skip(1));
    }
}

/// A run that the user declines fetches nothing and installs nothing,
/// whatever happens afterwards.
pub proof fn lemma_declined_run(root: Seq<char>, entries: Seq<EntryView>, events: Seq<EventView>)
    ensures
        ({
            let run = trace(opened(root, entries), seq![EventView::Answer(false)] + events);
            &&& run.len() == events.len() + 1
            &&& forall|k: int|
                0 <= k < run.len() ==> #[trigger] run[k] == (
                    OutcomeView::Nothing,
                    CommandView::Quit,
                )
        }),
{
    let all = seq![EventView::Answer(false)] + events;
    let start = opened(root, entries);
    let declined = step_of(start, all[0]).0;
    assert(all.skip(1) =~= events);
    lemma_declined_stays(declined, events);
}

} // verus!
