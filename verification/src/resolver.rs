//! The identity resolver: decides, volume by volume, which identifier is
//! shown. A genuine bus-reported UUID is authoritative; for every other
//! volume the persistent store is consulted. The resolver never touches a
//! file itself: it says which marker to read or write, and is told what came
//! of it.

use vstd::prelude::*;
use vstd::utf8::is_ascii_chars;
use crate::mounts::presentable;
use crate::store::{
    after_write, decide_marker, decide_marker_with, marked_identifier, marker_decision,
    written_identifier, MarkerDecision, MarkerDecisionView,
};
use crate::text::{
    ascii_uppercase_of, display_form, display_text, lemma_caseless_text, same_ignoring_ascii_case,
};
use crate::topology::text_of;
use crate::uuid_text::{
    is_fresh_uuid_text, is_hyphen_position, is_nil_uuid, is_usable_identifier,
    lemma_fresh_is_usable, lemma_uuid_text_is_ascii, nil_uuid,
};

verus! {

/// One volume whose identifier is to be decided.
#[derive(Clone, Debug, PartialEq, Eq)]
pub struct IdentityRequest {
    /// What the bus reports as the volume's UUID, if anything.
    pub reported_uuid: Option<String>,
    /// The mount root under which the volume's marker file is kept; `None`
    /// where there is no place for one.
    pub marker_root: Option<String>,
}

/// What an [`IdentityRequest`] says, as plain values.
pub struct RequestView {
    pub reported_uuid: Option<Seq<char>>,
    pub marker_root: Option<Seq<char>>,
}

impl View for IdentityRequest {
    type V = RequestView;

    open spec fn view(&self) -> RequestView {
        RequestView {
            reported_uuid: text_of(self.reported_uuid),
            marker_root: text_of(self.marker_root),
        }
    }
}

/// The bus-reported UUID where it is genuine: present and not the nil sentinel.
pub open spec fn genuine_uuid(reported: Option<Seq<char>>) -> Option<Seq<char>> {
    if reported is Some && reported->0 != nil_uuid() {
        reported
    } else {
        None
    }
}

/// The form in which an identifier is shown: upper case, and never the nil
/// sentinel.
pub open spec fn shown_identifier(id: Option<Seq<char>>) -> Option<Seq<char>> {
    match id {
        Some(text) => presentable(Some(display_text(text))),
        None => None,
    }
}

/// Puts an identifier, if there is one, into the form in which it is shown.
pub fn show_identifier(id: &Option<String>) -> (shown: Option<String>)
    ensures
        text_of(shown) == shown_identifier(text_of(*id)),
{
    match id {
        Some(text) => {
            let upper = display_form(text.as_str());
            if is_nil_uuid(upper.as_str()) {
                None
            } else {
                Some(upper)
            }
        },
        None => None,
    }
}

impl RequestView {
    /// Whether the store has to be consulted: there is no genuine reported
    /// UUID, and there is a place for a marker.
    pub open spec fn needs_store(self) -> bool {
        genuine_uuid(self.reported_uuid) is None && self.marker_root is Some
    }

    /// What is shown for a volume for which the store is not consulted: its
    /// genuine reported UUID in upper case, or nothing.
    pub open spec fn shown_without_store(self) -> Option<Seq<char>> {
        shown_identifier(genuine_uuid(self.reported_uuid))
    }
}

impl IdentityRequest {
    /// Whether the store has to be consulted for this volume.
    pub fn needs_store(&self) -> (r: bool)
        ensures
            r == self@.needs_store(),
    {
        let genuine = match &self.reported_uuid {
            Some(uuid) => !is_nil_uuid(uuid.as_str()),
            None => false,
        };
        !genuine && self.marker_root.is_some()
    }

    /// What is shown for this volume if the store is not consulted.
    pub fn shown_without_store(&self) -> (shown: Option<String>)
        ensures
            text_of(shown) == self@.shown_without_store(),
    {
        match &self.reported_uuid {
            Some(uuid) => {
                if is_nil_uuid(uuid.as_str()) {
                    None
                } else {
                    show_identifier(&self.reported_uuid)
                }
            },
            None => None,
        }
    }
}

/// Where the reconciler stands with the volume it is working on.
#[derive(Clone, Debug, PartialEq, Eq)]
pub enum Phase {
    /// The volume's marker is to be read.
    Reading,
    /// This identifier is to be written to the volume's marker.
    Writing(String),
    /// Every volume has been decided.
    Finished,
}

/// What a [`Phase`] says, as plain values.
pub enum PhaseView {
    Reading,
    Writing(Seq<char>),
    Finished,
}

impl View for Phase {
    type V = PhaseView;

    open spec fn view(&self) -> PhaseView {
        match self {
            Phase::Reading => PhaseView::Reading,
            Phase::Writing(text) => PhaseView::Writing(text@),
            Phase::Finished => PhaseView::Finished,
        }
    }
}

/// What the caller reports back after doing what it was asked to.
#[derive(Clone, Debug, PartialEq, Eq)]
pub enum Event {
    /// The marker was looked for: its contents, or `None` where it is missing
    /// or cannot be read.
    MarkerRead(Option<String>),
    /// The write was tried: whether it succeeded.
    MarkerWritten(bool),
}

/// What an [`Event`] says, as plain values.
pub enum EventView {
    MarkerRead(Option<Seq<char>>),
    MarkerWritten(bool),
}

impl View for Event {
    type V = EventView;

    open spec fn view(&self) -> EventView {
        match self {
            Event::MarkerRead(marker) => EventView::MarkerRead(text_of(*marker)),
            Event::MarkerWritten(written) => EventView::MarkerWritten(*written),
        }
    }
}

/// What the caller is asked to do next.
#[derive(Clone, Debug, PartialEq, Eq)]
pub enum Action {
    /// Read the marker file under this mount root.
    ReadMarker { mount_root: String },
    /// Write this text to the marker file under this mount root, in place of
    /// whatever it holds.
    WriteMarker { mount_root: String, text: String },
    /// Nothing: every volume has been decided.
    Finished,
}

/// What an [`Action`] says, as plain values.
pub enum ActionView {
    ReadMarker { mount_root: Seq<char> },
    WriteMarker { mount_root: Seq<char>, text: Seq<char> },
    Finished,
}

impl View for Action {
    type V = ActionView;

    open spec fn view(&self) -> ActionView {
        match self {
            Action::ReadMarker { mount_root } => ActionView::ReadMarker { mount_root: mount_root@ },
            Action::WriteMarker { mount_root, text } => ActionView::WriteMarker {
                mount_root: mount_root@,
                text: text@,
            },
            Action::Finished => ActionView::Finished,
        }
    }
}

/// The state of a reconciliation: the volumes to decide, what is shown for
/// those decided so far, and where the work on the next one stands.
pub struct ResolverView {
    pub requests: Seq<RequestView>,
    pub shown: Seq<Option<Seq<char>>>,
    pub phase: PhaseView,
}

impl ResolverView {
    /// The volume that is being worked on.
    pub open spec fn current(self) -> RequestView {
        self.requests[self.shown.len() as int]
    }

    /// The state's invariant: the volume being worked on is one that needs
    /// the store, and the work is finished exactly when none is left.
    pub open spec fn wf(self) -> bool {
        match self.phase {
            PhaseView::Finished => self.shown.len() == self.requests.len(),
            _ => self.shown.len() < self.requests.len() && self.current().needs_store(),
        }
    }

    /// What the caller has to do in this state.
    pub open spec fn pending(self) -> ActionView {
        match self.phase {
            PhaseView::Reading => ActionView::ReadMarker {
                mount_root: self.current().marker_root->0,
            },
            PhaseView::Writing(text) => ActionView::WriteMarker {
                mount_root: self.current().marker_root->0,
                text,
            },
            PhaseView::Finished => ActionView::Finished,
        }
    }
}

/// Decides every volume that can be decided without the store, from the
/// first undecided one on, and stops at the first that needs the store or at
/// the end.
pub open spec fn advance(requests: Seq<RequestView>, shown: Seq<Option<Seq<char>>>) -> ResolverView
    decreases requests.len() - shown.len(),
{
    if shown.len() >= requests.len() {
        ResolverView { requests, shown, phase: PhaseView::Finished }
    } else if requests[shown.len() as int].needs_store() {
        ResolverView { requests, shown, phase: PhaseView::Reading }
    } else {
        advance(requests, shown.push(requests[shown.len() as int].shown_without_store()))
    }
}

/// The state after the store has answered for the current volume with `id`.
pub open spec fn settle(state: ResolverView, id: Option<Seq<char>>) -> ResolverView {
    advance(state.requests, state.shown.push(shown_identifier(id)))
}

/// The state after a decision on the current volume's marker.
pub open spec fn after_decision(state: ResolverView, decision: MarkerDecisionView) -> ResolverView {
    match decision {
        MarkerDecisionView::Keep(id) => settle(state, Some(id)),
        MarkerDecisionView::Replace(minted) => ResolverView {
            phase: PhaseView::Writing(minted),
            ..state
        },
    }
}

/// The state that follows `state` on `event`, `fresh` being the identifier to
/// write if one is needed. An event that does not answer what was asked
/// changes nothing.
pub open spec fn next_state(state: ResolverView, event: EventView, fresh: Seq<char>) -> ResolverView {
    match (state.phase, event) {
        (PhaseView::Reading, EventView::MarkerRead(marker)) => after_decision(
            state,
            marker_decision(marker, fresh),
        ),
        (PhaseView::Writing(minted), EventView::MarkerWritten(written)) => settle(
            state,
            written_identifier(minted, written),
        ),
        _ => state,
    }
}

/// What a list of requests says, as plain values.
pub open spec fn requests_view(requests: Seq<IdentityRequest>) -> Seq<RequestView> {
    Seq::new(requests.len(), |i: int| requests[i]@)
}

/// What a list of optional texts says, as plain values.
pub open spec fn texts_view(texts: Seq<Option<String>>) -> Seq<Option<Seq<char>>> {
    Seq::new(texts.len(), |i: int| text_of(texts[i]))
}

/// A reconciliation in progress.
pub struct Resolver {
    requests: Vec<IdentityRequest>,
    shown: Vec<Option<String>>,
    phase: Phase,
}

impl View for Resolver {
    type V = ResolverView;

    closed spec fn view(&self) -> ResolverView {
        ResolverView {
            requests: requests_view(self.requests@),
            shown: texts_view(self.shown@),
            phase: self.phase@,
        }
    }
}

impl Resolver {
    /// Holds of every reconciliation, wherever it stands.
    #[verifier::type_invariant]
    spec fn well_formed(self) -> bool {
        self@.wf()
    }

    /// Decides what can be decided without the store, from the first
    /// undecided volume on.
    fn advance_from(requests: Vec<IdentityRequest>, shown: Vec<Option<String>>) -> (r: Resolver)
        requires
            shown.len() <= requests.len(),
        ensures
            r@ == advance(requests_view(requests@), texts_view(shown@)),
    {
        let ghost target = advance(requests_view(requests@), texts_view(shown@));
        let mut shown = shown;
        let mut waiting = false;
        while !waiting && shown.len() < requests.len()
            invariant
                shown.len() <= requests.len(),
                advance(requests_view(requests@), texts_view(shown@)) == target,
                waiting ==> shown.len() < requests.len() && requests_view(
                    requests@,
                )[shown.len() as int].needs_store(),
            decreases requests.len() - shown.len() + (if waiting { 0int } else { 1int }),
        {
            let request = &requests[shown.len()];
            assert(requests_view(requests@)[shown.len() as int] == request@);
            if request.needs_store() {
                waiting = true;
            } else {
                let decided = request.shown_without_store();
                proof {
                    assert(texts_view(shown@.push(decided)) =~= texts_view(shown@).push(
                        text_of(decided),
                    ));
                }
                shown.push(decided);
            }
        }
        if waiting {
            Resolver { requests, shown, phase: Phase::Reading }
        } else {
            Resolver { requests, shown, phase: Phase::Finished }
        }
    }

    /// Enters the store's answer for the current volume and goes on.
    fn settle(self, id: Option<String>) -> (r: Resolver)
        requires
            !(self@.phase is Finished),
        ensures
            r@ == settle(self@, text_of(id)),
    {
        proof {
            use_type_invariant(&self);
        }
        let Resolver { requests, shown, phase } = self;
        let mut shown = shown;
        let decided = show_identifier(&id);
        proof {
            assert(texts_view(shown@.push(decided)) =~= texts_view(shown@).push(text_of(decided)));
        }
        shown.push(decided);
        Resolver::advance_from(requests, shown)
    }

    /// Acts on a decision about the current volume's marker.
    fn decided(self, decision: MarkerDecision) -> (r: Resolver)
        requires
            self@.phase is Reading,
        ensures
            r@ == after_decision(self@, decision@),
    {
        match decision {
            MarkerDecision::Keep(id) => self.settle(Some(id)),
            MarkerDecision::Replace(minted) => {
                proof {
                    use_type_invariant(&self);
                }
                let Resolver { requests, shown, phase } = self;
                Resolver { requests, shown, phase: Phase::Writing(minted) }
            },
        }
    }

    /// What the caller has to do now.
    pub fn pending(&self) -> (action: Action)
        ensures
            action@ == self@.pending(),
            self@.wf(),
    {
        proof {
            use_type_invariant(self);
        }
        match &self.phase {
            Phase::Finished => Action::Finished,
            Phase::Reading => {
                let request = &self.requests[self.shown.len()];
                match &request.marker_root {
                    Some(root) => Action::ReadMarker { mount_root: root.clone() },
                    None => Action::Finished,
                }
            },
            Phase::Writing(text) => {
                let request = &self.requests[self.shown.len()];
                match &request.marker_root {
                    Some(root) => Action::WriteMarker {
                        mount_root: root.clone(),
                        text: text.clone(),
                    },
                    None => Action::Finished,
                }
            },
        }
    }

    /// Begins a reconciliation of `requests`: decides every volume up to the
    /// first that needs the store, and says what to do for that one.
    pub fn start(requests: Vec<IdentityRequest>) -> (r: (Resolver, Action))
        ensures
            r.0@ == advance(requests_view(requests@), Seq::empty()),
            r.1@ == r.0@.pending(),
            r.0@.wf(),
    {
        let shown: Vec<Option<String>> = Vec::new();
        assert(texts_view(shown@) =~= Seq::empty());
        let resolver = Resolver::advance_from(requests, shown);
        let action = resolver.pending();
        (resolver, action)
    }

    /// Takes in what the caller reports, with `fresh` as the identifier to
    /// write if one is needed, and says what to do next.
    pub fn step_with(self, event: Event, fresh: String) -> (r: (Resolver, Action))
        ensures
            r.0@ == next_state(self@, event@, fresh@),
            r.1@ == r.0@.pending(),
            r.0@.wf(),
    {
        let resolver = match event {
            Event::MarkerRead(marker) => {
                if self.is_reading() {
                    let decision = decide_marker_with(&marker, fresh);
                    self.decided(decision)
                } else {
                    self
                }
            },
            Event::MarkerWritten(written) => {
                match self.minted() {
                    Some(minted) => {
                        let id = after_write(minted, written);
                        self.settle(id)
                    },
                    None => self,
                }
            },
        };
        let action = resolver.pending();
        (resolver, action)
    }

    /// Takes in what the caller reports and says what to do next. Where an
    /// identifier has to be written, a random one is generated: which one
    /// cannot be said, so the state that follows is the one that follows for
    /// some freshly generated identifier.
    pub fn step(self, event: Event) -> (r: (Resolver, Action))
        ensures
            exists|fresh: Seq<char>|
                is_fresh_uuid_text(fresh) && r.0@ == #[trigger] next_state(self@, event@, fresh),
            r.1@ == r.0@.pending(),
            r.0@.wf(),
    {
        let ghost before = self@;
        let resolver = match event {
            Event::MarkerRead(marker) => {
                if self.is_reading() {
                    let decision = decide_marker(&marker);
                    proof {
                        let fresh = match decision@ {
                            MarkerDecisionView::Keep(_) => a_fresh_uuid_text(),
                            MarkerDecisionView::Replace(minted) => minted,
                        };
                        assert(decision@ == marker_decision(text_of(marker), fresh));
                        assert(after_decision(before, decision@) == next_state(
                            before,
                            event@,
                            fresh,
                        ));
                    }
                    self.decided(decision)
                } else {
                    proof {
                        assert(before == next_state(before, event@, a_fresh_uuid_text()));
                    }
                    self
                }
            },
            Event::MarkerWritten(written) => {
                match self.minted() {
                    Some(minted) => {
                        let id = after_write(minted, written);
                        proof {
                            assert(settle(before, text_of(id)) == next_state(
                                before,
                                event@,
                                a_fresh_uuid_text(),
                            ));
                        }
                        self.settle(id)
                    },
                    None => {
                        proof {
                            assert(before == next_state(before, event@, a_fresh_uuid_text()));
                        }
                        self
                    },
                }
            },
        };
        let action = resolver.pending();
        (resolver, action)
    }

    /// Whether a marker's contents are awaited.
    pub fn is_reading(&self) -> (r: bool)
        ensures
            r == (self@.phase is Reading),
    {
        match &self.phase {
            Phase::Reading => true,
            _ => false,
        }
    }

    /// The identifier whose write is awaited, if one is.
    pub fn minted(&self) -> (r: Option<String>)
        ensures
            match self@.phase {
                PhaseView::Writing(text) => text_of(r) == Some(text),
                _ => r is None,
            },
    {
        match &self.phase {
            Phase::Writing(text) => Some(text.clone()),
            _ => None,
        }
    }

    /// Whether every volume has been decided.
    pub fn is_finished(&self) -> (r: bool)
        ensures
            r == (self@.phase is Finished),
            r ==> self@.shown.len() == self@.requests.len(),
    {
        proof {
            use_type_invariant(self);
        }
        match &self.phase {
            Phase::Finished => true,
            _ => false,
        }
    }

    /// What is shown for the volumes decided so far, in the order of the
    /// requests.
    pub fn shown(&self) -> (shown: &Vec<Option<String>>)
        ensures
            texts_view(shown@) == self@.shown,
            self@.wf(),
    {
        proof {
            use_type_invariant(self);
        }
        &self.shown
    }
}

/// Some text of the form that freshly generated identifiers have.
pub open spec fn a_fresh_uuid_text() -> Seq<char> {
    Seq::new(
        36,
        |i: int|
            if is_hyphen_position(i) {
                '-'
            } else if i == 14 {
                '4'
            } else if i == 19 {
                '8'
            } else {
                '0'
            },
    )
}

/// An identifier that the store can return is always shown, in ASCII upper
/// case: the only volumes without an identifier are those for which the
/// store had none.
pub proof fn lemma_usable_identifier_is_shown(id: Seq<char>)
    requires
        is_usable_identifier(id),
    ensures
        shown_identifier(Some(id)) == Some(ascii_uppercase_of(id)),
{
    reveal_strlit("00000000-0000-0000-0000-000000000000");
    lemma_uuid_text_is_ascii(id);
    lemma_caseless_text(nil_uuid(), id);
}

/// A genuine bus-reported UUID is shown in upper case and the store is not
/// consulted for its volume; for ASCII text that is the ASCII upper case.
pub proof fn lemma_genuine_report_is_authoritative(request: RequestView)
    requires
        genuine_uuid(request.reported_uuid) is Some,
    ensures
        !request.needs_store(),
        request.shown_without_store() == presentable(
            Some(display_text(request.reported_uuid->0)),
        ),
        is_ascii_chars(request.reported_uuid->0) ==> request.shown_without_store() == Some(
            ascii_uppercase_of(request.reported_uuid->0),
        ),
{
    reveal_strlit("00000000-0000-0000-0000-000000000000");
    lemma_caseless_text(nil_uuid(), request.reported_uuid->0);
}

/// What [`advance`] does: it keeps the requests and what was shown before,
/// adds what is shown without the store for each volume that it passes, and
/// stops in a well-formed state.
pub proof fn lemma_advance(requests: Seq<RequestView>, shown: Seq<Option<Seq<char>>>)
    requires
        shown.len() <= requests.len(),
    ensures
        ({
            let after = advance(requests, shown);
            &&& after.requests == requests
            &&& after.wf()
            &&& !(after.phase is Writing)
            &&& shown.len() <= after.shown.len() <= requests.len()
            &&& forall|i: int| 0 <= i < shown.len() ==> after.shown[i] == shown[i]
            &&& forall|i: int|
                shown.len() <= i < after.shown.len() ==> !(#[trigger] requests[i]).needs_store()
                    && after.shown[i] == requests[i].shown_without_store()
        }),
    decreases requests.len() - shown.len(),
{
    if shown.len() < requests.len() && !requests[shown.len() as int].needs_store() {
        let next = shown.push(requests[shown.len() as int].shown_without_store());
        lemma_advance(requests, next);
        let after = advance(requests, shown);
        assert forall|i: int| 0 <= i < shown.len() implies after.shown[i] == shown[i] by {
            assert(next[i] == shown[i]);
        }
        assert forall|i: int| shown.len() <= i < after.shown.len() implies !(
        #[trigger] requests[i]).needs_store() && after.shown[i]
            == requests[i].shown_without_store() by {
            if i == shown.len() {
                assert(after.shown[i] == next[i]);
            }
        }
    }
}

impl RequestView {
    /// Whether `shown` is what the rules allow to be shown for this volume:
    /// without the store, its genuine reported UUID in upper case or nothing;
    /// with the store, a usable identifier in upper case, or nothing where
    /// the store had none.
    pub open spec fn explains(self, shown: Option<Seq<char>>) -> bool {
        if self.needs_store() {
            shown is None || exists|id: Seq<char>|
                #[trigger] is_usable_identifier(id) && shown == Some(ascii_uppercase_of(id))
        } else {
            shown == self.shown_without_store()
        }
    }
}

impl ResolverView {
    /// Whether the state can be reached with freshly generated identifiers:
    /// it is well formed, what is shown so far is what the rules allow, and
    /// an identifier that waits to be written is a usable one.
    pub open spec fn sound(self) -> bool {
        &&& self.wf()
        &&& self.shown.len() <= self.requests.len()
        &&& forall|i: int|
            0 <= i < self.shown.len() ==> (#[trigger] self.requests[i]).explains(self.shown[i])
        &&& self.phase matches PhaseView::Writing(minted) ==> is_usable_identifier(minted)
    }
}

/// A reconciliation begins in a sound state.
pub proof fn lemma_start_is_sound(requests: Seq<RequestView>)
    ensures
        advance(requests, Seq::empty()).sound(),
        advance(requests, Seq::empty()).requests == requests,
{
    lemma_advance(requests, Seq::empty());
}

/// The state after the store has answered keeps the requests and what was
/// shown before, and shows the answer for the current volume.
pub proof fn lemma_settle(state: ResolverView, id: Option<Seq<char>>)
    requires
        state.wf(),
        !(state.phase is Finished),
    ensures
        ({
            let after = settle(state, id);
            &&& after.requests == state.requests
            &&& after.wf()
            &&& !(after.phase is Writing)
            &&& state.shown.len() < after.shown.len() <= state.requests.len()
            &&& forall|i: int| 0 <= i < state.shown.len() ==> after.shown[i] == state.shown[i]
            &&& after.shown[state.shown.len() as int] == shown_identifier(id)
            &&& forall|i: int|
                state.shown.len() < i < after.shown.len() ==> !(
                #[trigger] state.requests[i]).needs_store() && after.shown[i]
                    == state.requests[i].shown_without_store()
        }),
{
    let next = state.shown.push(shown_identifier(id));
    lemma_advance(state.requests, next);
    let after = settle(state, id);
    assert forall|i: int| 0 <= i < state.shown.len() implies after.shown[i] == state.shown[i] by {
        assert(next[i] == state.shown[i]);
    }
    assert(after.shown[state.shown.len() as int] == next[state.shown.len() as int]);
}

/// Every step keeps the state sound, whatever the caller reports, as long as
/// the identifiers that are written are freshly generated ones.
pub proof fn lemma_step_keeps_sound(state: ResolverView, event: EventView, fresh: Seq<char>)
    requires
        state.sound(),
        is_fresh_uuid_text(fresh),
    ensures
        next_state(state, event, fresh).sound(),
        next_state(state, event, fresh).requests == state.requests,
        state.shown.len() <= next_state(state, event, fresh).shown.len(),
        forall|i: int|
            0 <= i < state.shown.len() ==> next_state(state, event, fresh).shown[i]
                == state.shown[i],
{
    lemma_fresh_is_usable(fresh);
    let after = next_state(state, event, fresh);
    let answered: Option<Option<Seq<char>>> = match (state.phase, event) {
        (PhaseView::Reading, EventView::MarkerRead(marker)) => match marker_decision(
            marker,
            fresh,
        ) {
            MarkerDecisionView::Keep(id) => Some(Some(id)),
            MarkerDecisionView::Replace(_) => None,
        },
        (PhaseView::Writing(minted), EventView::MarkerWritten(written)) => Some(
            written_identifier(minted, written),
        ),
        _ => None,
    };
    if answered is Some {
        let id = answered->0;
        assert(after == settle(state, id));
        lemma_settle(state, id);
        if id is Some {
            lemma_usable_identifier_is_shown(id->0);
        }
        let current = state.shown.len() as int;
        assert forall|i: int| 0 <= i < after.shown.len() implies (
        #[trigger] after.requests[i]).explains(after.shown[i]) by {
            if i < current {
                assert(state.requests[i].explains(state.shown[i]));
            } else if i == current {
                assert(state.requests[i].needs_store());
            } else {
                assert(!state.requests[i].needs_store());
            }
        }
    }
}

/// In a sound state no volume is shown with the nil sentinel, in whatever
/// case its letters are written.
pub proof fn lemma_sound_state_shows_no_nil(state: ResolverView, i: int)
    requires
        state.sound(),
        0 <= i < state.shown.len(),
        state.shown[i] is Some,
    ensures
        !same_ignoring_ascii_case(state.shown[i]->0, nil_uuid()),
{
    reveal_strlit("00000000-0000-0000-0000-000000000000");
    lemma_caseless_text(nil_uuid(), state.shown[i]->0);
    assert(state.requests[i].explains(state.shown[i]));
    if state.requests[i].needs_store() {
        let id = choose|id: Seq<char>|
            #[trigger] is_usable_identifier(id) && state.shown[i] == Some(ascii_uppercase_of(id));
        lemma_caseless_text(nil_uuid(), id);
    }
}

/// The fallback to the store: where the marker of the current volume is
/// missing or unusable, a fresh identifier is to be written under the
/// volume's mount root, and once that has succeeded the volume is shown with
/// that identifier in upper case. Where the write fails, the volume is shown
/// without an identifier, and is not dropped.
pub proof fn lemma_store_fallback(
    state: ResolverView,
    marker: Option<Seq<char>>,
    fresh: Seq<char>,
    later_fresh: Seq<char>,
    written: bool,
)
    requires
        state.wf(),
        state.phase is Reading,
        marked_identifier(marker) is None,
        is_fresh_uuid_text(fresh),
    ensures
        ({
            let writing = next_state(state, EventView::MarkerRead(marker), fresh);
            let after = next_state(writing, EventView::MarkerWritten(written), later_fresh);
            &&& writing.pending() == ActionView::WriteMarker {
                mount_root: state.current().marker_root->0,
                text: fresh,
            }
            &&& after.shown.len() > state.shown.len()
            &&& after.shown[state.shown.len() as int] == if written {
                Some(ascii_uppercase_of(fresh))
            } else {
                None
            }
        }),
{
    lemma_fresh_is_usable(fresh);
    lemma_usable_identifier_is_shown(fresh);
    let writing = next_state(state, EventView::MarkerRead(marker), fresh);
    assert(writing.shown == state.shown);
    lemma_settle(writing, written_identifier(fresh, written));
}

/// A usable marker is used as it is: the volume is shown with the marker's
/// identifier in upper case, and nothing is to be written.
pub proof fn lemma_marker_is_used(state: ResolverView, marker: Option<Seq<char>>, fresh: Seq<char>)
    requires
        state.wf(),
        state.phase is Reading,
        marked_identifier(marker) is Some,
    ensures
        ({
            let after = next_state(state, EventView::MarkerRead(marker), fresh);
            &&& !(after.phase is Writing)
            &&& after.shown.len() > state.shown.len()
            &&& after.shown[state.shown.len() as int] == Some(
                ascii_uppercase_of(marked_identifier(marker)->0),
            )
        }),
{
    let id = marked_identifier(marker)->0;
    lemma_usable_identifier_is_shown(id);
    lemma_settle(state, Some(id));
}

impl ResolverView {
    /// An upper bound on the answers that are still needed: two for each
    /// undecided volume, one less where a write is already awaited.
    pub open spec fn answers_left(self) -> int {
        2 * (self.requests.len() - self.shown.len()) - if self.phase is Writing {
            1int
        } else {
            0int
        }
    }

    /// Whether `event` answers what this state asks for.
    pub open spec fn is_answered_by(self, event: EventView) -> bool {
        match (self.phase, event) {
            (PhaseView::Reading, EventView::MarkerRead(_)) => true,
            (PhaseView::Writing(_), EventView::MarkerWritten(_)) => true,
            _ => false,
        }
    }
}

/// Every answer brings the end nearer, so a caller that does what it is asked
/// and reports back comes to the end after at most two answers for each
/// volume.
pub proof fn lemma_answer_makes_progress(state: ResolverView, event: EventView, fresh: Seq<char>)
    requires
        state.wf(),
        state.is_answered_by(event),
    ensures
        0 <= next_state(state, event, fresh).answers_left() < state.answers_left(),
{
    match (state.phase, event) {
        (PhaseView::Reading, EventView::MarkerRead(marker)) => {
            match marker_decision(marker, fresh) {
                MarkerDecisionView::Keep(id) => {
                    lemma_settle(state, Some(id));
                },
                MarkerDecisionView::Replace(_) => {},
            }
        },
        (PhaseView::Writing(minted), EventView::MarkerWritten(written)) => {
            lemma_settle(state, written_identifier(minted, written));
        },
        _ => {},
    }
}

} // verus!
