//! The persistent UUID store: the rules by which a hidden marker file at a
//! volume's mount root yields the volume's identifier. Reading and writing
//! the file is the caller's part; what to make of its contents, and what to
//! write, is decided here.

use vstd::prelude::*;
use crate::text::{trim_text, trimmed_of};
use crate::topology::text_of;
use crate::uuid_text::{
    fresh_uuid_text, is_fresh_uuid_text, is_usable_identifier, is_uuid_text,
    lemma_fresh_is_usable, usable_identifier,
};

verus! {

/// The name of the marker file at a volume's mount root.
pub const MARKER_FILE_NAME: &'static str = ".crystory_uuid";

/// The identifier that marker contents stand for: the contents as they are
/// where they are a usable identifier, else the contents without surrounding
/// whitespace where that is one, else none.
pub open spec fn accepted_identifier(contents: Seq<char>) -> Option<Seq<char>> {
    if is_usable_identifier(contents) {
        Some(contents)
    } else if is_usable_identifier(trimmed_of(contents)) {
        Some(trimmed_of(contents))
    } else {
        None
    }
}

/// Reads an identifier out of marker contents.
pub fn accept_marker(contents: &str) -> (id: Option<String>)
    ensures
        text_of(id) == accepted_identifier(contents@),
{
    if usable_identifier(contents) {
        Some(contents.to_owned())
    } else {
        let trimmed = trim_text(contents);
        if usable_identifier(trimmed) {
            Some(trimmed.to_owned())
        } else {
            None
        }
    }
}

/// What to do once the marker file has been looked for.
#[derive(Clone, Debug, PartialEq, Eq)]
pub enum MarkerDecision {
    /// The marker holds this identifier: use it and leave the file alone.
    Keep(String),
    /// The marker is missing, unreadable or unusable: write this identifier.
    Replace(String),
}

/// What a [`MarkerDecision`] says, as plain values.
pub enum MarkerDecisionView {
    Keep(Seq<char>),
    Replace(Seq<char>),
}

impl View for MarkerDecision {
    type V = MarkerDecisionView;

    open spec fn view(&self) -> MarkerDecisionView {
        match self {
            MarkerDecision::Keep(id) => MarkerDecisionView::Keep(id@),
            MarkerDecision::Replace(id) => MarkerDecisionView::Replace(id@),
        }
    }
}

/// The identifier that a marker stands for; none where the marker is missing
/// or unreadable (`None`), or where its contents are not accepted.
pub open spec fn marked_identifier(marker: Option<Seq<char>>) -> Option<Seq<char>> {
    match marker {
        Some(contents) => accepted_identifier(contents),
        None => None,
    }
}

/// The decision for a marker with the given contents (`None` where it is
/// missing or unreadable), `fresh` being the identifier to write if one is
/// needed.
pub open spec fn marker_decision(
    marker: Option<Seq<char>>,
    fresh: Seq<char>,
) -> MarkerDecisionView {
    match marked_identifier(marker) {
        Some(id) => MarkerDecisionView::Keep(id),
        None => MarkerDecisionView::Replace(fresh),
    }
}

/// Reads an identifier out of a marker that may be missing.
pub fn read_marker(marker: &Option<String>) -> (id: Option<String>)
    ensures
        text_of(id) == marked_identifier(text_of(*marker)),
{
    match marker {
        Some(contents) => accept_marker(contents.as_str()),
        None => None,
    }
}

/// Decides on a marker, with `fresh` as the identifier to write if one is needed.
pub fn decide_marker_with(marker: &Option<String>, fresh: String) -> (decision: MarkerDecision)
    ensures
        decision@ == marker_decision(text_of(*marker), fresh@),
{
    match read_marker(marker) {
        Some(id) => MarkerDecision::Keep(id),
        None => MarkerDecision::Replace(fresh),
    }
}

/// Decides on a marker, generating a random identifier where one has to be
/// written. Which identifier that is cannot be said; it has the form of
/// every freshly generated one.
pub fn decide_marker(marker: &Option<String>) -> (decision: MarkerDecision)
    ensures
        match marked_identifier(text_of(*marker)) {
            Some(id) => decision@ == MarkerDecisionView::Keep(id),
            None => decision is Replace && is_fresh_uuid_text(decision->Replace_0@),
        },
{
    match read_marker(marker) {
        Some(id) => MarkerDecision::Keep(id),
        None => MarkerDecision::Replace(fresh_uuid_text()),
    }
}

/// The identifier that a volume has once the write of `minted` was tried:
/// `minted` where the write succeeded, none where it failed.
pub open spec fn written_identifier(minted: Seq<char>, written: bool) -> Option<Seq<char>> {
    if written {
        Some(minted)
    } else {
        None
    }
}

/// Settles on the identifier after the write of `minted` was tried.
pub fn after_write(minted: String, written: bool) -> (id: Option<String>)
    ensures
        text_of(id) == written_identifier(minted@, written),
{
    if written {
        Some(minted)
    } else {
        None
    }
}

/// What one resolution comes to: the identifier it returns, and the marker's
/// contents after it.
pub struct Resolution {
    pub identifier: Option<Seq<char>>,
    pub marker: Option<Seq<char>>,
}

/// One resolution, from the marker's contents before it, the identifier that
/// would be written, and whether the volume can be written to. A write that
/// fails is taken to leave the marker as it was.
pub open spec fn resolution(
    marker: Option<Seq<char>>,
    fresh: Seq<char>,
    writable: bool,
) -> Resolution {
    match marker_decision(marker, fresh) {
        MarkerDecisionView::Keep(id) => Resolution { identifier: Some(id), marker },
        MarkerDecisionView::Replace(minted) => if writable {
            Resolution { identifier: Some(minted), marker: Some(minted) }
        } else {
            Resolution { identifier: None, marker }
        },
    }
}

/// A freshly generated identifier is read back as itself.
pub proof fn lemma_fresh_is_accepted(fresh: Seq<char>)
    requires
        is_fresh_uuid_text(fresh),
    ensures
        accepted_identifier(fresh) == Some(fresh),
{
    lemma_fresh_is_usable(fresh);
}

/// Resolving twice in a row, with nothing else touching the volume in
/// between, gives the same identifier both times: the second resolution finds
/// what the first one kept or wrote, and writes nothing.
pub proof fn lemma_resolution_is_idempotent(
    marker: Option<Seq<char>>,
    first_fresh: Seq<char>,
    second_fresh: Seq<char>,
    writable: bool,
)
    requires
        is_fresh_uuid_text(first_fresh),
        is_fresh_uuid_text(second_fresh),
    ensures
        ({
            let first = resolution(marker, first_fresh, writable);
            let second = resolution(first.marker, second_fresh, writable);
            &&& second.identifier == first.identifier
            &&& second.marker == first.marker
        }),
{
    lemma_fresh_is_accepted(first_fresh);
}

/// A marker that holds a usable identifier is returned as it stands, and the
/// file is left alone; one that holds it between whitespace is returned
/// without the whitespace, and the file is left alone too.
pub proof fn lemma_valid_marker_is_kept(contents: Seq<char>, fresh: Seq<char>, writable: bool)
    ensures
        is_usable_identifier(contents) ==> resolution(Some(contents), fresh, writable)
            == (Resolution { identifier: Some(contents), marker: Some(contents) }),
        !is_usable_identifier(contents) && is_usable_identifier(trimmed_of(contents))
            ==> resolution(Some(contents), fresh, writable) == (Resolution {
            identifier: Some(trimmed_of(contents)),
            marker: Some(contents),
        }),
{
}

/// A marker whose contents are no UUID, with or without the whitespace around
/// them, is replaced: a fresh identifier is written over it and returned, and
/// the next resolution reads that identifier back.
pub proof fn lemma_garbage_is_replaced(
    contents: Seq<char>,
    fresh: Seq<char>,
    next_fresh: Seq<char>,
    writable: bool,
)
    requires
        !is_uuid_text(contents),
        !is_uuid_text(trimmed_of(contents)),
        is_fresh_uuid_text(fresh),
    ensures
        marker_decision(Some(contents), fresh) == MarkerDecisionView::Replace(fresh),
        resolution(Some(contents), fresh, true) == (Resolution {
            identifier: Some(fresh),
            marker: Some(fresh),
        }),
        is_usable_identifier(fresh),
        resolution(Some(fresh), next_fresh, writable).identifier == Some(fresh),
{
    lemma_fresh_is_accepted(fresh);
}

/// Whatever identifier a resolution returns parses as a UUID and is not the
/// nil sentinel.
pub proof fn lemma_resolved_identifier_is_usable(
    marker: Option<Seq<char>>,
    fresh: Seq<char>,
    writable: bool,
)
    requires
        is_fresh_uuid_text(fresh),
    ensures
        resolution(marker, fresh, writable).identifier is Some ==> is_usable_identifier(
            resolution(marker, fresh, writable).identifier->0,
        ),
{
    lemma_fresh_is_usable(fresh);
}

} // verus!
