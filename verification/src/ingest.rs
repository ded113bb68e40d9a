//! The coordinator of link ingestion: a state machine that takes a submitted
//! link through canonicalisation, verification and the insert, one event at
//! a time, and says after each event what is to be done next.

use crate::canonical::{
    canonical_of, canonical_url_of, canonicalize_parsed, has_allowed_host, is_web_scheme,
    parse_url, parsed_view, url_parse, CanonicalLink, LinkView, RejectionReason, UrlParts,
    UrlPartsView,
};
use crate::probe::{classify_probe, probe_url, probe_url_of, verification_of, ProbeResult, Verification};
use crate::storage::{insert_into, lemma_insert_keeps_unique, LinkTable, StoreOutcome};
use crate::text::strings_view;
use vstd::prelude::*;

verus! {

/// Where an ingestion stands.
#[derive(Debug, Clone, PartialEq, Eq)]
pub enum IngestState {
    /// Nothing was submitted yet.
    Start,
    /// The link was taken from the arguments and waits to be parsed.
    Canonicalizing { raw: String },
    /// The link is canonical and waits for the metadata lookup.
    Verifying { link: CanonicalLink },
    /// The resource is confirmed and the record waits to be inserted.
    Inserting { link: CanonicalLink },
    /// The record is stored.
    Succeeded,
    /// The ingestion ended without a record, for this reason.
    Rejected { reason: RejectionReason },
}

/// What happened since the last step.
#[derive(Debug, Clone, PartialEq, Eq)]
pub enum IngestEvent {
    /// The command arrived with these arguments, the subcommand first.
    Submitted { args: Vec<String> },
    /// The link was parsed: the parts of the URL, or `None` for no URL.
    Parsed { parsed: Option<UrlParts> },
    /// The metadata lookup ended.
    Probed { result: ProbeResult },
    /// The insert ended.
    Stored { outcome: StoreOutcome },
}

/// What the caller is to do after a step.
#[derive(Debug, Clone, PartialEq, Eq)]
pub enum IngestAction {
    /// Parse `raw` as an absolute URL, as `perform_parse` does, and report
    /// `Parsed`.
    Parse { raw: String },
    /// Request `url` once and report `Probed`.
    Probe { url: String },
    /// Insert a record for `url` and report `Stored`.
    Insert { url: String },
    /// Send `text` to the user; the ingestion is over.
    Reply { text: String },
    /// The event does not belong to the state: do nothing.
    Nothing,
}

/// An `IngestState` with its strings as character sequences.
pub enum StateView {
    Start,
    Canonicalizing { raw: Seq<char> },
    Verifying { link: LinkView },
    Inserting { link: LinkView },
    Succeeded,
    Rejected { reason: RejectionReason },
}

/// An `IngestEvent` with its strings as character sequences.
pub enum EventView {
    Submitted { args: Seq<Seq<char>> },
    Parsed { parsed: Option<UrlPartsView> },
    Probed { result: ProbeResult },
    Stored { outcome: StoreOutcome },
}

/// An `IngestAction` with its strings as character sequences.
pub enum ActionView {
    Parse { raw: Seq<char> },
    Probe { url: Seq<char> },
    Insert { url: Seq<char> },
    Reply { text: Seq<char> },
    Nothing,
}

impl View for IngestState {
    type V = StateView;

    open spec fn view(&self) -> StateView {
        match *self {
            IngestState::Start => StateView::Start,
            IngestState::Canonicalizing { raw } => StateView::Canonicalizing { raw: raw@ },
            IngestState::Verifying { link } => StateView::Verifying { link: link@ },
            IngestState::Inserting { link } => StateView::Inserting { link: link@ },
            IngestState::Succeeded => StateView::Succeeded,
            IngestState::Rejected { reason } => StateView::Rejected { reason },
        }
    }
}

impl View for IngestEvent {
    type V = EventView;

    open spec fn view(&self) -> EventView {
        match *self {
            IngestEvent::Submitted { args } => EventView::Submitted { args: strings_view(args@) },
            IngestEvent::Parsed { parsed } => EventView::Parsed { parsed: parsed_view(parsed) },
            IngestEvent::Probed { result } => EventView::Probed { result },
            IngestEvent::Stored { outcome } => EventView::Stored { outcome },
        }
    }
}

impl View for IngestAction {
    type V = ActionView;

    open spec fn view(&self) -> ActionView {
        match *self {
            IngestAction::Parse { raw } => ActionView::Parse { raw: raw@ },
            IngestAction::Probe { url } => ActionView::Probe { url: url@ },
            IngestAction::Insert { url } => ActionView::Insert { url: url@ },
            IngestAction::Reply { text } => ActionView::Reply { text: text@ },
            IngestAction::Nothing => ActionView::Nothing,
        }
    }
}

/// The reply that tells the user the record is stored.
pub open spec fn success_reply() -> Seq<char> {
    "Success"@
}

/// The reply for each reason. Text that is no usable URL, one that is not
/// from an allowed source, one that the lookup did not confirm, a
/// duplicate and a storage failure each read differently.
pub open spec fn rejection_reply_of(reason: RejectionReason) -> Seq<char> {
    match reason {
        RejectionReason::MissingArgument => "Invalid URL."@,
        RejectionReason::Malformed => "Invalid URL."@,
        RejectionReason::InvalidScheme => "Invalid URL."@,
        RejectionReason::DisallowedHost => "Invalid URL. Must be from an allowed source."@,
        RejectionReason::InvalidPath => "Invalid URL. Must be from an allowed source."@,
        RejectionReason::MissingIdentifier => "Invalid URL. Must be from an allowed source."@,
        RejectionReason::NotFound => "Invalid URL. Must be a supported link."@,
        RejectionReason::Duplicate => "already exists"@,
        RejectionReason::StorageError => "Error when adding song to the database."@,
    }
}

/// The end of an ingestion without a record.
pub open spec fn rejected(reason: RejectionReason) -> (StateView, ActionView) {
    (StateView::Rejected { reason }, ActionView::Reply { text: rejection_reply_of(reason) })
}

/// The transition table. An event that does not belong to the state leaves
/// the state as it is and asks for nothing; so does every event in a final
/// state.
pub open spec fn step_spec(state: StateView, event: EventView) -> (StateView, ActionView) {
    match (state, event) {
        (StateView::Start, EventView::Submitted { args }) => {
            if args.len() < 2 {
                rejected(RejectionReason::MissingArgument)
            } else {
                (StateView::Canonicalizing { raw: args[1] }, ActionView::Parse { raw: args[1] })
            }
        },
        (StateView::Canonicalizing { raw }, EventView::Parsed { parsed }) => {
            match canonical_of(parsed) {
                Ok(link) => (
                    StateView::Verifying { link },
                    ActionView::Probe { url: probe_url_of(link.resource_id) },
                ),
                Err(reason) => rejected(reason),
            }
        },
        (StateView::Verifying { link }, EventView::Probed { result }) => {
            if verification_of(result) == Verification::Verified {
                (
                    StateView::Inserting { link },
                    ActionView::Insert { url: canonical_url_of(link.resource_id) },
                )
            } else {
                rejected(RejectionReason::NotFound)
            }
        },
        (StateView::Inserting { link }, EventView::Stored { outcome }) => {
            match outcome {
                StoreOutcome::Inserted => (
                    StateView::Succeeded,
                    ActionView::Reply { text: success_reply() },
                ),
                StoreOutcome::Conflict => rejected(RejectionReason::Duplicate),
                StoreOutcome::Failed => rejected(RejectionReason::StorageError),
            }
        },
        _ => (state, ActionView::Nothing),
    }
}

/// The text of the reply for a reason.
pub fn rejection_reply(reason: RejectionReason) -> (text: String)
    ensures
        text@ == rejection_reply_of(reason),
{
    match reason {
        RejectionReason::MissingArgument => "Invalid URL.".to_owned(),
        RejectionReason::Malformed => "Invalid URL.".to_owned(),
        RejectionReason::InvalidScheme => "Invalid URL.".to_owned(),
        RejectionReason::DisallowedHost => "Invalid URL. Must be from an allowed source.".to_owned(),
        RejectionReason::InvalidPath => "Invalid URL. Must be from an allowed source.".to_owned(),
        RejectionReason::MissingIdentifier => "Invalid URL. Must be from an allowed source.".to_owned(),
        RejectionReason::NotFound => "Invalid URL. Must be a supported link.".to_owned(),
        RejectionReason::Duplicate => "already exists".to_owned(),
        RejectionReason::StorageError => "Error when adding song to the database.".to_owned(),
    }
}

/// Ends an ingestion without a record.
fn reject(reason: RejectionReason) -> (r: (IngestState, IngestAction))
    ensures
        (r.0@, r.1@) == rejected(reason),
{
    (IngestState::Rejected { reason }, IngestAction::Reply { text: rejection_reply(reason) })
}

/// Takes the ingestion one event further and says what to do next.
pub fn step(state: IngestState, event: IngestEvent) -> (r: (IngestState, IngestAction))
    ensures
        (r.0@, r.1@) == step_spec(state@, event@),
{
    match state {
        IngestState::Start => match event {
            IngestEvent::Submitted { args } => {
                if args.len() < 2 {
                    reject(RejectionReason::MissingArgument)
                } else {
                    assert(strings_view(args@)[1] == args@[1]@);
                    let raw = args[1].clone();
                    let copy = args[1].clone();
                    (IngestState::Canonicalizing { raw }, IngestAction::Parse { raw: copy })
                }
            },
            _ => (IngestState::Start, IngestAction::Nothing),
        },
        IngestState::Canonicalizing { raw } => match event {
            IngestEvent::Parsed { parsed } => {
                match canonicalize_parsed(&parsed) {
                    Ok(link) => {
                        let url = probe_url(&link);
                        (IngestState::Verifying { link }, IngestAction::Probe { url })
                    },
                    Err(reason) => reject(reason),
                }
            },
            _ => (IngestState::Canonicalizing { raw }, IngestAction::Nothing),
        },
        IngestState::Verifying { link } => match event {
            IngestEvent::Probed { result } => {
                match classify_probe(result) {
                    Verification::Verified => {
                        let url = link.canonical_url();
                        (IngestState::Inserting { link }, IngestAction::Insert { url })
                    },
                    Verification::Rejected => reject(RejectionReason::NotFound),
                }
            },
            _ => (IngestState::Verifying { link }, IngestAction::Nothing),
        },
        IngestState::Inserting { link } => match event {
            IngestEvent::Stored { outcome } => {
                match outcome {
                    StoreOutcome::Inserted => (
                        IngestState::Succeeded,
                        IngestAction::Reply { text: "Success".to_owned() },
                    ),
                    StoreOutcome::Conflict => reject(RejectionReason::Duplicate),
                    StoreOutcome::Failed => reject(RejectionReason::StorageError),
                }
            },
            _ => (IngestState::Inserting { link }, IngestAction::Nothing),
        },
        IngestState::Succeeded => (IngestState::Succeeded, IngestAction::Nothing),
        IngestState::Rejected { reason } => (IngestState::Rejected { reason }, IngestAction::Nothing),
    }
}

/// Whether the ingestion is over.
pub open spec fn is_final(state: StateView) -> bool {
    state is Succeeded || state is Rejected
}

/// The first two steps in one: the submission, and the parse where the
/// submission asked for one. `parsed` is what the parser made of the link.
pub open spec fn begin_spec(args: Seq<Seq<char>>, parsed: Option<UrlPartsView>) -> (
    StateView,
    ActionView,
) {
    let first = step_spec(StateView::Start, EventView::Submitted { args });
    if first.1 is Parse {
        step_spec(first.0, EventView::Parsed { parsed })
    } else {
        first
    }
}

/// A whole ingestion against a table with these records: the lookup, where
/// one is asked for, answers `probe`, and the insert, where one is asked
/// for, goes by the table's rule. Gives the records afterwards, the final
/// state and the last action.
pub open spec fn run_spec(
    records: Seq<Seq<char>>,
    args: Seq<Seq<char>>,
    parsed: Option<UrlPartsView>,
    probe: ProbeResult,
) -> (Seq<Seq<char>>, StateView, ActionView) {
    let begun = begin_spec(args, parsed);
    if begun.1 is Probe {
        let probed = step_spec(begun.0, EventView::Probed { result: probe });
        match probed.1 {
            ActionView::Insert { url } => {
                let stored = insert_into(records, url);
                let last = step_spec(probed.0, EventView::Stored { outcome: stored.1 });
                (stored.0, last.0, last.1)
            },
            _ => (records, probed.0, probed.1),
        }
    } else {
        (records, begun.0, begun.1)
    }
}

/// Carries out a `Parse` action: parses `raw` as an absolute URL and gives
/// the event that reports the outcome.
pub fn perform_parse(raw: &str) -> (event: IngestEvent)
    ensures
        event@ == (EventView::Parsed { parsed: url_parse(raw@) }),
{
    IngestEvent::Parsed { parsed: parse_url(raw) }
}

/// Starts an ingestion for a command with these arguments, the subcommand
/// first and the link second, and takes it as far as it goes without
/// leaving the program. Without a link it is rejected as `MissingArgument`.
/// Otherwise the link is parsed and canonicalised: the result is either a
/// rejection with its reply, or the state `Verifying` with the request to
/// probe.
pub fn begin(args: Vec<String>) -> (r: (IngestState, IngestAction))
    ensures
        (r.0@, r.1@) == begin_spec(strings_view(args@), url_parse(strings_view(args@)[1])),
        strings_view(args@).len() < 2 ==> (r.0@, r.1@) == rejected(RejectionReason::MissingArgument),
{
    let (state, action) = step(IngestState::Start, IngestEvent::Submitted { args });
    match action {
        IngestAction::Parse { raw } => {
            let event = perform_parse(raw.as_str());
            step(state, event)
        },
        other => (state, other),
    }
}

/// Runs a whole ingestion against a table in memory. `probe` is what the
/// metadata lookup answers if it is asked; it is not looked at otherwise.
/// The table changes only where the ingestion succeeds, by the one record
/// of the canonical URL.
pub fn ingest_into(table: &mut LinkTable, args: Vec<String>, probe: ProbeResult) -> (r: (
    IngestState,
    IngestAction,
))
    ensures
        (final(table)@, r.0@, r.1@) == run_spec(
            old(table)@,
            strings_view(args@),
            url_parse(strings_view(args@)[1]),
            probe,
        ),
        old(table).wf() ==> final(table).wf(),
{
    let (state, action) = begin(args);
    match action {
        IngestAction::Probe { url } => {
            let (state, action) = step(state, IngestEvent::Probed { result: probe });
            match action {
                IngestAction::Insert { url } => {
                    let outcome = table.insert(url);
                    step(state, IngestEvent::Stored { outcome })
                },
                other => (state, other),
            }
        },
        other => (state, other),
    }
}

/// Every ingestion ends: in `Succeeded` or in `Rejected`, with a reply.
pub proof fn lemma_run_ends_with_reply(
    records: Seq<Seq<char>>,
    args: Seq<Seq<char>>,
    parsed: Option<UrlPartsView>,
    probe: ProbeResult,
)
    ensures
        is_final(run_spec(records, args, parsed, probe).1),
        run_spec(records, args, parsed, probe).2 is Reply,
{
}

/// The lookup is asked for only when a parsed link was canonicalised, and
/// then for that link: no step on a link that canonicalisation refuses
/// reaches the verifier.
pub proof fn lemma_probe_only_for_canonical_link(state: StateView, event: EventView)
    requires
        step_spec(state, event).1 is Probe,
    ensures
        state is Canonicalizing,
        event matches EventView::Parsed { parsed } && canonical_of(parsed) matches Ok(link)
            && step_spec(state, event) == (
            StateView::Verifying { link },
            ActionView::Probe { url: probe_url_of(link.resource_id) },
        ),
{
}

/// An insert is asked for only when the lookup verified the link, and then
/// for the canonical URL of that link.
pub proof fn lemma_insert_only_after_verification(state: StateView, event: EventView)
    requires
        step_spec(state, event).1 is Insert,
    ensures
        state matches StateView::Verifying { link } && event == (EventView::Probed {
            result: ProbeResult::Responded { status: 200 },
        }) && step_spec(state, event) == (
            StateView::Inserting { link },
            ActionView::Insert { url: canonical_url_of(link.resource_id) },
        ),
{
}

/// A link with a web scheme whose host is not on the allow-list is
/// rejected as `DisallowedHost` at the parse: the step asks for a reply,
/// not for the lookup, and a whole run leaves the records alone.
pub proof fn lemma_disallowed_host_never_verified(
    records: Seq<Seq<char>>,
    args: Seq<Seq<char>>,
    parts: UrlPartsView,
    probe: ProbeResult,
)
    requires
        args.len() >= 2,
        is_web_scheme(parts.scheme),
        !has_allowed_host(parts),
    ensures
        step_spec(
            StateView::Canonicalizing { raw: args[1] },
            EventView::Parsed { parsed: Some(parts) },
        ) == rejected(RejectionReason::DisallowedHost),
        run_spec(records, args, Some(parts), probe) == (
            records,
            StateView::Rejected { reason: RejectionReason::DisallowedHost },
            ActionView::Reply { text: rejection_reply_of(RejectionReason::DisallowedHost) },
        ),
{
}

/// A link that canonicalisation refuses ends the run with that reason and
/// its reply, whatever the lookup would have said, and the records stay as
/// they were.
pub proof fn lemma_refused_link_touches_nothing(
    records: Seq<Seq<char>>,
    args: Seq<Seq<char>>,
    parsed: Option<UrlPartsView>,
    probe: ProbeResult,
)
    requires
        args.len() >= 2,
        canonical_of(parsed) is Err,
    ensures
        run_spec(records, args, parsed, probe) == (
            records,
            rejected(canonical_of(parsed)->Err_0).0,
            rejected(canonical_of(parsed)->Err_0).1,
        ),
{
}

/// A run keeps the records free of duplicates.
pub proof fn lemma_run_keeps_unique(
    records: Seq<Seq<char>>,
    args: Seq<Seq<char>>,
    parsed: Option<UrlPartsView>,
    probe: ProbeResult,
)
    requires
        records.no_duplicates(),
    ensures
        run_spec(records, args, parsed, probe).0.no_duplicates(),
{
    let begun = begin_spec(args, parsed);
    if begun.1 is Probe {
        let probed = step_spec(begun.0, EventView::Probed { result: probe });
        if let ActionView::Insert { url } = probed.1 {
            lemma_insert_keeps_unique(records, url);
        }
    }
}

/// Submitting a valid link twice, with a lookup that confirms it: the first
/// run succeeds and appends the canonical URL, unless the records hold it
/// already; the second run, and so every later one, is rejected as
/// `Duplicate` and changes nothing.
pub proof fn lemma_resubmission_is_duplicate(
    records: Seq<Seq<char>>,
    args: Seq<Seq<char>>,
    parsed: Option<UrlPartsView>,
    probe: ProbeResult,
)
    requires
        args.len() >= 2,
        canonical_of(parsed) is Ok,
        verification_of(probe) == Verification::Verified,
    ensures
        ({
            let url = canonical_url_of(canonical_of(parsed)->Ok_0.resource_id);
            let first = run_spec(records, args, parsed, probe);
            let second = run_spec(first.0, args, parsed, probe);
            &&& !records.contains(url) ==> first.1 == StateView::Succeeded && first.0
                == records.push(url)
            &&& records.contains(url) ==> first.1 == (StateView::Rejected {
                reason: RejectionReason::Duplicate,
            }) && first.0 == records
            &&& first.0.contains(url)
            &&& second.1 == StateView::Rejected { reason: RejectionReason::Duplicate }
            &&& second.2 == ActionView::Reply {
                text: rejection_reply_of(RejectionReason::Duplicate),
            }
            &&& second.0 == first.0
        }),
{
    let url = canonical_url_of(canonical_of(parsed)->Ok_0.resource_id);
    if !records.contains(url) {
        assert(records.push(url)[records.len() as int] == url);
    }
}

} // verus!
