//! Release sets and their transitions: finding the ledger facts of a release
//! and reconciling every transition intent with its outcome.

use vstd::prelude::*;
use vstd::string::StringExecFns;

use crate::error::{
    fatal_error, request_error, RuntimeErrorCode, RuntimeHostError, RuntimeHostResult,
};
use crate::text::same_text;

verus! {

#[derive(Debug, Clone, Copy, PartialEq, Eq, Structural)]
pub enum ReleaseTransitionKind {
    Activate,
    Rollback,
}

/// Who an event comes from.
#[derive(Debug, Clone, Copy, PartialEq, Eq, Structural)]
pub enum EventParty {
    Runtime,
    Other(u32),
}

#[derive(Debug, Clone, Copy, PartialEq, Eq, Structural)]
pub struct EventOrigin {
    pub source: EventParty,
    pub module: EventParty,
    pub actor: EventParty,
}

/// A change of the active release.
#[derive(Debug, Clone)]
pub struct ReleaseTransition {
    pub kind: ReleaseTransitionKind,
    pub transition_id: String,
    /// The whole transition, encoded.
    pub encoding: String,
    /// The encoding of the transition in the form that recovery writes.
    pub recovered_encoding: String,
}

#[derive(Debug, Clone)]
pub enum ReleasePayload {
    Staged { release_id: String },
    TransitionIntent { transition: ReleaseTransition },
    Activated { transition: ReleaseTransition },
    RolledBack { transition: ReleaseTransition },
    TransitionFailed {
        transition: ReleaseTransition,
        /// The event says that nothing was changed.
        not_performed: bool,
    },
    /// The state under this key was brought into the ledger.
    StateMigrated { state_key: String },
    Other,
}

#[derive(Debug, Clone, Copy, PartialEq, Eq, Structural)]
pub enum ReleaseEventType {
    Staged,
    Activated,
    RolledBack,
}

#[derive(Debug, Clone)]
pub struct ReleaseEvent {
    pub sequence: u64,
    pub origin: EventOrigin,
    pub correlation_id: Option<u128>,
    pub action_id: Option<u128>,
    pub payload: ReleasePayload,
}

/// An error of release recovery.
pub open spec fn recovery_error(code: &'static str) -> RuntimeHostError {
    fatal_error(code, "reconcile_release_state", RuntimeErrorCode::RuntimeFatal)
}

pub fn release_recovery_error(code: &'static str) -> (error: RuntimeHostError)
    ensures
        error == recovery_error(code),
{
    RuntimeHostError::fatal(code, "reconcile_release_state", RuntimeErrorCode::RuntimeFatal)
}

/// What a fact of the ledger identifies: a release or a transition.
pub open spec fn fact_identity(event: ReleaseEvent) -> Option<Seq<char>> {
    match event.payload {
        ReleasePayload::Staged { release_id } => Some(release_id@),
        ReleasePayload::Activated { transition } => Some(transition.transition_id@),
        ReleasePayload::RolledBack { transition } => Some(transition.transition_id@),
        ReleasePayload::TransitionFailed { transition, .. } => Some(transition.transition_id@),
        _ => None,
    }
}

pub fn release_fact_identity(event: &ReleaseEvent) -> (identity: Option<&str>)
    ensures
        match identity {
            Some(text) => fact_identity(*event) == Some(text@),
            None => fact_identity(*event) is None,
        },
{
    match &event.payload {
        ReleasePayload::Staged { release_id } => Some(release_id.as_str()),
        ReleasePayload::Activated { transition } => Some(transition.transition_id.as_str()),
        ReleasePayload::RolledBack { transition } => Some(transition.transition_id.as_str()),
        ReleasePayload::TransitionFailed { transition, .. } => Some(
            transition.transition_id.as_str(),
        ),
        _ => None,
    }
}

fn same_link(left: Option<u128>, right: Option<u128>) -> (same: bool)
    ensures
        same == (left == right),
{
    match (left, right) {
        (None, None) => true,
        (Some(a), Some(b)) => a == b,
        _ => false,
    }
}

/// Two events of one action.
pub open spec fn same_action(left: ReleaseEvent, right: ReleaseEvent) -> bool {
    left.correlation_id == right.correlation_id && left.action_id == right.action_id
}

fn of_same_action(left: &ReleaseEvent, right: &ReleaseEvent) -> (same: bool)
    ensures
        same == same_action(*left, *right),
{
    same_link(left.correlation_id, right.correlation_id) && same_link(
        left.action_id,
        right.action_id,
    )
}

/// What is looked for among the events of one type.
#[derive(Debug, Clone, Copy)]
pub enum FactQuery<'a> {
    /// The event that brought the state under this key into the ledger.
    Migration(&'a str),
    /// The event that identifies this release or transition.
    Identity(&'a str),
    /// The event that identifies this transition and is of the same action as
    /// another.
    OfAction(&'a str, &'a ReleaseEvent),
}

/// The value of a query.
pub enum FactQueryView {
    Migration(Seq<char>),
    Identity(Seq<char>),
    OfAction(Seq<char>, ReleaseEvent),
}

impl<'a> View for FactQuery<'a> {
    type V = FactQueryView;

    open spec fn view(&self) -> FactQueryView {
        match *self {
            FactQuery::Migration(key) => FactQueryView::Migration(key@),
            FactQuery::Identity(identity) => FactQueryView::Identity(identity@),
            FactQuery::OfAction(identity, other) => FactQueryView::OfAction(identity@, *other),
        }
    }
}

/// The event is one that is looked for.
pub open spec fn is_wanted(event: ReleaseEvent, query: FactQueryView) -> bool {
    match query {
        FactQueryView::Migration(key) => event.payload matches ReleasePayload::StateMigrated {
            state_key,
        } && state_key@ == key,
        FactQueryView::Identity(identity) => fact_identity(event) == Some(identity),
        FactQueryView::OfAction(identity, other) => fact_identity(event) == Some(identity)
            && same_action(event, other),
    }
}

fn identifies(event: &ReleaseEvent, identity: &str) -> (identified: bool)
    ensures
        identified == (fact_identity(*event) == Some(identity@)),
{
    match release_fact_identity(event) {
        Some(text) => same_text(text, identity),
        None => false,
    }
}

fn wanted(event: &ReleaseEvent, query: FactQuery) -> (found: bool)
    ensures
        found == is_wanted(*event, query@),
{
    match query {
        FactQuery::Migration(key) => match &event.payload {
            ReleasePayload::StateMigrated { state_key } => same_text(state_key.as_str(), key),
            _ => false,
        },
        FactQuery::Identity(identity) => identifies(event, identity),
        FactQuery::OfAction(identity, other) => identifies(event, identity) && of_same_action(
            event,
            other,
        ),
    }
}

/// The sequence up to which the ledger was read once a page is behind, given
/// the one before the page.
pub open spec fn read_up_to(page: Seq<ReleaseEvent>, after: u64) -> u64 {
    if page.len() == 0 {
        after
    } else {
        page.last().sequence
    }
}

/// An event of a page comes after what was read before it, and not beyond the
/// cut.
pub open spec fn cursor_valid(
    page: Seq<ReleaseEvent>,
    after: u64,
    through: u64,
    index: int,
) -> bool {
    read_up_to(page.take(index), after) < page[index].sequence <= through
}

/// What is found once a page is behind, given what was found before it: the
/// only match so far, or the first thing wrong.
pub open spec fn search(
    page: Seq<ReleaseEvent>,
    after: u64,
    through: u64,
    query: FactQueryView,
    found: Option<ReleaseEvent>,
) -> Result<Option<ReleaseEvent>, RuntimeHostError>
    decreases page.len(),
{
    if page.len() == 0 {
        Ok(found)
    } else {
        match search(page.drop_last(), after, through, query, found) {
            Err(error) => Err(error),
            Ok(found) => if !cursor_valid(page, after, through, page.len() - 1) {
                Err(recovery_error("release_recovery_cursor_invalid"))
            } else if !is_wanted(page.last(), query) {
                Ok(found)
            } else if found is Some {
                Err(recovery_error("release_fact_identity_conflict"))
            } else {
                Ok(Some(page.last()))
            },
        }
    }
}

proof fn lemma_search_error_stays(
    page: Seq<ReleaseEvent>,
    after: u64,
    through: u64,
    query: FactQueryView,
    found: Option<ReleaseEvent>,
    count: int,
)
    requires
        0 <= count <= page.len(),
        search(page.take(count), after, through, query, found) is Err,
    ensures
        search(page, after, through, query, found) == search(
            page.take(count),
            after,
            through,
            query,
            found,
        ),
    decreases page.len() - count,
{
    if count == page.len() {
        assert(page.take(count) =~= page);
    } else {
        assert(page.take(count + 1).drop_last() =~= page.take(count));
        lemma_search_error_stays(page, after, through, query, found, count + 1);
    }
}

/// Where a page's match stands, and the sequence up to which it was read.
struct PageMatch {
    position: Option<usize>,
    after: u64,
}

fn match_in_page(
    page: &Vec<ReleaseEvent>,
    after: u64,
    through: u64,
    query: FactQuery,
    known: &Option<ReleaseEvent>,
) -> (result: RuntimeHostResult<PageMatch>)
    ensures
        match search(page@, after, through, query@, *known) {
            Err(error) => result == Err::<PageMatch, _>(error),
            Ok(found) => {
                &&& result is Ok
                &&& result->Ok_0.after == read_up_to(page@, after)
                &&& match result->Ok_0.position {
                    Some(position) => position < page@.len() && known is None && found == Some(
                        page@[position as int],
                    ),
                    None => found == *known,
                }
            },
        },
{
    let mut position: Option<usize> = None;
    let mut reached: u64 = after;
    let mut index: usize = 0;
    assert(page@.take(0) =~= Seq::empty());
    while index < page.len()
        invariant
            index <= page.len(),
            reached == read_up_to(page@.take(index as int), after),
            position matches Some(place) ==> place < index && known is None,
            search(page@.take(index as int), after, through, query@, *known) == Ok::<
                _,
                RuntimeHostError,
            >(
                match position {
                    Some(place) => Some(page@[place as int]),
                    None => *known,
                },
            ),
        decreases page.len() - index,
    {
        let event = &page[index];
        proof {
            let taken = page@.take(index + 1);
            assert(taken.drop_last() =~= page@.take(index as int));
            assert(taken.take(index as int) =~= page@.take(index as int));
            assert(taken.last() == page@[index as int]);
            if search(taken, after, through, query@, *known) is Err {
                lemma_search_error_stays(page@, after, through, query@, *known, index + 1);
            }
        }
        if event.sequence <= reached || event.sequence > through {
            return Err(release_recovery_error("release_recovery_cursor_invalid"));
        }
        if wanted(event, query) {
            if position.is_some() || known.is_some() {
                return Err(release_recovery_error("release_fact_identity_conflict"));
            }
            position = Some(index);
        }
        reached = event.sequence;
        index += 1;
    }
    assert(page@.take(page@.len() as int) =~= page@);
    Ok(PageMatch { position, after: reached })
}

/// A search of the ledger for the one fact that matches, page by page.
#[derive(Debug)]
pub struct FactSearch {
    /// The ledger's latest sequence when the search began.
    pub through: u64,
    /// The sequence up to which the ledger was read.
    pub after: u64,
    pub found: Option<ReleaseEvent>,
}

/// The search once a page is behind.
pub open spec fn searched(facts: FactSearch, page: Seq<ReleaseEvent>, query: FactQueryView) -> Result<
    FactSearch,
    RuntimeHostError,
> {
    match search(page, facts.after, facts.through, query, facts.found) {
        Err(error) => Err(error),
        Ok(found) => Ok(
            FactSearch {
                through: facts.through,
                after: read_up_to(page, facts.after),
                found,
            },
        ),
    }
}

/// Looks through one more page for the fact that matches. The events of a page
/// are in the order in which the ledger gives them.
pub fn find_release_fact(facts: FactSearch, page: Vec<ReleaseEvent>, query: FactQuery) -> (result:
    RuntimeHostResult<FactSearch>)
    ensures
        result == searched(facts, page@, query@),
{
    let outcome = match_in_page(&page, facts.after, facts.through, query, &facts.found);
    let matched = match outcome {
        Ok(matched) => matched,
        Err(error) => {
            return Err(error);
        },
    };
    let found = match matched.position {
        Some(position) => {
            let mut page = page;
            Some(page.remove(position))
        },
        None => facts.found,
    };
    Ok(FactSearch { through: facts.through, after: matched.after, found })
}

/// Searching two pages one after the other finds what searching them as one
/// finds.
pub proof fn law_pages_are_searched_as_one(
    facts: FactSearch,
    first: Seq<ReleaseEvent>,
    second: Seq<ReleaseEvent>,
    query: FactQueryView,
)
    ensures
        searched(facts, first + second, query) == match searched(facts, first, query) {
            Err(error) => Err(error),
            Ok(between) => searched(between, second, query),
        },
    decreases second.len(),
{
    if second.len() == 0 {
        assert(first + second =~= first);
    } else {
        let whole = first + second;
        let last = whole.len() - 1;
        law_pages_are_searched_as_one(facts, first, second.drop_last(), query);
        assert(whole.drop_last() =~= first + second.drop_last());
        assert(whole.take(last) =~= first + second.drop_last());
        assert(second.take(second.len() - 1) =~= second.drop_last());
        assert(read_up_to(first + second.drop_last(), facts.after) == read_up_to(
            second.drop_last(),
            read_up_to(first, facts.after),
        ));
        assert(whole.last() == second.last());
    }
}

/// A member of the release baseline that predates the ledger.
#[derive(Debug, Clone)]
pub enum ReleaseBaselineMember {
    Generation { release_id: String },
    Transition { transition: ReleaseTransition },
    Pointer,
}

pub open spec fn outcome_type(kind: ReleaseTransitionKind) -> ReleaseEventType {
    match kind {
        ReleaseTransitionKind::Activate => ReleaseEventType::Activated,
        ReleaseTransitionKind::Rollback => ReleaseEventType::RolledBack,
    }
}

/// The type of the event that completes a transition.
pub fn transition_outcome_type(kind: ReleaseTransitionKind) -> (event_type: ReleaseEventType)
    ensures
        event_type == outcome_type(kind),
{
    match kind {
        ReleaseTransitionKind::Activate => ReleaseEventType::Activated,
        ReleaseTransitionKind::Rollback => ReleaseEventType::RolledBack,
    }
}

/// Which fact the ledger must hold for a member of the baseline.
pub fn baseline_fact(member: &ReleaseBaselineMember) -> (result: RuntimeHostResult<
    (ReleaseEventType, &str),
>)
    ensures
        match *member {
            ReleaseBaselineMember::Generation { release_id } => result matches Ok((kind, identity))
                && kind == ReleaseEventType::Staged && identity@ == release_id@,
            ReleaseBaselineMember::Transition { transition } => result matches Ok((kind, identity))
                && kind == outcome_type(transition.kind) && identity@ == transition.transition_id@,
            ReleaseBaselineMember::Pointer => result matches Err(error) && error == recovery_error(
                "release_recovery_member_invalid",
            ),
        },
{
    match member {
        ReleaseBaselineMember::Generation { release_id } => Ok(
            (ReleaseEventType::Staged, release_id.as_str()),
        ),
        ReleaseBaselineMember::Transition { transition } => Ok(
            (transition_outcome_type(transition.kind), transition.transition_id.as_str()),
        ),
        ReleaseBaselineMember::Pointer => Err(
            release_recovery_error("release_recovery_member_invalid"),
        ),
    }
}

/// What is left to check of a reconciled intent, outside of this library.
#[derive(Debug, Clone, Copy, PartialEq, Eq, Structural)]
pub enum IntentCheck {
    /// The completion is that of the transition: check it against the intent,
    /// then that the state holds it.
    Completed,
    /// The completion has the form that recovery writes: check that the state
    /// holds it.
    Recovered,
    /// The failure says that nothing was changed: check it against the intent.
    Failed,
}

/// The transition of an event that completed one.
pub open spec fn completed_transition(event: ReleaseEvent) -> Option<ReleaseTransition> {
    match event.payload {
        ReleasePayload::Activated { transition } => Some(transition),
        ReleasePayload::RolledBack { transition } => Some(transition),
        _ => None,
    }
}

/// An event found for an intent counts as its outcome.
pub open spec fn counts_as_outcome(
    event: ReleaseEvent,
    intent: ReleaseEvent,
    transition: ReleaseTransition,
    failed: bool,
) -> bool {
    same_action(event, intent) || (!failed && (completed_transition(event) matches Some(completed)
        && completed.encoding@ == transition.recovered_encoding@))
}

/// How an intent stands, given the completion and the failure that the ledger
/// holds under its transition.
pub open spec fn intent_resolution(
    intent: ReleaseEvent,
    completion: Option<ReleaseEvent>,
    failure: Option<ReleaseEvent>,
) -> Result<IntentCheck, RuntimeHostError> {
    match intent.payload {
        ReleasePayload::TransitionIntent { transition } => {
            let outcome = match completion {
                Some(event) => if counts_as_outcome(event, intent, transition, failure is Some) {
                    Some(event)
                } else {
                    None
                },
                None => None,
            };
            match (outcome, failure) {
                (Some(event), None) => if event.sequence <= intent.sequence {
                    Err(recovery_error("release_intent_outcome_order_invalid"))
                } else {
                    match completed_transition(event) {
                        None => Err(recovery_error("release_outcome_payload_invalid")),
                        Some(completed) => if completed.encoding@ == transition.encoding@ {
                            Ok(IntentCheck::Completed)
                        } else if completed.encoding@ == transition.recovered_encoding@ {
                            Ok(IntentCheck::Recovered)
                        } else {
                            Err(recovery_error("release_outcome_identity_mismatch"))
                        },
                    }
                },
                (None, Some(event)) => if event.sequence > intent.sequence && event.origin
                    == intent.origin && (event.payload matches ReleasePayload::TransitionFailed {
                    transition: failed,
                    not_performed: true,
                } && failed.encoding@ == transition.encoding@) {
                    Ok(IntentCheck::Failed)
                } else {
                    Err(recovery_error("release_transition_effect_unresolved"))
                },
                _ => Err(recovery_error("release_transition_effect_unresolved")),
            }
        },
        _ => Err(recovery_error("release_intent_payload_invalid")),
    }
}

pub open spec fn runtime_origin(origin: EventOrigin) -> bool {
    origin.source == EventParty::Runtime && origin.module == EventParty::Runtime && origin.actor
        == EventParty::Runtime
}

/// The type of the event that would complete an intent, if the intent is one
/// of the runtime's own.
pub open spec fn intent_outcome_type(intent: ReleaseEvent) -> Result<
    ReleaseEventType,
    RuntimeHostError,
> {
    match intent.payload {
        ReleasePayload::TransitionIntent { transition } => if runtime_origin(intent.origin) {
            Ok(outcome_type(transition.kind))
        } else {
            Err(recovery_error("release_intent_origin_invalid"))
        },
        _ => Err(recovery_error("release_intent_payload_invalid")),
    }
}

/// Checks an intent and says which events could complete it.
pub fn check_intent(intent: &ReleaseEvent) -> (result: RuntimeHostResult<ReleaseEventType>)
    ensures
        result == intent_outcome_type(*intent),
{
    match &intent.payload {
        ReleasePayload::TransitionIntent { transition } => {
            if intent.origin.source != EventParty::Runtime || intent.origin.module
                != EventParty::Runtime || intent.origin.actor != EventParty::Runtime {
                return Err(release_recovery_error("release_intent_origin_invalid"));
            }
            Ok(transition_outcome_type(transition.kind))
        },
        _ => Err(release_recovery_error("release_intent_payload_invalid")),
    }
}

/// Reconciles an intent of the runtime with the completion and the failure that
/// the ledger holds under its transition.
pub fn reconcile_intent(
    intent: &ReleaseEvent,
    completion: &Option<ReleaseEvent>,
    failure: &Option<ReleaseEvent>,
) -> (result: RuntimeHostResult<IntentCheck>)
    ensures
        result == intent_resolution(*intent, *completion, *failure),
{
    let transition = match &intent.payload {
        ReleasePayload::TransitionIntent { transition } => transition,
        _ => {
            return Err(release_recovery_error("release_intent_payload_invalid"));
        },
    };
    if let Some(event) = completion {
        let recovered = match &event.payload {
            ReleasePayload::Activated { transition: completed }
            | ReleasePayload::RolledBack { transition: completed } => same_text(
                completed.encoding.as_str(),
                transition.recovered_encoding.as_str(),
            ),
            _ => false,
        };
        if of_same_action(event, intent) || (failure.is_none() && recovered) {
            if failure.is_some() {
                return Err(release_recovery_error("release_transition_effect_unresolved"));
            }
            if event.sequence <= intent.sequence {
                return Err(release_recovery_error("release_intent_outcome_order_invalid"));
            }
            let completed = match &event.payload {
                ReleasePayload::Activated { transition: completed }
                | ReleasePayload::RolledBack { transition: completed } => completed,
                _ => {
                    return Err(release_recovery_error("release_outcome_payload_invalid"));
                },
            };
            return if same_text(completed.encoding.as_str(), transition.encoding.as_str()) {
                Ok(IntentCheck::Completed)
            } else if recovered {
                Ok(IntentCheck::Recovered)
            } else {
                Err(release_recovery_error("release_outcome_identity_mismatch"))
            };
        }
    }
    if let Some(event) = failure {
        if event.sequence > intent.sequence && event.origin == intent.origin {
            if let ReleasePayload::TransitionFailed { transition: failed, not_performed } =
                &event.payload {
                if *not_performed && same_text(
                    failed.encoding.as_str(),
                    transition.encoding.as_str(),
                ) {
                    return Ok(IntentCheck::Failed);
                }
            }
        }
    }
    Err(release_recovery_error("release_transition_effect_unresolved"))
}

/// Settles an intent whose outside check was made.
pub fn settle_intent(check: IntentCheck, identity_valid: bool) -> (result: RuntimeHostResult<()>)
    ensures
        identity_valid ==> result is Ok,
        !identity_valid ==> result == match check {
            IntentCheck::Completed => Err::<(), _>(
                recovery_error("release_outcome_identity_mismatch"),
            ),
            IntentCheck::Recovered => Ok(()),
            IntentCheck::Failed => Err::<(), _>(
                recovery_error("release_failure_identity_mismatch"),
            ),
        },
{
    if identity_valid {
        return Ok(());
    }
    match check {
        IntentCheck::Completed => Err(
            release_recovery_error("release_outcome_identity_mismatch"),
        ),
        IntentCheck::Recovered => Ok(()),
        IntentCheck::Failed => Err(release_recovery_error("release_failure_identity_mismatch")),
    }
}

/// How the append of a transition's success event ended.
#[derive(Debug, Clone, Copy)]
pub enum TransitionAppend {
    Appended,
    /// The state refused the change and the event was rolled back with it.
    RolledBack { code: &'static str, operation: &'static str, fatal: bool },
    /// The ledger failed.
    LedgerFailed { code: &'static str, operation: &'static str },
}

pub open spec fn rejection_error(
    code: &'static str,
    operation: &'static str,
    fatal: bool,
) -> RuntimeHostError {
    if fatal {
        fatal_error(code, operation, RuntimeErrorCode::RuntimeFatal)
    } else {
        request_error(code, operation, RuntimeErrorCode::InvalidRequest)
    }
}

/// The error of a change that the state refused.
pub fn release_rejection_error(code: &'static str, operation: &'static str, fatal: bool) -> (error:
    RuntimeHostError)
    ensures
        error == rejection_error(code, operation, fatal),
{
    if fatal {
        RuntimeHostError::fatal(code, operation, RuntimeErrorCode::RuntimeFatal)
    } else {
        RuntimeHostError::request(code, operation, RuntimeErrorCode::InvalidRequest)
    }
}

/// The failure event itself could not be made durable.
pub fn release_failure_error() -> (error: RuntimeHostError)
    ensures
        error == fatal_error(
            "release_failure_fact_undurable",
            "switch_release_set",
            RuntimeErrorCode::LedgerFailure,
        ),
{
    RuntimeHostError::fatal(
        "release_failure_fact_undurable",
        "switch_release_set",
        RuntimeErrorCode::LedgerFailure,
    )
}

/// The detail of a failure event that could not be made durable: the error that
/// it was to tell of, and why it was not written, both in words.
pub fn release_failure_detail(original: &str, failure: &str) -> (detail: String)
    ensures
        detail@ == "original="@ + original@ + "; failure="@ + failure@,
{
    let mut detail = String::from_str("original=");
    detail.append(original);
    detail.append("; failure=");
    detail.append(failure);
    detail
}

/// An intent that has a completion of its own action and a failure of it too,
/// or neither a completion nor a failure, is never taken as resolved.
pub proof fn law_contradictory_intent_is_unresolved(
    intent: ReleaseEvent,
    completion: Option<ReleaseEvent>,
    failure: Option<ReleaseEvent>,
)
    requires
        intent.payload is TransitionIntent,
        (completion is None && failure is None) || (failure is Some && (completion matches Some(
            event,
        ) && same_action(event, intent))),
    ensures
        intent_resolution(intent, completion, failure) == Err::<IntentCheck, _>(
            recovery_error("release_transition_effect_unresolved"),
        ),
{
}

/// A resolved intent was resolved by an event that the ledger holds after it.
pub proof fn law_resolution_follows_intent(
    intent: ReleaseEvent,
    completion: Option<ReleaseEvent>,
    failure: Option<ReleaseEvent>,
)
    ensures
        match intent_resolution(intent, completion, failure) {
            Ok(IntentCheck::Failed) => failure matches Some(event) && event.sequence
                > intent.sequence,
            Ok(_) => completion matches Some(event) && event.sequence > intent.sequence,
            Err(_) => true,
        },
{
}

/// A search finds the one wanted event of its page, and nothing where there is
/// none; a second wanted event, or one out of its place in the ledger, is an
/// error.
pub proof fn law_search_finds_the_one_wanted_event(
    page: Seq<ReleaseEvent>,
    after: u64,
    through: u64,
    query: FactQueryView,
    found: Option<ReleaseEvent>,
)
    ensures
        match search(page, after, through, query, found) {
            Ok(Some(event)) => (found == Some(event) && (forall|i: int|
                0 <= i < page.len() ==> !is_wanted(#[trigger] page[i], query))) || (found is None
                && (exists|at: int|
                0 <= at < page.len() && #[trigger] page[at] == event && is_wanted(event, query) && (
                forall|i: int|
                    0 <= i < page.len() && i != at ==> !is_wanted(#[trigger] page[i], query)))),
            Ok(None) => found is None && (forall|i: int|
                0 <= i < page.len() ==> !is_wanted(#[trigger] page[i], query)),
            Err(_) => true,
        },
        search(page, after, through, query, found) is Ok ==> (forall|i: int, j: int|
            0 <= i < j < page.len() ==> (#[trigger] page[i]).sequence < (
            #[trigger] page[j]).sequence) && (forall|i: int|
            0 <= i < page.len() ==> after < (#[trigger] page[i]).sequence <= through),
    decreases page.len(),
{
    if page.len() > 0 {
        let earlier = page.drop_last();
        law_search_finds_the_one_wanted_event(earlier, after, through, query, found);
        let last = page.len() - 1;
        assert(page.take(last) =~= earlier);
        assert forall|i: int| 0 <= i < last implies #[trigger] page[i] == earlier[i] by {}
        if search(page, after, through, query, found) is Ok {
            let before = search(earlier, after, through, query, found)->Ok_0;
            if earlier.len() > 0 {
                assert(earlier.last() == page[last - 1]);
                assert(earlier[earlier.len() - 1] == page[last - 1]);
            }
            assert forall|i: int| 0 <= i < last implies (#[trigger] page[i]).sequence
                < page[last].sequence by {
                assert(earlier[i].sequence <= earlier.last().sequence);
            }
            if is_wanted(page.last(), query) {
                assert(before is None);
                assert(page[last] == page.last());
            } else if found is None && before is Some {
                let event = before->0;
                let at = choose|at: int|
                    0 <= at < earlier.len() && #[trigger] earlier[at] == event && is_wanted(
                        event,
                        query,
                    ) && (forall|i: int|
                        0 <= i < earlier.len() && i != at ==> !is_wanted(
                            #[trigger] earlier[i],
                            query,
                        ));
                assert(page[at] == event);
                assert forall|i: int| 0 <= i < page.len() && i != at implies !is_wanted(
                    #[trigger] page[i],
                    query,
                ) by {
                    if i < last {
                        assert(!is_wanted(earlier[i], query));
                    }
                }
            } else {
                assert forall|i: int| 0 <= i < page.len() implies !is_wanted(
                    #[trigger] page[i],
                    query,
                ) by {
                    if i < last {
                        assert(!is_wanted(earlier[i], query));
                    }
                }
            }
        }
    }
}

/// A search goes on from the last event that it has read, and keeps its end.
pub proof fn law_search_goes_on_from_the_last_event(
    facts: FactSearch,
    page: Seq<ReleaseEvent>,
    query: FactQueryView,
)
    ensures
        searched(facts, page, query) matches Ok(after) ==> after.through == facts.through && (
        page.len() == 0 ==> after.after == facts.after && after.found == facts.found) && (
        page.len() > 0 ==> after.after == page[page.len() - 1].sequence),
{
}

/// What a fact is asked for by: a migration by its state's key, a release or a
/// transition by its name, and the failure of an action by that name and the
/// action together.
pub proof fn law_facts_are_asked_for_by_name(event: ReleaseEvent, name: Seq<char>, other: ReleaseEvent)
    ensures
        is_wanted(event, FactQueryView::OfAction(name, other)) <==> is_wanted(
            event,
            FactQueryView::Identity(name),
        ) && event.correlation_id == other.correlation_id && event.action_id == other.action_id,
        event.payload matches ReleasePayload::Staged { release_id } ==> (is_wanted(
            event,
            FactQueryView::Identity(name),
        ) <==> release_id@ == name),
        event.payload matches ReleasePayload::Activated { transition } ==> (is_wanted(
            event,
            FactQueryView::Identity(name),
        ) <==> transition.transition_id@ == name),
        event.payload matches ReleasePayload::RolledBack { transition } ==> (is_wanted(
            event,
            FactQueryView::Identity(name),
        ) <==> transition.transition_id@ == name),
        event.payload matches ReleasePayload::StateMigrated { state_key } ==> (is_wanted(
            event,
            FactQueryView::Migration(name),
        ) <==> state_key@ == name) && !is_wanted(event, FactQueryView::Identity(name)),
        event.payload is TransitionIntent ==> !is_wanted(event, FactQueryView::Identity(name)),
{
}

/// A completion of the intent's own action that follows it and carries its
/// transition resolves it, and so does one that carries the recovered form of
/// the transition; any other transition does not.
pub proof fn law_completion_resolves_its_intent(
    intent: ReleaseEvent,
    transition: ReleaseTransition,
    event: ReleaseEvent,
    completed: ReleaseTransition,
)
    requires
        intent.payload == (ReleasePayload::TransitionIntent { transition }),
        event.payload == (ReleasePayload::Activated { transition: completed }) || event.payload == (
        ReleasePayload::RolledBack { transition: completed }),
        event.sequence > intent.sequence,
    ensures
        event.correlation_id == intent.correlation_id && event.action_id == intent.action_id
            && completed.encoding@ == transition.encoding@ ==> intent_resolution(
            intent,
            Some(event),
            None,
        ) == Ok::<IntentCheck, RuntimeHostError>(IntentCheck::Completed),
        completed.encoding@ != transition.encoding@ && completed.encoding@
            == transition.recovered_encoding@ ==> intent_resolution(intent, Some(event), None)
            == Ok::<IntentCheck, RuntimeHostError>(IntentCheck::Recovered),
        completed.encoding@ != transition.encoding@ && completed.encoding@
            != transition.recovered_encoding@ ==> intent_resolution(intent, Some(event), None) is Err,
{
}

/// A failure resolves its intent exactly when it follows the intent, has its
/// origin and its transition, and says that nothing was performed.
pub proof fn law_failure_resolves_its_intent(
    intent: ReleaseEvent,
    transition: ReleaseTransition,
    event: ReleaseEvent,
    failed: ReleaseTransition,
    not_performed: bool,
)
    requires
        intent.payload == (ReleasePayload::TransitionIntent { transition }),
        event.payload == (ReleasePayload::TransitionFailed { transition: failed, not_performed }),
    ensures
        intent_resolution(intent, None, Some(event)) == Ok::<IntentCheck, RuntimeHostError>(
            IntentCheck::Failed,
        ) <==> event.sequence > intent.sequence && event.origin == intent.origin && not_performed
            && failed.encoding@ == transition.encoding@,
        intent_resolution(intent, None, Some(event)) is Ok ==> intent_resolution(
            intent,
            None,
            Some(event),
        ) == Ok::<IntentCheck, RuntimeHostError>(IntentCheck::Failed),
{
}

/// An intent of the runtime to activate ends in an activation, one to roll
/// back in a rollback; an intent from elsewhere is refused.
pub proof fn law_intent_ends_in_its_kind(intent: ReleaseEvent, transition: ReleaseTransition)
    requires
        intent.payload == (ReleasePayload::TransitionIntent { transition }),
    ensures
        intent_outcome_type(intent) is Ok <==> intent.origin.source == EventParty::Runtime
            && intent.origin.module == EventParty::Runtime && intent.origin.actor
            == EventParty::Runtime,
        intent_outcome_type(intent) matches Ok(kind) ==> (kind == ReleaseEventType::Activated
            <==> transition.kind == ReleaseTransitionKind::Activate) && (kind
            == ReleaseEventType::RolledBack <==> transition.kind
            == ReleaseTransitionKind::Rollback),
{
}

} // verus!
