//! The write path: one inbound message, from its payload to the stored record.
//!
//! Handling a message alternates between work on the outside (decoding the
//! payload, fetching the user's item, writing it back) and decisions. The
//! decisions are `ingest_step`: from where the handling stands and what the
//! outside came back with, to where it stands next and what to do next. The
//! caller starts at `AwaitingPayload`, hands in the decoded payload, does what
//! each action asks for and hands back what came of it, until the action is
//! `Finish`.
//!
//! The fetch and the write are two requests with nothing held between them: if
//! two messages for one user are handled at the same time, the later write
//! replaces the earlier one whole.

use vstd::prelude::*;
use crate::codec::{DecodeErrorView, encode, lemma_decode_encode, record_tree, tree_record};
use crate::merge::{merged, update_record};
use crate::model::{
    EventBody,
    EventBodyView,
    ServiceRecord,
    UserRecord,
    UserRecordView,
    services_view,
};
use crate::store::{
    ItemOutput,
    StoreError,
    StoreErrorView,
    fetched_record,
    get_user_record,
    reply_view,
    written_view,
};
use crate::tree::{AttributeTree, TreeView};

verus! {

/// Why a message was not ingested.
#[derive(Debug, PartialEq)]
pub enum IngestError {
    /// The payload is not an event.
    Decode,
    /// The store failed on the fetch or on the write.
    Store(StoreError),
}

/// The value of an [`IngestError`].
pub enum IngestErrorView {
    Decode,
    Store(StoreErrorView),
}

impl View for IngestError {
    type V = IngestErrorView;

    open spec fn view(&self) -> IngestErrorView {
        match self {
            IngestError::Decode => IngestErrorView::Decode,
            IngestError::Store(error) => IngestErrorView::Store(error@),
        }
    }
}

/// Where the handling of one message stands.
pub enum IngestState {
    /// The payload has not been looked at yet.
    AwaitingPayload,
    /// The item of the event's user has been asked for.
    AwaitingRecord { event: EventBody },
    /// The merged record has been handed out to be written.
    AwaitingWrite,
    /// The message is dealt with.
    Done,
}

/// The value of an [`IngestState`].
pub enum IngestStateView {
    AwaitingPayload,
    AwaitingRecord { event: EventBodyView },
    AwaitingWrite,
    Done,
}

impl View for IngestState {
    type V = IngestStateView;

    open spec fn view(&self) -> IngestStateView {
        match self {
            IngestState::AwaitingPayload => IngestStateView::AwaitingPayload,
            IngestState::AwaitingRecord { event } => IngestStateView::AwaitingRecord {
                event: event@,
            },
            IngestState::AwaitingWrite => IngestStateView::AwaitingWrite,
            IngestState::Done => IngestStateView::Done,
        }
    }
}

/// What the outside came back with.
pub enum IngestEvent {
    /// The payload of the message, decoded; `None` where it is not an event.
    Payload(Option<EventBody>),
    /// The reply to the fetch of the user's item.
    Fetched(Result<ItemOutput, StoreError>),
    /// The reply to the write of the user's item.
    Written(Result<(), StoreError>),
}

/// The value of an [`IngestEvent`].
pub enum IngestEventView {
    Payload(Option<EventBodyView>),
    Fetched(Result<Option<TreeView>, StoreErrorView>),
    Written(Result<(), StoreErrorView>),
}

impl View for IngestEvent {
    type V = IngestEventView;

    open spec fn view(&self) -> IngestEventView {
        match self {
            IngestEvent::Payload(Some(event)) => IngestEventView::Payload(Some(event@)),
            IngestEvent::Payload(None) => IngestEventView::Payload(None),
            IngestEvent::Fetched(reply) => IngestEventView::Fetched(reply_view(*reply)),
            IngestEvent::Written(reply) => IngestEventView::Written(written_view(*reply)),
        }
    }
}

/// What the caller is to do next.
#[derive(Debug, PartialEq)]
pub enum IngestAction {
    /// Fetch the item of this user.
    Fetch { user_id: String },
    /// Write this item, in place of whatever the store holds for its user.
    Write { item: AttributeTree },
    /// Stop: the message is ingested, or it is not and this is why.
    Finish(Result<(), IngestError>),
}

/// The value of an [`IngestAction`].
pub enum IngestActionView {
    Fetch { user_id: Seq<char> },
    Write { item: TreeView },
    Finish(Result<(), IngestErrorView>),
}

impl View for IngestAction {
    type V = IngestActionView;

    open spec fn view(&self) -> IngestActionView {
        match self {
            IngestAction::Fetch { user_id } => IngestActionView::Fetch { user_id: user_id@ },
            IngestAction::Write { item } => IngestActionView::Write { item: item@ },
            IngestAction::Finish(Ok(_)) => IngestActionView::Finish(Ok(())),
            IngestAction::Finish(Err(error)) => IngestActionView::Finish(Err(error@)),
        }
    }
}

/// The record that an event is merged into: the one that the store holds, or
/// an empty one of the event's user where it holds none.
pub open spec fn record_or_empty(found: Option<UserRecordView>, user_id: Seq<char>) -> UserRecordView {
    match found {
        Some(record) => record,
        None => UserRecordView::empty(user_id),
    }
}

/// The item to write for an event, given the record that the store holds.
pub open spec fn item_after(found: Option<UserRecordView>, event: EventBodyView) -> TreeView {
    record_tree(merged(record_or_empty(found, event.user_id), event))
}

/// What is written for an event is read back as the record after the event:
/// the record that the store held, or an empty one of the event's user, with
/// the event merged in.
pub proof fn lemma_written_item_holds_merge(found: Option<UserRecordView>, event: EventBodyView)
    ensures
        tree_record(item_after(found, event)) == Ok::<UserRecordView, DecodeErrorView>(
            merged(record_or_empty(found, event.user_id), event),
        ),
{
    lemma_decode_encode(merged(record_or_empty(found, event.user_id), event));
}

/// `event` is what `state` waits for: the payload at the start, the reply to
/// the fetch once the record is asked for, the reply to the write once the
/// item is handed out. Nothing is awaited at `Done`.
pub open spec fn awaits(state: IngestStateView, event: IngestEventView) -> bool {
    match (state, event) {
        (IngestStateView::AwaitingPayload, IngestEventView::Payload(_)) => true,
        (IngestStateView::AwaitingRecord { .. }, IngestEventView::Fetched(_)) => true,
        (IngestStateView::AwaitingWrite, IngestEventView::Written(_)) => true,
        _ => false,
    }
}

/// `event` is the outcome of what `action` asks for: a fetch is answered by
/// the reply to a fetch, a write by the reply to a write. `Finish` asks for
/// nothing.
pub open spec fn answers(event: IngestEventView, action: IngestActionView) -> bool {
    match (action, event) {
        (IngestActionView::Fetch { .. }, IngestEventView::Fetched(_)) => true,
        (IngestActionView::Write { .. }, IngestEventView::Written(_)) => true,
        _ => false,
    }
}

/// There is a step exactly when the event is awaited.
pub proof fn lemma_step_when_awaited(state: IngestStateView, event: IngestEventView)
    ensures
        ingest_next(state, event) is Some <==> awaits(state, event),
{
}

/// A caller that does what it is asked for is never without a step: what
/// answers the action of a step is awaited by the state that the step leads
/// to. With the payload awaited at the start, the handling of a message runs
/// from step to step until it is told to finish.
pub proof fn lemma_answer_is_awaited(
    state: IngestStateView,
    event: IngestEventView,
    reply: IngestEventView,
)
    requires
        ingest_next(state, event) is Some,
        answers(reply, ingest_next(state, event)->Some_0.1),
    ensures
        awaits(ingest_next(state, event)->Some_0.0, reply),
        ingest_next(ingest_next(state, event)->Some_0.0, reply) is Some,
{
}

/// A step finishes exactly when it leads to `Done`: a caller that goes on
/// until it is told to finish goes on as long as the handling does.
pub proof fn lemma_finish_at_done(state: IngestStateView, event: IngestEventView)
    ensures
        ingest_next(state, event) matches Some((next, action)) ==> (next is Done <==> action
            is Finish),
        state is Done ==> ingest_next(state, event) is None,
{
}

/// One step of the handling of a message. `None` where `event` is not what
/// `state` waits for.
pub open spec fn ingest_next(state: IngestStateView, event: IngestEventView) -> Option<
    (IngestStateView, IngestActionView),
> {
    match (state, event) {
        (IngestStateView::AwaitingPayload, IngestEventView::Payload(None)) => Some(
            (IngestStateView::Done, IngestActionView::Finish(Err(IngestErrorView::Decode))),
        ),
        (IngestStateView::AwaitingPayload, IngestEventView::Payload(Some(body))) => Some(
            (
                IngestStateView::AwaitingRecord { event: body },
                IngestActionView::Fetch { user_id: body.user_id },
            ),
        ),
        (IngestStateView::AwaitingRecord { event: body }, IngestEventView::Fetched(reply)) => {
            match fetched_record(reply) {
                Err(error) => Some(
                    (
                        IngestStateView::Done,
                        IngestActionView::Finish(Err(IngestErrorView::Store(error))),
                    ),
                ),
                Ok(found) => Some(
                    (
                        IngestStateView::AwaitingWrite,
                        IngestActionView::Write { item: item_after(found, body) },
                    ),
                ),
            }
        },
        (IngestStateView::AwaitingWrite, IngestEventView::Written(Ok(_))) => Some(
            (IngestStateView::Done, IngestActionView::Finish(Ok(()))),
        ),
        (IngestStateView::AwaitingWrite, IngestEventView::Written(Err(error))) => Some(
            (IngestStateView::Done, IngestActionView::Finish(Err(IngestErrorView::Store(error)))),
        ),
        _ => None,
    }
}

/// The value of what a step hands back.
pub open spec fn step_view(step: Option<(IngestState, IngestAction)>) -> Option<
    (IngestStateView, IngestActionView),
> {
    match step {
        Some((state, action)) => Some((state@, action@)),
        None => None,
    }
}

/// One step of the handling of a message.
///
/// - At `AwaitingPayload`, a payload that is an event asks for the fetch of
///   its user's item; one that is none finishes with `Decode`.
/// - At `AwaitingRecord`, the reply to the fetch gives the record to merge
///   into: the record in the item, or an empty record of the event's user
///   where the store holds none. The event is merged in and the item of the
///   result is handed out to be written. A fetch that failed, or an item that
///   holds no record, finishes with `Store`.
/// - At `AwaitingWrite`, the reply to the write finishes: with success, or
///   with `Store`.
///
/// `None` where `event` is not what `state` waits for; nothing is awaited at
/// `Done`.
pub fn ingest_step(state: IngestState, event: IngestEvent) -> (step: Option<
    (IngestState, IngestAction),
>)
    ensures
        step_view(step) == ingest_next(state@, event@),
        step is Some <==> awaits(state@, event@),
        step matches Some((_, IngestAction::Write { item })) ==> item.wf(),
{
    match (state, event) {
        (IngestState::AwaitingPayload, IngestEvent::Payload(None)) => Some(
            (IngestState::Done, IngestAction::Finish(Err(IngestError::Decode))),
        ),
        (IngestState::AwaitingPayload, IngestEvent::Payload(Some(body))) => {
            let user_id = body.user_id.clone();
            Some((IngestState::AwaitingRecord { event: body }, IngestAction::Fetch { user_id }))
        },
        (IngestState::AwaitingRecord { event: body }, IngestEvent::Fetched(reply)) => {
            match get_user_record(reply) {
                Err(error) => Some(
                    (IngestState::Done, IngestAction::Finish(Err(IngestError::Store(error)))),
                ),
                Ok(found) => {
                    let record = match found {
                        Some(record) => record,
                        None => {
                            let services: Vec<ServiceRecord> = Vec::new();
                            assert(services_view(services@) =~= Seq::empty());
                            UserRecord::new(body.user_id.as_str(), services)
                        },
                    };
                    let updated = update_record(record, &body);
                    Some((IngestState::AwaitingWrite, IngestAction::Write { item: encode(&updated) }))
                },
            }
        },
        (IngestState::AwaitingWrite, IngestEvent::Written(Ok(_))) => Some(
            (IngestState::Done, IngestAction::Finish(Ok(()))),
        ),
        (IngestState::AwaitingWrite, IngestEvent::Written(Err(error))) => Some(
            (IngestState::Done, IngestAction::Finish(Err(IngestError::Store(error)))),
        ),
        _ => None,
    }
}

} // verus!
