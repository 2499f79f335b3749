//! The merge of one event into a record.
//!
//! The service that the event names leaves the record, wherever it stood, and
//! comes back at the end with the event's name and time. So the services stay
//! in the order in which they were last touched, most recent last, and each
//! occurs once.

use vstd::prelude::*;
use crate::model::{
    EventBody,
    EventBodyView,
    ServiceRecord,
    ServiceRecordView,
    UserRecord,
    UserRecordView,
    has_service,
    services_view,
    unique_service_ids,
};

verus! {

/// The service record that an event reports.
pub open spec fn service_of(event: EventBodyView) -> ServiceRecordView {
    ServiceRecordView {
        service_id: event.service_id,
        service_name: event.service_name,
        last_accessed: event.timestamp,
    }
}

/// `services` without those of the id `service_id`, the others in their order.
pub open spec fn without_service(services: Seq<ServiceRecordView>, service_id: Seq<char>) -> Seq<
    ServiceRecordView,
> {
    services.filter(|service: ServiceRecordView| service.service_id != service_id)
}

/// The record after an event: the user stays the one of the record, whatever
/// user the event names.
pub open spec fn merged(record: UserRecordView, event: EventBodyView) -> UserRecordView {
    UserRecordView {
        user_id: record.user_id,
        services: without_service(record.services, event.service_id).push(service_of(event)),
    }
}

/// The record after a run of events, merged one after the other.
pub open spec fn merged_all(record: UserRecordView, events: Seq<EventBodyView>) -> UserRecordView
    decreases events.len(),
{
    if events.len() == 0 {
        record
    } else {
        merged(merged_all(record, events.drop_last()), events.last())
    }
}

/// What `without_service` does with the last of a run of services.
proof fn lemma_without_service_push(
    services: Seq<ServiceRecordView>,
    last: ServiceRecordView,
    service_id: Seq<char>,
)
    ensures
        without_service(services.push(last), service_id) == if last.service_id != service_id {
            without_service(services, service_id).push(last)
        } else {
            without_service(services, service_id)
        },
{
    reveal(Seq::filter);
    assert(services.push(last).drop_last() =~= services);
}

/// Where no service has the id, none leaves.
proof fn lemma_without_absent_service(services: Seq<ServiceRecordView>, service_id: Seq<char>)
    requires
        !has_service(services, service_id),
    ensures
        without_service(services, service_id) == services,
    decreases services.len(),
{
    reveal(Seq::filter);
    if services.len() > 0 {
        let front = services.drop_last();
        lemma_without_absent_service(front, service_id);
    }
}

/// What is left held the services in the same order, and holds none of the id.
proof fn lemma_without_service_members(services: Seq<ServiceRecordView>, service_id: Seq<char>)
    ensures
        !has_service(without_service(services, service_id), service_id),
        forall|i: int|
            0 <= i < without_service(services, service_id).len() ==> services.contains(
                #[trigger] without_service(services, service_id)[i],
            ),
    decreases services.len(),
{
    reveal(Seq::filter);
    if services.len() > 0 {
        let front = services.drop_last();
        lemma_without_service_members(front, service_id);
    }
}

/// Taking a service out of a record leaves a record.
proof fn lemma_without_service_unique(services: Seq<ServiceRecordView>, service_id: Seq<char>)
    requires
        unique_service_ids(services),
    ensures
        unique_service_ids(without_service(services, service_id)),
    decreases services.len(),
{
    reveal(Seq::filter);
    if services.len() > 0 {
        let front = services.drop_last();
        lemma_without_service_unique(front, service_id);
        lemma_without_service_members(front, service_id);
    }
}

/// Taking the service of an id out of a record takes out the one entry that
/// has the id.
proof fn lemma_without_present_service(
    services: Seq<ServiceRecordView>,
    service_id: Seq<char>,
    at: int,
)
    requires
        unique_service_ids(services),
        0 <= at < services.len(),
        services[at].service_id == service_id,
    ensures
        without_service(services, service_id) == services.remove(at),
    decreases services.len(),
{
    reveal(Seq::filter);
    let front = services.drop_last();
    if at == services.len() - 1 {
        lemma_without_absent_service(front, service_id);
    } else {
        lemma_without_present_service(front, service_id, at);
    }
}

/// An event merged into a record without services leaves the one service of
/// the event.
pub proof fn lemma_merge_into_empty(record: UserRecordView, event: EventBodyView)
    requires
        record.services.len() == 0,
    ensures
        merged(record, event).services == seq![service_of(event)],
        merged(record, event).user_id == record.user_id,
{
    reveal(Seq::filter);
}

/// An event for a service that the record knows, at the place `at`: the
/// entry at `at` leaves, the others keep their order, and the service of the
/// event, with the event's name and time, comes last. So the record keeps its
/// length, and no other service has the id.
pub proof fn lemma_merge_known_service(record: UserRecordView, event: EventBodyView, at: int)
    requires
        record.wf(),
        0 <= at < record.services.len(),
        record.services[at].service_id == event.service_id,
    ensures
        merged(record, event).services == record.services.remove(at).push(service_of(event)),
        merged(record, event).services.len() == record.services.len(),
        merged(record, event).services.last() == service_of(event),
        forall|i: int|
            0 <= i < merged(record, event).services.len() - 1 ==> (#[trigger] merged(
                record,
                event,
            ).services[i]).service_id != event.service_id,
{
    lemma_without_present_service(record.services, event.service_id, at);
    lemma_without_service_members(record.services, event.service_id);
}

/// An event for a service that the record does not know: the services stay as
/// they are and in their order, and the service of the event follows them.
pub proof fn lemma_merge_new_service(record: UserRecordView, event: EventBodyView)
    requires
        !has_service(record.services, event.service_id),
    ensures
        merged(record, event).services == record.services.push(service_of(event)),
{
    lemma_without_absent_service(record.services, event.service_id);
}

/// Merging the same event a second time changes nothing.
pub proof fn lemma_merge_idempotent(record: UserRecordView, event: EventBodyView)
    ensures
        merged(merged(record, event), event) == merged(record, event),
{
    let left = without_service(record.services, event.service_id);
    lemma_without_service_members(record.services, event.service_id);
    lemma_without_absent_service(left, event.service_id);
    lemma_without_service_push(left, service_of(event), event.service_id);
}

/// A merge keeps the invariant of a record: no two services share an id.
pub proof fn lemma_merge_keeps_wf(record: UserRecordView, event: EventBodyView)
    requires
        record.wf(),
    ensures
        merged(record, event).wf(),
{
    lemma_without_service_unique(record.services, event.service_id);
    lemma_without_service_members(record.services, event.service_id);
}

/// The invariant of a record holds after any run of events.
pub proof fn lemma_merge_all_keeps_wf(record: UserRecordView, events: Seq<EventBodyView>)
    requires
        record.wf(),
    ensures
        merged_all(record, events).wf(),
    decreases events.len(),
{
    if events.len() > 0 {
        lemma_merge_all_keeps_wf(record, events.drop_last());
        lemma_merge_keeps_wf(merged_all(record, events.drop_last()), events.last());
    }
}

/// The services of other ids than `service_id`, in their order.
fn retain_others(services: Vec<ServiceRecord>, service_id: &String) -> (kept: Vec<ServiceRecord>)
    ensures
        services_view(kept@) == without_service(services_view(services@), service_id@),
{
    let mut kept: Vec<ServiceRecord> = Vec::new();
    let ghost all = services@;
    proof {
        reveal(Seq::filter);
    }
    for service in iter: services.into_iter()
        invariant
            iter.seq() == all,
            services_view(kept@) == without_service(
                services_view(all.take(iter.index() as int)),
                service_id@,
            ),
    {
        proof {
            let done = all.take(iter.index() as int);
            assert(all.take(iter.index() + 1) =~= done.push(service));
            assert(services_view(done.push(service)) =~= services_view(done).push(service@));
            lemma_without_service_push(services_view(done), service@, service_id@);
        }
        if !(service.service_id == *service_id) {
            kept.push(service);
        }
    }
    assert(all.take(all.len() as int) =~= all);
    kept
}

/// Merges one event into a record.
///
/// Every service of the event's id leaves the record, the others keep their
/// order, and the service of the event (its id and name, and the event's
/// timestamp as the time of the last access) is put at the end. The user of the
/// result is the user of `record`: whether the event names the same user is for
/// the caller to see to.
///
/// So an event for a service that the record does not hold makes the record
/// longer by one, and an event for a service that a well-formed record holds
/// leaves its length, moves the service to the end and overwrites its name
/// and time. A well-formed record stays well formed.
pub fn update_record(record: UserRecord, body: &EventBody) -> (updated: UserRecord)
    ensures
        updated@ == merged(record@, body@),
        record@.services.len() == 0 ==> updated@.services == seq![service_of(body@)],
        !has_service(record@.services, body@.service_id) ==> updated@.services
            == record@.services.push(service_of(body@)),
        record@.wf() && has_service(record@.services, body@.service_id) ==> {
            &&& updated@.services.len() == record@.services.len()
            &&& updated@.services.last() == service_of(body@)
            &&& forall|i: int|
                0 <= i < updated@.services.len() - 1 ==> (#[trigger] updated@.services[i]).service_id
                    != body@.service_id
        },
        record@.wf() ==> updated@.wf(),
{
    let service = ServiceRecord {
        service_id: body.service_id.clone(),
        service_name: body.service_name.clone(),
        last_accessed: body.timestamp.clone(),
    };
    let mut services = retain_others(record.services, &service.service_id);
    proof {
        assert(services_view(services@.push(service)) =~= services_view(services@).push(service@));
        if record@.services.len() == 0 {
            lemma_merge_into_empty(record@, body@);
        }
        if !has_service(record@.services, body@.service_id) {
            lemma_merge_new_service(record@, body@);
        }
        if record@.wf() {
            lemma_merge_keeps_wf(record@, body@);
            if has_service(record@.services, body@.service_id) {
                let at = choose|i: int|
                    0 <= i < record@.services.len() && (#[trigger] record@.services[i]).service_id
                        == body@.service_id;
                lemma_merge_known_service(record@, body@, at);
            }
        }
    }
    services.push(service);
    UserRecord { user_id: record.user_id, services }
}

} // verus!
