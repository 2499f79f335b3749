//! The record model: which services a user has accessed, and the event that
//! reports one access.
//!
//! Every type has a view that replaces its strings by `Seq<char>` and its
//! vector by a `Seq`. The contracts of the crate are stated over those views.

use vstd::prelude::*;

verus! {

/// One service that a user has accessed.
#[derive(Debug)]
pub struct ServiceRecord {
    pub service_id: String,
    pub service_name: String,
    pub last_accessed: String,
}

/// The value of a [`ServiceRecord`].
pub struct ServiceRecordView {
    pub service_id: Seq<char>,
    pub service_name: Seq<char>,
    pub last_accessed: Seq<char>,
}

impl View for ServiceRecord {
    type V = ServiceRecordView;

    open spec fn view(&self) -> ServiceRecordView {
        ServiceRecordView {
            service_id: self.service_id@,
            service_name: self.service_name@,
            last_accessed: self.last_accessed@,
        }
    }
}

/// The services of one user, least recently touched first.
#[derive(Debug)]
pub struct UserRecord {
    pub user_id: String,
    pub services: Vec<ServiceRecord>,
}

/// The value of a [`UserRecord`].
pub struct UserRecordView {
    pub user_id: Seq<char>,
    pub services: Seq<ServiceRecordView>,
}

/// The values of a run of service records, in the same order.
pub open spec fn services_view(services: Seq<ServiceRecord>) -> Seq<ServiceRecordView> {
    services.map_values(|s: ServiceRecord| s@)
}

impl View for UserRecord {
    type V = UserRecordView;

    open spec fn view(&self) -> UserRecordView {
        UserRecordView { user_id: self.user_id@, services: services_view(self.services@) }
    }
}

/// No two of `services` share a `service_id`.
pub open spec fn unique_service_ids(services: Seq<ServiceRecordView>) -> bool {
    forall|i: int, j: int|
        0 <= i < j < services.len() ==> (#[trigger] services[i]).service_id != (
        #[trigger] services[j]).service_id
}

/// Some entry of `services` has the id `service_id`.
pub open spec fn has_service(services: Seq<ServiceRecordView>, service_id: Seq<char>) -> bool {
    exists|i: int| 0 <= i < services.len() && (#[trigger] services[i]).service_id == service_id
}

impl UserRecordView {
    /// The invariant of a record: each service occurs once.
    pub open spec fn wf(self) -> bool {
        unique_service_ids(self.services)
    }

    /// The record of a user that no event has touched yet.
    pub open spec fn empty(user_id: Seq<char>) -> UserRecordView {
        UserRecordView { user_id, services: Seq::empty() }
    }
}

/// One inbound activity event: a user has accessed a service at a time.
pub struct EventBody {
    pub user_id: String,
    pub service_id: String,
    pub service_name: String,
    pub timestamp: String,
}

/// The value of an [`EventBody`].
pub struct EventBodyView {
    pub user_id: Seq<char>,
    pub service_id: Seq<char>,
    pub service_name: Seq<char>,
    pub timestamp: Seq<char>,
}

impl View for EventBody {
    type V = EventBodyView;

    open spec fn view(&self) -> EventBodyView {
        EventBodyView {
            user_id: self.user_id@,
            service_id: self.service_id@,
            service_name: self.service_name@,
            timestamp: self.timestamp@,
        }
    }
}

impl EventBody {
    /// An event from its four fields. Mind the order: the service's name comes
    /// before its id.
    pub fn new(user_id: &str, service_name: &str, service_id: &str, timestamp: &str) -> (event:
        EventBody)
        ensures
            event@ == (EventBodyView {
                user_id: user_id@,
                service_id: service_id@,
                service_name: service_name@,
                timestamp: timestamp@,
            }),
    {
        EventBody {
            user_id: user_id.to_string(),
            service_id: service_id.to_string(),
            service_name: service_name.to_string(),
            timestamp: timestamp.to_string(),
        }
    }
}

impl UserRecord {
    /// A record from a user's id and services. The services are taken as they
    /// are: the record is well formed exactly if their ids are distinct.
    pub fn new(user_id: &str, services: Vec<ServiceRecord>) -> (record: UserRecord)
        ensures
            record@ == (UserRecordView { user_id: user_id@, services: services_view(services@) }),
            record.services == services,
            record@.wf() == unique_service_ids(services_view(services@)),
    {
        UserRecord { user_id: user_id.to_string(), services }
    }
}

impl ServiceRecord {
    /// A service record from its three fields.
    pub fn new(service_id: &str, service_name: &str, last_accessed: &str) -> (record:
        ServiceRecord)
        ensures
            record@ == (ServiceRecordView {
                service_id: service_id@,
                service_name: service_name@,
                last_accessed: last_accessed@,
            }),
    {
        ServiceRecord {
            service_id: service_id.to_string(),
            service_name: service_name.to_string(),
            last_accessed: last_accessed.to_string(),
        }
    }
}

impl Default for ServiceRecord {
    /// A sample record whose every field holds its own name.
    fn default() -> (record: ServiceRecord)
        ensures
            record@ == (ServiceRecordView {
                service_id: "service_id"@,
                service_name: "service_name"@,
                last_accessed: "last_accessed"@,
            }),
    {
        ServiceRecord::new("service_id", "service_name", "last_accessed")
    }
}

impl Default for UserRecord {
    /// A sample record: the user `user_id` with the one sample service.
    fn default() -> (record: UserRecord)
        ensures
            record@ == (UserRecordView {
                user_id: "user_id"@,
                services: seq![
                    ServiceRecordView {
                        service_id: "service_id"@,
                        service_name: "service_name"@,
                        last_accessed: "last_accessed"@,
                    },
                ],
            }),
            record@.wf(),
    {
        let sample = ServiceRecord::default();
        let ghost sample_view = sample@;
        let mut services: Vec<ServiceRecord> = Vec::new();
        services.push(sample);
        assert(services_view(services@) =~= seq![sample_view]);
        UserRecord::new("user_id", services)
    }
}

impl PartialEq for ServiceRecord {
    fn eq(&self, other: &Self) -> (same: bool) {
        self.service_id == other.service_id && self.service_name == other.service_name
            && self.last_accessed == other.last_accessed
    }
}

impl vstd::std_specs::cmp::PartialEqSpecImpl for ServiceRecord {
    open spec fn obeys_eq_spec() -> bool {
        true
    }

    /// Two service records are equal when their three fields are.
    open spec fn eq_spec(&self, other: &Self) -> bool {
        self@ == other@
    }
}

impl PartialEq for UserRecord {
    fn eq(&self, other: &Self) -> (same: bool) {
        if !(self.user_id == other.user_id) {
            return false;
        }
        if self.services.len() != other.services.len() {
            assert(self@.services.len() != other@.services.len());
            return false;
        }
        let mut i: usize = 0;
        while i < self.services.len()
            invariant
                i <= self.services.len(),
                self.services.len() == other.services.len(),
                forall|k: int| 0 <= k < i ==> (#[trigger] self@.services[k]) == other@.services[k],
            decreases self.services.len() - i,
        {
            if !(self.services[i] == other.services[i]) {
                assert(self@.services[i as int] != other@.services[i as int]);
                return false;
            }
            i += 1;
        }
        assert(self@.services =~= other@.services);
        true
    }
}

impl vstd::std_specs::cmp::PartialEqSpecImpl for UserRecord {
    open spec fn obeys_eq_spec() -> bool {
        true
    }

    /// Two records are equal when they are of the same user and hold the same
    /// services in the same order.
    open spec fn eq_spec(&self, other: &Self) -> bool {
        self@ == other@
    }
}

} // verus!
