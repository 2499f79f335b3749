//! The codec between records and attribute trees.
//!
//! A stored item is a map with the string field `user_id` and the list field
//! `services`; each element of the list is a map with the three string fields
//! `service_id`, `service_name` and `last_accessed`. `record_tree` says which
//! tree a record is stored as, `tree_record` which record a tree holds and how
//! a tree of another shape is refused. The executable functions are proved
//! against the two, and so are the laws of the round trip.

use vstd::prelude::*;
use crate::model::{ServiceRecord, ServiceRecordView, UserRecord, UserRecordView, services_view};
use crate::tree::{
    AttributeTree,
    TreeView,
    distinct_names,
    items_view,
    lemma_fields_view_push,
    lemma_items_view,
    lemma_items_view_push,
};

verus! {

/// Why a tree is not the tree of a record.
#[derive(Debug, PartialEq)]
pub enum DecodeError {
    /// The field of this name is not there.
    MissingField(String),
    /// The field of this name is there, and is not of the kind it has to be.
    WrongType(String),
}

/// The value of a [`DecodeError`].
pub enum DecodeErrorView {
    MissingField(Seq<char>),
    WrongType(Seq<char>),
}

impl View for DecodeError {
    type V = DecodeErrorView;

    open spec fn view(&self) -> DecodeErrorView {
        match self {
            DecodeError::MissingField(name) => DecodeErrorView::MissingField(name@),
            DecodeError::WrongType(name) => DecodeErrorView::WrongType(name@),
        }
    }
}

/// The value of a result, side by side.
pub open spec fn result_view<T: View, E: View>(result: Result<T, E>) -> Result<T::V, E::V> {
    match result {
        Ok(value) => Ok(value@),
        Err(error) => Err(error@),
    }
}

/// The tree that one service is stored as.
pub open spec fn service_tree(service: ServiceRecordView) -> TreeView {
    TreeView::M(
        map![
            "service_id"@ => TreeView::S(service.service_id),
            "service_name"@ => TreeView::S(service.service_name),
            "last_accessed"@ => TreeView::S(service.last_accessed),
        ],
    )
}

/// The list that the services of a record are stored as.
pub open spec fn services_tree(services: Seq<ServiceRecordView>) -> TreeView {
    TreeView::L(services.map_values(|service: ServiceRecordView| service_tree(service)))
}

/// The tree that a record is stored as.
pub open spec fn record_tree(record: UserRecordView) -> TreeView {
    TreeView::M(
        map![
            "user_id"@ => TreeView::S(record.user_id),
            "services"@ => services_tree(record.services),
        ],
    )
}

/// The string in the field `name` of `tree`. A tree that is no map has no
/// fields.
pub open spec fn string_field(tree: TreeView, name: Seq<char>) -> Result<
    Seq<char>,
    DecodeErrorView,
> {
    match tree.field(name) {
        None => Err(DecodeErrorView::MissingField(name)),
        Some(TreeView::S(value)) => Ok(value),
        Some(_) => Err(DecodeErrorView::WrongType(name)),
    }
}

/// The service that an element of the `services` list holds. An element that
/// is no map makes the list ill-shaped; in a map the three fields are looked
/// at in the order id, name, time of access, and the first one that is
/// missing or no string is reported.
pub open spec fn tree_service(tree: TreeView) -> Result<ServiceRecordView, DecodeErrorView> {
    if !(tree is M) {
        Err(DecodeErrorView::WrongType("services"@))
    } else {
        match string_field(tree, "service_id"@) {
            Err(error) => Err(error),
            Ok(service_id) => match string_field(tree, "service_name"@) {
                Err(error) => Err(error),
                Ok(service_name) => match string_field(tree, "last_accessed"@) {
                    Err(error) => Err(error),
                    Ok(last_accessed) => Ok(
                        ServiceRecordView { service_id, service_name, last_accessed },
                    ),
                },
            },
        }
    }
}

/// The services that a list of elements holds, in the same order; or what is
/// wrong with the first element that holds none.
pub open spec fn tree_services(items: Seq<TreeView>) -> Result<
    Seq<ServiceRecordView>,
    DecodeErrorView,
>
    decreases items.len(),
{
    if items.len() == 0 {
        Ok(Seq::empty())
    } else {
        match tree_services(items.drop_last()) {
            Err(error) => Err(error),
            Ok(front) => match tree_service(items.last()) {
                Err(error) => Err(error),
                Ok(service) => Ok(front.push(service)),
            },
        }
    }
}

/// The record that a tree holds. `user_id` is looked at before `services`, and
/// `services` before its elements; the first thing found wrong is reported.
pub open spec fn tree_record(tree: TreeView) -> Result<UserRecordView, DecodeErrorView> {
    match string_field(tree, "user_id"@) {
        Err(error) => Err(error),
        Ok(user_id) => match tree.field("services"@) {
            None => Err(DecodeErrorView::MissingField("services"@)),
            Some(TreeView::L(items)) => match tree_services(items) {
                Err(error) => Err(error),
                Ok(services) => Ok(UserRecordView { user_id, services }),
            },
            Some(_) => Err(DecodeErrorView::WrongType("services"@)),
        },
    }
}

/// A value that is stored as an attribute tree.
pub trait ToAttributeValue {
    /// The tree that `self` is stored as.
    spec fn attribute_value(&self) -> TreeView;

    fn to_attribute_value(&self) -> (tree: AttributeTree)
        ensures
            tree@ == self.attribute_value(),
            tree.wf(),
    ;
}

impl ToAttributeValue for ServiceRecord {
    open spec fn attribute_value(&self) -> TreeView {
        service_tree(self@)
    }

    /// The map of the three fields of a service.
    fn to_attribute_value(&self) -> (tree: AttributeTree) {
        let mut fields: Vec<(String, AttributeTree)> = Vec::new();
        let id = ("service_id".to_string(), AttributeTree::S(self.service_id.clone()));
        let name = ("service_name".to_string(), AttributeTree::S(self.service_name.clone()));
        let time = ("last_accessed".to_string(), AttributeTree::S(self.last_accessed.clone()));
        proof {
            let none = Seq::<(String, AttributeTree)>::empty();
            lemma_fields_view_push(none, id.0, id.1);
            lemma_fields_view_push(none.push(id), name.0, name.1);
            lemma_fields_view_push(none.push(id).push(name), time.0, time.1);
            lemma_field_names_differ();
        }
        assert(id.1.wf() && name.1.wf() && time.1.wf());
        fields.push(id);
        fields.push(name);
        fields.push(time);
        AttributeTree::M(fields)
    }
}

/// The list of a run of services, each as its map.
fn services_list(services: &Vec<ServiceRecord>) -> (tree: AttributeTree)
    ensures
        tree@ == services_tree(services_view(services@)),
        tree.wf(),
{
    let mut items: Vec<AttributeTree> = Vec::new();
    let mut i: usize = 0;
    while i < services.len()
        invariant
            i <= services.len(),
            items_view(items@) == services_view(services@.take(i as int)).map_values(
                |service: ServiceRecordView| service_tree(service),
            ),
            forall|k: int| 0 <= k < items@.len() ==> (#[trigger] items@[k]).wf(),
        decreases services.len() - i,
    {
        let item = services[i].to_attribute_value();
        proof {
            lemma_items_view_push(items@, item);
        }
        items.push(item);
        i += 1;
    }
    assert(services@.take(i as int) =~= services@);
    AttributeTree::L(items)
}

impl ToAttributeValue for UserRecord {
    open spec fn attribute_value(&self) -> TreeView {
        record_tree(self@)
    }

    /// The stored item of a record: the map of its `user_id` and of the list
    /// of its services.
    fn to_attribute_value(&self) -> (tree: AttributeTree) {
        let mut fields: Vec<(String, AttributeTree)> = Vec::new();
        let user = ("user_id".to_string(), AttributeTree::S(self.user_id.clone()));
        let services = ("services".to_string(), services_list(&self.services));
        proof {
            let none = Seq::<(String, AttributeTree)>::empty();
            lemma_fields_view_push(none, user.0, user.1);
            lemma_fields_view_push(none.push(user), services.0, services.1);
            lemma_field_names_differ();
        }
        assert(user.1.wf());
        fields.push(user);
        fields.push(services);
        AttributeTree::M(fields)
    }
}

/// The stored item of a record: what `to_attribute_value` gives for it. It
/// holds the whole record: decoding it gives the record back.
pub fn encode(record: &UserRecord) -> (tree: AttributeTree)
    ensures
        tree@ == record_tree(record@),
        tree.wf(),
        holds_record(tree@, record@),
        tree_record(tree@) == Ok::<UserRecordView, DecodeErrorView>(record@),
{
    proof {
        lemma_stored_item_shape(record@);
        lemma_decode_encode(record@);
    }
    record.to_attribute_value()
}

/// The string in the field `key` of a map node.
///
/// Fails with `MissingField(key)` where `tree` has no such field, which is so
/// of every tree that is no map, and with `WrongType(key)` where the field
/// holds anything but a string: a list, a map, or a value of another kind.
pub fn get_value(tree: &AttributeTree, key: &str) -> (value: Result<String, DecodeError>)
    ensures
        result_view(value) == string_field(tree@, key@),
{
    match tree.get(key) {
        None => Err(DecodeError::MissingField(key.to_string())),
        Some(AttributeTree::S(value)) => Ok(value.clone()),
        Some(_) => Err(DecodeError::WrongType(key.to_string())),
    }
}

/// The service in an element of the `services` list.
///
/// Fails with `WrongType("services")` where `service` is no map; else with
/// `MissingField` or `WrongType` of the first of `service_id`, `service_name`,
/// `last_accessed` that is missing or no string.
pub fn as_service_record(service: &AttributeTree) -> (record: Result<ServiceRecord, DecodeError>)
    ensures
        result_view(record) == tree_service(service@),
{
    match service {
        AttributeTree::M(_) => {},
        _ => {
            return Err(DecodeError::WrongType("services".to_string()));
        },
    }
    let service_id = match get_value(service, "service_id") {
        Ok(value) => value,
        Err(error) => {
            return Err(error);
        },
    };
    let service_name = match get_value(service, "service_name") {
        Ok(value) => value,
        Err(error) => {
            return Err(error);
        },
    };
    let last_accessed = match get_value(service, "last_accessed") {
        Ok(value) => value,
        Err(error) => {
            return Err(error);
        },
    };
    Ok(ServiceRecord { service_id, service_name, last_accessed })
}

/// The record in a stored item.
///
/// Fails with `MissingField(name)` where `user_id` or `services` is not there,
/// and with `WrongType(name)` where `user_id` is no string, `services` is no
/// list, or an element of the list is no map (`name` is then `services`) or
/// holds a field that is no string. A value of a kind other than string, list
/// and map is of the wrong type wherever it stands for one of these; in a
/// field that no record has it is passed over, as any such field is. An empty
/// list gives a record without services. A tree that is no map has no fields:
/// its `user_id` is missing.
pub fn decode(tree: &AttributeTree) -> (record: Result<UserRecord, DecodeError>)
    ensures
        result_view(record) == tree_record(tree@),
{
    let user_id = match get_value(tree, "user_id") {
        Ok(value) => value,
        Err(error) => {
            return Err(error);
        },
    };
    let items = match tree.get("services") {
        None => {
            return Err(DecodeError::MissingField("services".to_string()));
        },
        Some(AttributeTree::L(items)) => items,
        Some(_) => {
            return Err(DecodeError::WrongType("services".to_string()));
        },
    };
    let mut services: Vec<ServiceRecord> = Vec::new();
    let mut i: usize = 0;
    proof {
        lemma_items_view(items@);
        assert(services_view(services@) =~= Seq::empty());
    }
    while i < items.len()
        invariant
            i <= items.len(),
            items_view(items@).len() == items.len(),
            forall|k: int| 0 <= k < items.len() ==> (#[trigger] items_view(items@)[k]) == items[k]@,
            tree_services(items_view(items@).take(i as int)) == Ok::<
                Seq<ServiceRecordView>,
                DecodeErrorView,
            >(services_view(services@)),
            tree.view().field("services"@) == Some(TreeView::L(items_view(items@))),
            string_field(tree@, "user_id"@) == Ok::<Seq<char>, DecodeErrorView>(user_id@),
        decreases items.len() - i,
    {
        let ghost all = items_view(items@);
        assert(all.take(i + 1).drop_last() =~= all.take(i as int));
        match as_service_record(&items[i]) {
            Err(error) => {
                proof {
                    lemma_tree_services_refused(all, i + 1);
                }
                return Err(error);
            },
            Ok(service) => {
                assert(services_view(services@.push(service)) =~= services_view(services@).push(
                    service@,
                ));
                services.push(service);
            },
        }
        i += 1;
    }
    assert(items_view(items@).take(i as int) =~= items_view(items@));
    Ok(UserRecord { user_id, services })
}

/// `tree` is a map that holds the three fields of `service` as strings. It
/// may hold other fields beside them.
pub open spec fn holds_service(tree: TreeView, service: ServiceRecordView) -> bool {
    &&& tree is M
    &&& tree.field("service_id"@) == Some(TreeView::S(service.service_id))
    &&& tree.field("service_name"@) == Some(TreeView::S(service.service_name))
    &&& tree.field("last_accessed"@) == Some(TreeView::S(service.last_accessed))
}

/// `tree` holds the user of `record` in its field `user_id`, and in its field
/// `services` a list that holds the services of `record`, one by one.
pub open spec fn holds_record(tree: TreeView, record: UserRecordView) -> bool {
    &&& tree.field("user_id"@) == Some(TreeView::S(record.user_id))
    &&& tree.field("services"@) matches Some(TreeView::L(items))
    &&& items.len() == record.services.len()
    &&& forall|i: int|
        0 <= i < items.len() ==> holds_service(#[trigger] items[i], record.services[i])
}

/// A list gives a run of services exactly if it holds them one by one.
pub proof fn lemma_tree_services_ok(items: Seq<TreeView>, services: Seq<ServiceRecordView>)
    ensures
        tree_services(items) == Ok::<Seq<ServiceRecordView>, DecodeErrorView>(services) <==> {
            &&& items.len() == services.len()
            &&& forall|i: int|
                0 <= i < items.len() ==> holds_service(#[trigger] items[i], services[i])
        },
    decreases items.len(),
{
    let held = {
        &&& items.len() == services.len()
        &&& forall|i: int| 0 <= i < items.len() ==> holds_service(#[trigger] items[i], services[i])
    };
    if items.len() == 0 {
        if held {
            assert(services =~= Seq::empty());
        }
    } else {
        let front = items.drop_last();
        if held {
            let fewer = services.drop_last();
            lemma_tree_services_ok(front, fewer);
            assert(fewer.push(services.last()) =~= services);
        }
        if tree_services(items) == Ok::<Seq<ServiceRecordView>, DecodeErrorView>(services) {
            let fewer = tree_services(front)->Ok_0;
            lemma_tree_services_ok(front, fewer);
            assert forall|i: int| 0 <= i < items.len() implies holds_service(
                #[trigger] items[i],
                services[i],
            ) by {
                if i < front.len() {
                    assert(holds_service(front[i], fewer[i]));
                }
            }
        }
    }
}

/// When a tree gives a record: exactly when it holds the record. Every other
/// tree is refused.
pub proof fn lemma_decode_ok(tree: TreeView, record: UserRecordView)
    ensures
        tree_record(tree) == Ok::<UserRecordView, DecodeErrorView>(record) <==> holds_record(
            tree,
            record,
        ),
{
    match tree.field("services"@) {
        Some(TreeView::L(items)) => {
            lemma_tree_services_ok(items, record.services);
        },
        _ => {},
    }
}

/// A service comes back from its tree.
pub proof fn lemma_service_round_trip(service: ServiceRecordView)
    ensures
        tree_service(service_tree(service)) == Ok::<ServiceRecordView, DecodeErrorView>(service),
{
    lemma_field_names_differ();
}

/// The services of a record come back from their list, in their order.
pub proof fn lemma_services_round_trip(services: Seq<ServiceRecordView>)
    ensures
        services_tree(services) matches TreeView::L(items) && tree_services(items) == Ok::<
            Seq<ServiceRecordView>,
            DecodeErrorView,
        >(services),
    decreases services.len(),
{
    let to_tree = |service: ServiceRecordView| service_tree(service);
    let items = services.map_values(to_tree);
    if services.len() == 0 {
        assert(services =~= Seq::empty());
    } else {
        lemma_services_round_trip(services.drop_last());
        lemma_service_round_trip(services.last());
        assert(items.drop_last() =~= services.drop_last().map_values(to_tree));
        assert(services.drop_last().push(services.last()) =~= services);
    }
}

/// The round trip of a record: decoding the tree that a record is stored as
/// gives the record back, whatever the record.
pub proof fn lemma_decode_encode(record: UserRecordView)
    ensures
        tree_record(record_tree(record)) == Ok::<UserRecordView, DecodeErrorView>(record),
{
    lemma_field_names_differ();
    lemma_services_round_trip(record.services);
}

/// The shape of a stored item: a map of the two fields `user_id` and
/// `services` and of no other, which holds the record.
pub proof fn lemma_stored_item_shape(record: UserRecordView)
    ensures
        record_tree(record) matches TreeView::M(fields) && fields.dom() == set![
            "user_id"@,
            "services"@,
        ],
        record_tree(record).field("user_id"@) == Some(TreeView::S(record.user_id)),
        record_tree(record).field("services"@) == Some(services_tree(record.services)),
        holds_record(record_tree(record), record),
{
    lemma_field_names_differ();
    lemma_decode_encode(record);
    lemma_decode_ok(record_tree(record), record);
    assert(record_tree(record)->M_0.dom() =~= set!["user_id"@, "services"@]);
}

/// The stored item loses nothing of a record: two records that are stored as
/// the same tree are the same record.
pub proof fn lemma_record_tree_one_to_one(one: UserRecordView, other: UserRecordView)
    requires
        record_tree(one) == record_tree(other),
    ensures
        one == other,
{
    lemma_decode_encode(one);
    lemma_decode_encode(other);
}

/// The round trip of a tree: a tree that some record is stored as holds a
/// record, and that record is stored as the same tree.
pub proof fn lemma_encode_decode(tree: TreeView)
    requires
        exists|record: UserRecordView| tree == record_tree(record),
    ensures
        tree_record(tree) is Ok,
        record_tree(tree_record(tree)->Ok_0) == tree,
{
    let record = choose|record: UserRecordView| tree == record_tree(record);
    lemma_decode_encode(record);
}

/// The names of the fields differ from one another.
pub proof fn lemma_field_names_differ()
    ensures
        "user_id"@ != "services"@,
        "service_id"@ != "service_name"@,
        "service_id"@ != "last_accessed"@,
        "service_name"@ != "last_accessed"@,
{
    reveal_strlit("user_id");
    reveal_strlit("services");
    reveal_strlit("service_id");
    reveal_strlit("service_name");
    reveal_strlit("last_accessed");
    assert("user_id"@.len() != "services"@.len());
    assert("service_name"@.len() != "last_accessed"@.len());
}

/// Once a front part of a list is refused, the list is refused for the same
/// reason.
proof fn lemma_tree_services_refused(items: Seq<TreeView>, k: int)
    requires
        0 <= k <= items.len(),
        tree_services(items.take(k)) is Err,
    ensures
        tree_services(items) == tree_services(items.take(k)),
    decreases items.len() - k,
{
    if k == items.len() {
        assert(items.take(k) =~= items);
    } else {
        assert(items.take(k + 1).drop_last() =~= items.take(k));
        lemma_tree_services_refused(items, k + 1);
    }
}

} // verus!
