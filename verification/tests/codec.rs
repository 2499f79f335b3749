use user_services::codec::{
    as_service_record, decode, encode, get_value, DecodeError, ToAttributeValue,
};
use user_services::model::{ServiceRecord, UserRecord};
use user_services::store::{ItemOutput, ToUserRecord};
use user_services::tree::AttributeTree;

fn s(text: &str) -> AttributeTree {
    AttributeTree::S(text.to_string())
}

fn entry(name: &str, tree: AttributeTree) -> (String, AttributeTree) {
    (name.to_string(), tree)
}

fn service_map(id: &str, name: &str, at: &str) -> AttributeTree {
    AttributeTree::M(vec![
        entry("service_id", s(id)),
        entry("service_name", s(name)),
        entry("last_accessed", s(at)),
    ])
}

fn item(user_id: &str, services: Vec<AttributeTree>) -> AttributeTree {
    AttributeTree::M(vec![
        entry("user_id", s(user_id)),
        entry("services", AttributeTree::L(services)),
    ])
}

fn missing(name: &str) -> DecodeError {
    DecodeError::MissingField(name.to_string())
}

fn wrong(name: &str) -> DecodeError {
    DecodeError::WrongType(name.to_string())
}

fn build_find_user_output() -> ItemOutput {
    ItemOutput {
        item: Some(AttributeTree::M(vec![
            ("user_id".to_string(), AttributeTree::S("user_id".to_string())),
            (
                "services".to_string(),
                AttributeTree::L(vec![AttributeTree::M(vec![
                    (
                        "service_id".to_string(),
                        AttributeTree::S("service_id".to_string()),
                    ),
                    (
                        "service_name".to_string(),
                        AttributeTree::S("service_name".to_string()),
                    ),
                    (
                        "last_accessed".to_string(),
                        AttributeTree::S("last_accessed".to_string()),
                    ),
                ])]),
            ),
        ])),
    }
}

#[test]
fn test_to_user_record_decodes_get_item() {
    let item = build_find_user_output();
    let expected_user_record = UserRecord::default();
    assert_eq!(item.to_user_record().unwrap().unwrap(), expected_user_record);
}

#[test]
fn test_to_user_record_handles_no_item() {
    let item = ItemOutput { item: None };
    assert!(item.to_user_record().unwrap().is_none());
}

#[test]
fn test_service_record_to_attribute_value() {
    let service_record = ServiceRecord::default();
    let expected = AttributeTree::M(vec![
        (
            "service_id".to_string(),
            AttributeTree::S("service_id".to_string()),
        ),
        (
            "service_name".to_string(),
            AttributeTree::S("service_name".to_string()),
        ),
        (
            "last_accessed".to_string(),
            AttributeTree::S("last_accessed".to_string()),
        ),
    ]);
    assert!(service_record.to_attribute_value() == expected);
}

#[test]
fn test_user_record_to_attribute_valuet() {
    let user_record = UserRecord::default();
    let expected = AttributeTree::M(vec![
        ("user_id".to_string(), AttributeTree::S("user_id".to_string())),
        (
            "services".to_string(),
            AttributeTree::L(vec![AttributeTree::M(vec![
                (
                    "service_id".to_string(),
                    AttributeTree::S("service_id".to_string()),
                ),
                (
                    "service_name".to_string(),
                    AttributeTree::S("service_name".to_string()),
                ),
                (
                    "last_accessed".to_string(),
                    AttributeTree::S("last_accessed".to_string()),
                ),
            ])]),
        ),
    ]);

    assert!(user_record.to_attribute_value() == expected);
}

#[test]
fn user_record_to_attribute_value_is_the_stored_item() {
    let record = UserRecord::new(
        "u1",
        vec![ServiceRecord::new("s1", "svc1", "100"), ServiceRecord::new("s2", "svc2", "150")],
    );
    let tree = record.to_attribute_value();
    assert_eq!(tree, encode(&record));
    assert_eq!(tree.get("user_id"), Some(&s("u1")));
    assert_eq!(
        tree.get("services"),
        Some(&AttributeTree::L(vec![
            ServiceRecord::new("s1", "svc1", "100").to_attribute_value(),
            ServiceRecord::new("s2", "svc2", "150").to_attribute_value(),
        ]))
    );
    match &tree {
        AttributeTree::M(fields) => assert_eq!(fields.len(), 2),
        _ => panic!("a record is stored as a map"),
    }
    assert_eq!(record.user_id, "u1");
    assert_eq!(record.services.len(), 2);
}

#[test]
fn user_record_to_attribute_value_keeps_the_user() {
    let a = UserRecord::new("u1", vec![]);
    let b = UserRecord::new("u2", vec![]);
    assert!(a.to_attribute_value() != b.to_attribute_value());
    assert_eq!(a.to_attribute_value(), UserRecord::new("u1", vec![]).to_attribute_value());
}

#[test]
fn user_record_to_attribute_value_round_trips() {
    let record = UserRecord::new("u1", vec![ServiceRecord::new("s1", "svc1", "100")]);
    let tree = record.to_attribute_value();
    let back = decode(&tree).unwrap();
    assert_eq!(back, record);
    assert_eq!(back.to_attribute_value(), tree);
}

#[test]
fn value_of_another_kind_is_of_the_wrong_type_where_a_record_has_a_field() {
    let tree = AttributeTree::M(vec![
        entry("user_id", AttributeTree::Other),
        entry("services", AttributeTree::Other),
    ]);
    assert_eq!(decode(&tree), Err(wrong("user_id")));
    let tree = AttributeTree::M(vec![entry("user_id", s("u1")), entry("services", AttributeTree::Other)]);
    assert_eq!(decode(&tree), Err(wrong("services")));
    assert_eq!(decode(&item("u1", vec![AttributeTree::Other])), Err(wrong("services")));
    let service = AttributeTree::M(vec![
        entry("service_id", s("s1")),
        entry("service_name", AttributeTree::Other),
        entry("last_accessed", AttributeTree::Other),
    ]);
    assert_eq!(decode(&item("u1", vec![service])), Err(wrong("service_name")));
    assert_eq!(decode(&AttributeTree::Other), Err(missing("user_id")));
    assert_eq!(as_service_record(&AttributeTree::Other), Err(wrong("services")));
    let tree = AttributeTree::M(vec![entry("ttl", AttributeTree::Other)]);
    assert_eq!(get_value(&tree, "ttl"), Err(wrong("ttl")));
    assert_eq!(AttributeTree::Other.get("ttl"), None);
}

#[test]
fn value_of_another_kind_in_a_field_of_no_record_is_passed_over() {
    let tree = AttributeTree::M(vec![
        entry("ttl", AttributeTree::Other),
        entry("user_id", s("u1")),
        entry(
            "services",
            AttributeTree::L(vec![AttributeTree::M(vec![
                entry("service_id", s("s1")),
                entry("weight", AttributeTree::Other),
                entry("service_name", s("svc1")),
                entry("last_accessed", s("100")),
            ])]),
        ),
    ]);
    assert_eq!(
        decode(&tree),
        Ok(UserRecord::new("u1", vec![ServiceRecord::new("s1", "svc1", "100")]))
    );
}

#[test]
fn test_as_service_record() {
    let input = ServiceRecord::default().to_attribute_value();
    let expected = ServiceRecord::default();

    assert_eq!(as_service_record(&input).unwrap(), expected)
}

#[test]
fn to_user_record_reports_an_item_that_holds_no_record() {
    let output = ItemOutput { item: Some(AttributeTree::M(vec![entry("user_id", s("u1"))])) };
    assert_eq!(output.to_user_record(), Err(missing("services")));
}

#[test]
fn encode_gives_the_stored_item_shape() {
    let record = UserRecord::new(
        "u1",
        vec![ServiceRecord::new("s1", "svc1", "100"), ServiceRecord::new("s2", "svc2", "150")],
    );
    let expected = item(
        "u1",
        vec![service_map("s1", "svc1", "100"), service_map("s2", "svc2", "150")],
    );
    assert_eq!(encode(&record), expected);
}

#[test]
fn encode_of_a_record_without_services_has_an_empty_list() {
    let record = UserRecord::new("u1", vec![]);
    assert_eq!(encode(&record), item("u1", vec![]));
}

#[test]
fn decode_gives_back_what_encode_was_given() {
    let records = vec![
        UserRecord::new("u1", vec![]),
        UserRecord::new("", vec![ServiceRecord::new("", "", "")]),
        UserRecord::default(),
        UserRecord::new(
            "u2",
            vec![
                ServiceRecord::new("s3", "svc3", "300"),
                ServiceRecord::new("s1", "svc1", "100"),
                ServiceRecord::new("s2", "svc2", "200"),
            ],
        ),
    ];
    for record in &records {
        assert_eq!(decode(&encode(record)).as_ref(), Ok(record));
    }
}

#[test]
fn encode_gives_back_what_decode_was_given() {
    let tree = encode(&UserRecord::new(
        "u1",
        vec![ServiceRecord::new("s1", "svc1", "100"), ServiceRecord::new("s2", "svc2", "150")],
    ));
    let again = encode(&decode(&tree).unwrap());
    assert_eq!(again, tree);
}

#[test]
fn decode_reads_fields_in_any_order() {
    let tree = AttributeTree::M(vec![
        entry(
            "services",
            AttributeTree::L(vec![AttributeTree::M(vec![
                entry("last_accessed", s("100")),
                entry("service_name", s("svc1")),
                entry("unrelated", AttributeTree::L(vec![])),
                entry("service_id", s("s1")),
            ])]),
        ),
        entry("user_id", s("u1")),
    ]);
    assert_eq!(
        decode(&tree),
        Ok(UserRecord::new("u1", vec![ServiceRecord::new("s1", "svc1", "100")]))
    );
}

#[test]
fn decode_of_an_empty_services_list_is_a_record_without_services() {
    let record = decode(&item("u1", vec![])).unwrap();
    assert_eq!(record.user_id, "u1");
    assert_eq!(record.services.len(), 0);
}

#[test]
fn decode_without_services_field_is_missing_field() {
    let tree = AttributeTree::M(vec![entry("user_id", s("u1"))]);
    assert_eq!(decode(&tree), Err(DecodeError::MissingField("services".to_string())));
}

#[test]
fn decode_without_user_id_is_missing_field() {
    let tree = AttributeTree::M(vec![entry("services", AttributeTree::L(vec![]))]);
    assert_eq!(decode(&tree), Err(missing("user_id")));
    assert_eq!(decode(&AttributeTree::M(vec![])), Err(missing("user_id")));
}

#[test]
fn decode_of_a_tree_that_is_no_map_misses_user_id() {
    assert_eq!(decode(&s("u1")), Err(missing("user_id")));
    assert_eq!(decode(&AttributeTree::L(vec![])), Err(missing("user_id")));
}

#[test]
fn decode_of_a_user_id_that_is_no_string_is_wrong_type() {
    let tree = AttributeTree::M(vec![
        entry("user_id", AttributeTree::L(vec![])),
        entry("services", AttributeTree::L(vec![])),
    ]);
    assert_eq!(decode(&tree), Err(wrong("user_id")));
    let tree = AttributeTree::M(vec![entry("user_id", AttributeTree::M(vec![]))]);
    assert_eq!(decode(&tree), Err(wrong("user_id")));
}

#[test]
fn decode_of_services_that_are_no_list_is_wrong_type() {
    let tree = AttributeTree::M(vec![entry("user_id", s("u1")), entry("services", s("none"))]);
    assert_eq!(decode(&tree), Err(wrong("services")));
    let tree = AttributeTree::M(vec![
        entry("user_id", s("u1")),
        entry("services", service_map("s1", "svc1", "100")),
    ]);
    assert_eq!(decode(&tree), Err(wrong("services")));
}

#[test]
fn decode_of_a_service_that_is_no_map_is_wrong_type_of_services() {
    let tree = item("u1", vec![service_map("s1", "svc1", "100"), s("s2")]);
    assert_eq!(decode(&tree), Err(wrong("services")));
    let tree = item("u1", vec![AttributeTree::L(vec![])]);
    assert_eq!(decode(&tree), Err(wrong("services")));
}

#[test]
fn decode_reports_the_first_service_field_at_fault() {
    let no_id = AttributeTree::M(vec![
        entry("service_name", s("svc1")),
        entry("last_accessed", s("100")),
    ]);
    assert_eq!(decode(&item("u1", vec![no_id])), Err(missing("service_id")));
    let no_name = AttributeTree::M(vec![entry("service_id", s("s1"))]);
    assert_eq!(decode(&item("u1", vec![no_name])), Err(missing("service_name")));
    let no_time =
        AttributeTree::M(vec![entry("service_id", s("s1")), entry("service_name", s("svc1"))]);
    assert_eq!(decode(&item("u1", vec![no_time])), Err(missing("last_accessed")));
    let name_is_list = AttributeTree::M(vec![
        entry("service_id", s("s1")),
        entry("service_name", AttributeTree::L(vec![])),
    ]);
    assert_eq!(decode(&item("u1", vec![name_is_list])), Err(wrong("service_name")));
    let id_is_map = AttributeTree::M(vec![entry("service_id", AttributeTree::M(vec![]))]);
    assert_eq!(decode(&item("u1", vec![id_is_map])), Err(wrong("service_id")));
    let time_is_list = AttributeTree::M(vec![
        entry("service_id", s("s1")),
        entry("service_name", s("svc1")),
        entry("last_accessed", AttributeTree::L(vec![s("100")])),
    ]);
    assert_eq!(decode(&item("u1", vec![time_is_list])), Err(wrong("last_accessed")));
}

#[test]
fn decode_reports_the_first_service_at_fault() {
    let first = AttributeTree::M(vec![entry("service_id", s("s1"))]);
    let second = s("no map");
    let tree = item("u1", vec![service_map("s0", "svc0", "1"), first, second]);
    assert_eq!(decode(&tree), Err(missing("service_name")));
}

#[test]
fn decode_looks_at_user_id_before_services() {
    let tree = AttributeTree::M(vec![entry("user_id", AttributeTree::L(vec![]))]);
    assert_eq!(decode(&tree), Err(wrong("user_id")));
}

#[test]
fn as_service_record_of_no_map_is_wrong_type_of_services() {
    assert_eq!(as_service_record(&s("s1")), Err(wrong("services")));
    assert_eq!(as_service_record(&AttributeTree::L(vec![])), Err(wrong("services")));
}

#[test]
fn as_service_record_reads_the_three_fields() {
    let record = as_service_record(&service_map("s1", "svc1", "100")).unwrap();
    assert_eq!(record, ServiceRecord::new("s1", "svc1", "100"));
    assert_eq!(as_service_record(&AttributeTree::M(vec![])), Err(missing("service_id")));
}

#[test]
fn get_value_reads_a_string_field() {
    let tree = service_map("s1", "svc1", "100");
    assert_eq!(get_value(&tree, "service_name"), Ok("svc1".to_string()));
    assert_eq!(get_value(&tree, "nothing"), Err(missing("nothing")));
    assert_eq!(get_value(&s("text"), "service_id"), Err(missing("service_id")));
    let nested = AttributeTree::M(vec![entry("inner", service_map("s1", "svc1", "100"))]);
    assert_eq!(get_value(&nested, "inner"), Err(wrong("inner")));
}
