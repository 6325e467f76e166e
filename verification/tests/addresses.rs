use hard_waste::address::{address_from_json, address_search_url, get_address_id};
use hard_waste::error::{JsonField, PipelineError, SchemaFault};
use hard_waste::response::Response;
use hard_waste::json::Json;
use hard_waste::record::Address;

fn ok(body: &str) -> Response {
    Response { status: 200, body: body.to_string() }
}

fn schema(field: JsonField, fault: SchemaFault) -> PipelineError {
    PipelineError::Schema { field, fault }
}

#[test]
fn empty_match_list_is_not_found() {
    assert_eq!(get_address_id(&ok(r#"{"Items": []}"#)), Ok(None));
}

#[test]
fn first_match_becomes_the_address() {
    let body = r#"{"Items":[{"Id":"1","AddressSingleLine":"1 Example St","LatLon":[-37.8,145.3]}]}"#;
    let address = get_address_id(&ok(body)).unwrap().unwrap();
    assert_eq!(address.id, "1");
    assert_eq!(address.line, "1 Example St");
    assert_eq!(f64::from_bits(address.lat_bits), -37.8);
    assert_eq!(f64::from_bits(address.lon_bits), 145.3);
}

#[test]
fn later_matches_are_ignored() {
    let body = r#"{"Items":[
        {"Id":"first","AddressSingleLine":"1 Example St","LatLon":[1.5,2.5]},
        {"Id":"second","AddressSingleLine":"2 Example St","LatLon":[3.5,4.5]},
        {"broken": true}
    ]}"#;
    let address = get_address_id(&ok(body)).unwrap().unwrap();
    assert_eq!(
        address,
        Address {
            id: "first".to_string(),
            line: "1 Example St".to_string(),
            lat_bits: 1.5f64.to_bits(),
            lon_bits: 2.5f64.to_bits(),
        }
    );
}

#[test]
fn missing_id_is_a_schema_failure() {
    let body = r#"{"Items":[{"AddressSingleLine":"x","LatLon":[1,2]}]}"#;
    assert_eq!(get_address_id(&ok(body)), Err(schema(JsonField::Id, SchemaFault::Missing)));
}

#[test]
fn whole_numbers_are_coordinates_too() {
    let body = r#"{"Items":[{"Id":"7","AddressSingleLine":"x","LatLon":[1,-2]}]}"#;
    let address = get_address_id(&ok(body)).unwrap().unwrap();
    assert_eq!(f64::from_bits(address.lat_bits), 1.0);
    assert_eq!(f64::from_bits(address.lon_bits), -2.0);
}

#[test]
fn items_that_go_beyond_the_pair_are_ignored() {
    let body = r#"{"Items":[{"Id":"7","AddressSingleLine":"x","LatLon":[1.25,2.75,"extra"]}]}"#;
    let address = get_address_id(&ok(body)).unwrap().unwrap();
    assert_eq!(f64::from_bits(address.lat_bits), 1.25);
    assert_eq!(f64::from_bits(address.lon_bits), 2.75);
}

#[test]
fn each_field_is_named_in_its_failure() {
    let cases: Vec<(&str, JsonField, SchemaFault)> = vec![
        (r#"{}"#, JsonField::Items, SchemaFault::Missing),
        (r#"{"items": []}"#, JsonField::Items, SchemaFault::Missing),
        (r#"[]"#, JsonField::Items, SchemaFault::Missing),
        (r#"{"Items": {}}"#, JsonField::Items, SchemaFault::WrongType),
        (r#"{"Items": "none"}"#, JsonField::Items, SchemaFault::WrongType),
        (r#"{"Items": null}"#, JsonField::Items, SchemaFault::WrongType),
        (r#"{"Items":[7]}"#, JsonField::Id, SchemaFault::Missing),
        (r#"{"Items":[{"Id":1,"AddressSingleLine":"x","LatLon":[1,2]}]}"#, JsonField::Id, SchemaFault::WrongType),
        (r#"{"Items":[{"Id":"1","LatLon":[1,2]}]}"#, JsonField::AddressSingleLine, SchemaFault::Missing),
        (r#"{"Items":[{"Id":"1","AddressSingleLine":null,"LatLon":[1,2]}]}"#, JsonField::AddressSingleLine, SchemaFault::WrongType),
        (r#"{"Items":[{"Id":"1","AddressSingleLine":"x"}]}"#, JsonField::LatLon, SchemaFault::Missing),
        (r#"{"Items":[{"Id":"1","AddressSingleLine":"x","LatLon":"1,2"}]}"#, JsonField::LatLon, SchemaFault::WrongType),
        (r#"{"Items":[{"Id":"1","AddressSingleLine":"x","LatLon":[]}]}"#, JsonField::LatLon, SchemaFault::MissingItem),
        (r#"{"Items":[{"Id":"1","AddressSingleLine":"x","LatLon":[1]}]}"#, JsonField::LatLon, SchemaFault::MissingItem),
        (r#"{"Items":[{"Id":"1","AddressSingleLine":"x","LatLon":["1",2]}]}"#, JsonField::LatLon, SchemaFault::WrongType),
        (r#"{"Items":[{"Id":"1","AddressSingleLine":"x","LatLon":[1,null]}]}"#, JsonField::LatLon, SchemaFault::WrongType),
    ];
    for (body, field, fault) in cases {
        assert_eq!(get_address_id(&ok(body)), Err(schema(field, fault)), "{}", body);
    }
}

#[test]
fn first_unreadable_field_decides() {
    let body = r#"{"Items":[{"Id":5,"LatLon":7}]}"#;
    assert_eq!(get_address_id(&ok(body)), Err(schema(JsonField::Id, SchemaFault::WrongType)));
    let body = r#"{"Items":[{"Id":"5","LatLon":7}]}"#;
    assert_eq!(
        get_address_id(&ok(body)),
        Err(schema(JsonField::AddressSingleLine, SchemaFault::Missing))
    );
}

#[test]
fn body_that_is_not_json_is_a_schema_failure() {
    for body in ["", "<html></html>", r#"{"Items": ["#, r#"{"Items": []} trailing"#] {
        assert_eq!(
            get_address_id(&ok(body)),
            Err(schema(JsonField::Document, SchemaFault::Malformed)),
            "{}",
            body
        );
    }
}

#[test]
fn status_outside_success_is_a_fetch_failure() {
    let body = r#"{"Items":[{"Id":"1","AddressSingleLine":"1 Example St","LatLon":[-37.8,145.3]}]}"#;
    for status in [0u16, 100, 199, 300, 301, 404, 500, 65535] {
        let response = Response { status, body: body.to_string() };
        assert_eq!(get_address_id(&response), Err(PipelineError::Fetch { status }));
    }
    for status in [200u16, 201, 204, 299] {
        let response = Response { status, body: body.to_string() };
        assert!(matches!(get_address_id(&response), Ok(Some(_))));
    }
}

#[test]
fn parsed_document_is_read_the_same_way() {
    let document = Json::Object(vec![(
        "Items".to_string(),
        Json::Array(vec![Json::Object(vec![
            ("LatLon".to_string(), Json::Array(vec![
                Json::Number(Some(10.5f64.to_bits())),
                Json::Number(Some(20.5f64.to_bits())),
            ])),
            ("AddressSingleLine".to_string(), Json::Text("9 Side Rd".to_string())),
            ("Id".to_string(), Json::Text("abc".to_string())),
        ])]),
    )]);
    assert_eq!(
        address_from_json(&document),
        Ok(Some(Address {
            id: "abc".to_string(),
            line: "9 Side Rd".to_string(),
            lat_bits: 10.5f64.to_bits(),
            lon_bits: 20.5f64.to_bits(),
        }))
    );
    assert_eq!(address_from_json(&Json::Object(vec![("Items".to_string(), Json::Array(vec![]))])), Ok(None));
    assert_eq!(
        address_from_json(&Json::Null),
        Err(schema(JsonField::Items, SchemaFault::Missing))
    );
}

#[test]
fn number_without_a_double_is_no_coordinate() {
    let document = Json::Object(vec![(
        "Items".to_string(),
        Json::Array(vec![Json::Object(vec![
            ("Id".to_string(), Json::Text("abc".to_string())),
            ("AddressSingleLine".to_string(), Json::Text("9 Side Rd".to_string())),
            ("LatLon".to_string(), Json::Array(vec![Json::Number(None), Json::Number(Some(0))])),
        ])]),
    )]);
    assert_eq!(
        address_from_json(&document),
        Err(schema(JsonField::LatLon, SchemaFault::WrongType))
    );
}

#[test]
fn spaces_in_a_search_are_encoded() {
    assert_eq!(
        address_search_url("main street emerald"),
        "https://www.yarraranges.vic.gov.au/api/v1/myarea/search?keywords=main%20street%20emerald"
    );
    assert_eq!(
        address_search_url(" a  b "),
        "https://www.yarraranges.vic.gov.au/api/v1/myarea/search?keywords=%20a%20%20b%20"
    );
    assert_eq!(
        address_search_url(""),
        "https://www.yarraranges.vic.gov.au/api/v1/myarea/search?keywords="
    );
    assert_eq!(
        address_search_url("o'brien&co\trd"),
        "https://www.yarraranges.vic.gov.au/api/v1/myarea/search?keywords=o'brien&co\trd"
    );
}
