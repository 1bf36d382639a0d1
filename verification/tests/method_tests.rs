//! Method extraction and type resolution.

use qbittorrent_web_api_gen::md_parser::{TableRow, TokenTreeFactory};
use qbittorrent_web_api_gen::parser::method::{CompositeTypes, EnumValue, Tables};
use qbittorrent_web_api_gen::parser::ApiMethod;
use qbittorrent_web_api_gen::parser::parameters::parse_parameter;
use qbittorrent_web_api_gen::types::{extract_type, RefType, Type, TypeDescription};

fn method_node_input(body: &str) -> String {
    format!("## Method section\n\n{}", body)
}

fn parse_method(body: &str) -> ApiMethod {
    let input = method_node_input(body);
    let tree = TokenTreeFactory::create(&input).unwrap();
    ApiMethod::try_new(&tree.children[0]).unwrap().unwrap()
}

#[test]
fn search_result() {
    let body = "Name: `results`\n\nThe response is a JSON object with the following fields\n\nField | Type | Description\n---|---|---\nresults | array | Array of result objects- see table below\ntotal | int | Total number of results\n\n**Result object:**\n\nField | Type | Description\n---|---|---\nfileName | string | File name\n";
    let method = parse_method(body);
    assert_eq!(method.name, "results");
    assert_eq!(method.url, "results");
    let rt = method.return_type.unwrap();
    assert!(!rt.is_list);
    assert_eq!(rt.parameters.len(), 2);
    assert_eq!(rt.parameters[0].name, "results");
    match &rt.parameters[0].return_type {
        Type::Object(o) => assert_eq!(o.ref_type, RefType::String("Result".into())),
        other => panic!("expected an object reference, found {:?}", other),
    }
    assert!(matches!(rt.parameters[1].return_type, Type::Number(_)));

    // the auxiliary table registers a named object type
    let input = method_node_input(body);
    let tree = TokenTreeFactory::create(&input).unwrap();
    let tables = Tables::from(&tree.children[0]).unwrap();
    let composite = CompositeTypes::new(&tables);
    let objects = composite.objects();
    assert_eq!(objects.len(), 1);
    assert_eq!(objects[0].name, "Result");
    assert_eq!(objects[0].types.len(), 1);
    assert!(composite.response().is_some());
}

#[test]
fn enum_test() {
    // a return row whose name matches an enumeration heading carries the
    // enumeration's value set instead of staying a plain string
    let body = "Name: `info`\n\nThe response is a JSON array of objects\n\nProperty | Type | Description\n---|---|---\nstate | string | Torrent state\n\nPossible values of `state`:\n\nValue | Description\n---|---\nerror | Some error occurred\nuploading | Torrent is being seeded\n";
    let method = parse_method(body);
    let rt = method.return_type.unwrap();
    assert_eq!(rt.parameters.len(), 1);
    let field = &rt.parameters[0];
    assert_eq!(field.name, "state");
    let info = field.return_type.get_type_info();
    let values = &info.type_description.as_ref().unwrap().values;
    assert_eq!(values.len(), 2);
    assert_eq!(values[0].value, "error");
    assert_eq!(values[0].description, "Some error occurred");
    assert_eq!(values[1].value, "uploading");
}

#[test]
fn array_result() {
    // the announcing sentence mentions an array, so the response is a list
    let body = "Name: `info`\n\nThe response is an array of torrent objects\n\nProperty | Type | Description\n---|---|---\nhash | string | Torrent hash\n";
    let method = parse_method(body);
    let rt = method.return_type.unwrap();
    assert!(rt.is_list);
    assert_eq!(rt.parameters.len(), 1);
    assert!(matches!(rt.parameters[0].return_type, Type::String(_)));
}

#[test]
fn array_field() {
    let body = "Name: `maindata`\n\nThe response is a JSON object\n\nProperty | Type | Description\n---|---|---\ntags | array | Array of tag objects\nnames | array | plain list of names\n";
    let method = parse_method(body);
    let rt = method.return_type.unwrap();
    match &rt.parameters[0].return_type {
        Type::Object(o) => {
            assert_eq!(o.ref_type, RefType::String("Tag".into()));
            assert!(o.type_info.is_list);
        }
        other => panic!("expected an object reference, found {:?}", other),
    }
    match &rt.parameters[1].return_type {
        Type::StringArray(info) => assert!(info.is_list),
        other => panic!("expected a string array, found {:?}", other),
    }
}

#[test]
fn ref_type() {
    let body = "Name: `maindata`\n\nThe response is a JSON object\n\nProperty | Type | Description\n---|---|---\ntorrents | object | map from hash to Torrent object\n";
    let method = parse_method(body);
    let rt = method.return_type.unwrap();
    match &rt.parameters[0].return_type {
        Type::Object(o) => {
            assert_eq!(o.ref_type, RefType::KeyValue("Hash".into(), "Torrent".into()));
        }
        other => panic!("expected a map reference, found {:?}", other),
    }
}

#[test]
fn test_regex() {
    let input = Some("Array of result objects- see table below".to_string());
    let res = extract_type(&input);
    assert_eq!(res.unwrap(), RefType::String("Result".into()));
}

#[test]
fn default_in_description_makes_a_parameter_optional() {
    // {name: "normal", type: "bool", description: "default: true"}
    let row = TableRow {
        raw: "normal | bool | default: true".into(),
        columns: vec!["normal".into(), "bool".into(), "default: true".into()],
    };
    let empty: Vec<(String, TypeDescription)> = Vec::new();
    let t = parse_parameter(&row, &empty).unwrap();
    assert!(matches!(t, Type::Bool(_)));
    assert!(t.is_optional());
    assert!(!t.is_list());
    assert_eq!(t.get_type_info().name, "normal");
}

#[test]
fn row_without_default_is_mandatory() {
    let row = TableRow {
        raw: "hash | string | Torrent hash".into(),
        columns: vec!["hash".into(), "string".into(), "Torrent hash".into()],
    };
    let empty: Vec<(String, TypeDescription)> = Vec::new();
    let t = parse_parameter(&row, &empty).unwrap();
    assert!(matches!(t, Type::String(_)));
    assert!(!t.is_optional());
    assert_eq!(t.get_type_info().name, "hash");
}

#[test]
fn unknown_type_strings_are_rejected() {
    let empty: Vec<(String, TypeDescription)> = Vec::new();
    assert!(Type::from("raw", "data", None, &empty).is_none());
    assert!(Type::from("mystery", "data", None, &empty).is_none());
    assert!(Type::from("integer", "id", None, &empty).is_some());
    assert!(Type::from("float", "ratio", None, &empty).is_some());
}

#[test]
fn generated_type_names() {
    let empty: Vec<(String, TypeDescription)> = Vec::new();
    let number = Type::from("int", "id", None, &empty).unwrap();
    assert_eq!(number.to_owned_type(), "i128");
    assert_eq!(number.to_borrowed_type(), "i32");
    assert!(!number.should_borrow());
    let text = Type::from("string", "name", None, &empty).unwrap();
    assert_eq!(text.to_owned_type(), "String");
    assert_eq!(text.to_borrowed_type(), "str");
    assert!(text.should_borrow());
}

#[test]
fn enum_value_from_word_is_camel_cased() {
    let row = TableRow {
        raw: "force_start | Forced start".into(),
        columns: vec!["force_start".into(), "Forced start".into()],
    };
    let v = EnumValue::from(&row);
    assert_eq!(v.original_value, "force_start");
    assert_eq!(v.value, "ForceStart");
    assert_eq!(v.description, Some("Forced start".into()));
}

#[test]
fn enum_value_from_number_uses_its_description() {
    let row = TableRow {
        raw: "1 | Some description (ignored)".into(),
        columns: vec!["1".into(), "Some description (ignored)".into()],
    };
    let v = EnumValue::from(&row);
    assert_eq!(v.original_value, "1");
    assert_eq!(v.value, "SomeDescription");
}

#[test]
fn parameters_are_split_by_optionality() {
    let body = "Name: `main`\n\n**Parameters:**\n\nParameter | Type | Description\n---|---|---\nhash | string | Torrent hash\nnormal | bool | default: true\n";
    let method = parse_method(body);
    let params = method.parameters.unwrap();
    assert_eq!(params.mandatory.len(), 1);
    assert_eq!(params.mandatory[0].get_type_info().name, "hash");
    assert_eq!(params.optional.len(), 1);
    assert_eq!(params.optional[0].get_type_info().name, "normal");
    assert!(method.return_type.is_none());
}

#[test]
fn a_node_without_the_name_marker_is_no_method() {
    let input = "## Prose section\n\nJust words here.\n";
    let tree = TokenTreeFactory::create(input).unwrap();
    assert!(ApiMethod::try_new(&tree.children[0]).unwrap().is_none());
}

#[test]
fn method_description_follows_the_returns_block() {
    let body = "Name: `main`\n\n**Returns:**\n\nHTTP Status | Scenario\n---|---\n200 | All scenarios\n\nThe log is plain text.\nOne line per entry.\n";
    let method = parse_method(body);
    assert_eq!(
        method.description,
        Some("The log is plain text.\nOne line per entry.".to_string())
    );
}

#[test]
fn list_in_the_description_marks_a_list() {
    let empty: Vec<(String, TypeDescription)> = Vec::new();
    let t = Type::from("string", "tags", Some("a list of tags".into()), &empty).unwrap();
    assert!(t.is_list());
    let t = Type::from("string", "tag", Some("One tag".into()), &empty).unwrap();
    assert!(!t.is_list());
}

#[test]
fn later_enumeration_registration_shadows_an_earlier_one() {
    let body = "Name: `info`\n\nThe response is a JSON object\n\nProperty | Type | Description\n---|---|---\nstate | string | Torrent state\n\nPossible values of `state`:\n\nValue | Description\n---|---\nold | Stale entry\n\nPossible values of `state`:\n\nValue | Description\n---|---\nnew | Fresh entry\n";
    let method = parse_method(body);
    let rt = method.return_type.unwrap();
    let info = rt.parameters[0].return_type.get_type_info();
    let values = &info.type_description.as_ref().unwrap().values;
    assert_eq!(values.len(), 1);
    assert_eq!(values[0].value, "new");
}
