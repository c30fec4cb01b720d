use egads::decode::{DecodeError, PathSegment};
use egads::descriptor::{self, decode_parameter, RestDescription};
use egads::document::{decode, Document, DocumentKind};
use egads::json::{parse_json, Json};
use egads::list::{self, list_request, DirectoryList, LIST_URL};
use egads::{
    DiscoveryItemKind, DiscoveryListKind, Error, IconKey, ParameterFormat, ParameterType,
    RestProtocol, Version,
};

fn key(k: &str) -> PathSegment {
    PathSegment::Key(k.to_string())
}

fn item_json(id: &str, extra: &str) -> String {
    format!(
        r#"{{"kind": "discovery#directoryItem", "id": "{id}", "name": "n{id}", "version": "v1",
            "title": "T{id}", "description": "D{id}", "discoveryRestUrl": "https://x/{id}",
            "preferred": true{extra}}}"#
    )
}

fn list_json(items: &[String]) -> String {
    format!(
        r#"{{"kind": "discovery#directoryList", "discoveryVersion": "v1", "items": [{}]}}"#,
        items.join(",")
    )
}

fn descriptor_json(extra: &str) -> String {
    format!(
        r#"{{"kind": "discovery#restDescription", "discoveryVersion": "v1", "id": "drive:v3",
            "name": "drive", "version": "v3", "revision": "20240101", "title": "Drive API",
            "description": "Files", "protocol": "rest", "baseUrl": "https://www.googleapis.com/drive/v3/",
            "basePath": "/drive/v3/", "rootUrl": "https://www.googleapis.com/",
            "servicePath": "drive/v3/", "batchPath": "batch/drive/v3"{extra}}}"#
    )
}

fn list_error(body: &str) -> DecodeError {
    match list::from_str(body.to_string()) {
        Err(Error::JsonError { source, json, .. }) => {
            assert_eq!(json, body);
            source
        }
        other => panic!("expected a decode error, got {:?}", other),
    }
}

fn descriptor_error(body: &str) -> DecodeError {
    match descriptor::from_str(body.to_string()) {
        Err(Error::JsonError { source, json, .. }) => {
            assert_eq!(json, body);
            source
        }
        other => panic!("expected a decode error, got {:?}", other),
    }
}

#[test]
fn parse_json_builds_the_tree() {
    let j = parse_json(r#"{"a": [1, "x", null, true]}"#).unwrap();
    assert_eq!(
        j,
        Json::Object(vec![(
            "a".to_string(),
            Json::Array(vec![
                Json::Number("1".to_string()),
                Json::Str("x".to_string()),
                Json::Null,
                Json::Bool(true),
            ]),
        )])
    );
    assert!(parse_json("{not json").is_none());
}

#[test]
fn list_decodes_items_in_order() {
    let body = list_json(&[
        item_json("a", r#", "labels": ["l1", "l2"], "icons": {"x16": "i16", "x32": "i32"}"#),
        item_json("b", r#", "discoveryLink": "./apis/b", "documentationLink": null"#),
    ]);
    let list: DirectoryList = list::from_str(body).unwrap();
    assert_eq!(list.kind, DiscoveryListKind::DirectoryList);
    assert_eq!(list.discovery_version, Version::V1);
    assert_eq!(list.items.len(), 2);
    let a = &list.items[0];
    assert_eq!(a.kind, DiscoveryItemKind::DirectoryItem);
    assert_eq!(a.id, "a");
    assert_eq!(a.discovery_rest_url, "https://x/a");
    assert_eq!(a.labels, vec!["l1".to_string(), "l2".to_string()]);
    assert_eq!(
        a.icons,
        vec![(IconKey::X16, "i16".to_string()), (IconKey::X32, "i32".to_string())]
    );
    assert!(a.preferred);
    let b = &list.items[1];
    assert_eq!(b.id, "b");
    assert_eq!(b.discovery_link, Some("./apis/b".to_string()));
    assert_eq!(b.documentation_link, None);
    assert!(b.labels.is_empty());
    assert!(b.icons.is_empty());
}

#[test]
fn empty_item_list_decodes() {
    let list = list::from_str(list_json(&[])).unwrap();
    assert!(list.items.is_empty());
}

#[test]
fn list_with_unknown_member_is_rejected() {
    let body = r#"{"kind": "discovery#directoryList", "discoveryVersion": "v1", "items": [], "extra": 1}"#;
    assert_eq!(list_error(body), DecodeError::UnexpectedField(vec![key("extra")]));
}

#[test]
fn list_without_kind_is_missing_field() {
    let body = r#"{"discoveryVersion": "v1", "items": []}"#;
    assert_eq!(list_error(body), DecodeError::MissingField(vec![key("kind")]));
}

#[test]
fn list_with_unknown_version_is_invalid() {
    let body = r#"{"kind": "discovery#directoryList", "discoveryVersion": "v2", "items": []}"#;
    assert_eq!(
        list_error(body),
        DecodeError::InvalidValue(vec![key("discoveryVersion")], Json::Str("v2".to_string()))
    );
}

#[test]
fn enum_names_are_case_sensitive() {
    let body = r#"{"kind": "discovery#DirectoryList", "discoveryVersion": "v1", "items": []}"#;
    assert_eq!(
        list_error(body),
        DecodeError::InvalidValue(vec![key("kind")], Json::Str("discovery#DirectoryList".to_string()))
    );
}

#[test]
fn error_in_an_item_carries_its_path() {
    let second = r#"{"kind": "discovery#directoryItem", "id": "b", "name": "n", "version": "v1",
        "title": "T", "description": "D", "discoveryRestUrl": "u"}"#;
    let body = list_json(&[item_json("a", ""), second.to_string()]);
    assert_eq!(
        list_error(&body),
        DecodeError::MissingField(vec![key("items"), PathSegment::Index(1), key("preferred")])
    );
}

#[test]
fn unknown_icon_size_is_rejected() {
    let body = list_json(&[item_json("a", r#", "icons": {"x64": "big"}"#)]);
    assert_eq!(
        list_error(&body),
        DecodeError::InvalidValue(
            vec![key("items"), PathSegment::Index(0), key("icons"), key("x64")],
            Json::Str("x64".to_string())
        )
    );
}

#[test]
fn label_of_wrong_type_is_invalid() {
    let body = list_json(&[item_json("a", r#", "labels": ["ok", 7]"#)]);
    assert_eq!(
        list_error(&body),
        DecodeError::InvalidValue(
            vec![key("items"), PathSegment::Index(0), key("labels"), PathSegment::Index(1)],
            Json::Number("7".to_string())
        )
    );
}

#[test]
fn text_that_is_not_json_keeps_the_body() {
    let body = "<html>503</html>";
    match list::from_str(body.to_string()) {
        Err(Error::JsonError { message, json, source }) => {
            assert_eq!(message, list::LIST_PARSE_MESSAGE);
            assert_eq!(json, body);
            assert_eq!(source, DecodeError::Syntax);
        }
        other => panic!("expected a syntax error, got {:?}", other),
    }
}

#[test]
fn decoding_twice_gives_equal_results() {
    let body = list_json(&[item_json("a", ""), item_json("b", r#", "labels": ["x"]"#)]);
    let first = list::from_str(body.clone());
    let second = list::from_str(body);
    assert_eq!(first, second);
    let bad = descriptor_json(r#", "bogus": true"#);
    assert_eq!(descriptor::from_str(bad.clone()), descriptor::from_str(bad));
}

#[test]
fn minimal_descriptor_decodes_with_defaults() {
    let d: RestDescription = descriptor::from_str(descriptor_json("")).unwrap();
    assert_eq!(d.id, "drive:v3");
    assert_eq!(d.protocol, RestProtocol::REST);
    assert_eq!(d.batch_path, "batch/drive/v3");
    assert!(d.parameters.is_empty());
    assert!(d.schemas.is_empty());
    assert!(d.methods.is_empty());
    assert!(d.resources.is_empty());
    assert!(d.auth.is_none());
    assert_eq!(d.canonical_name, None);
    assert_eq!(d.fully_encode_reserved_expansion, None);
    assert!(d.features.is_empty());
}

#[test]
fn descriptor_with_unknown_member_fails_and_decodes_without_it() {
    let with_extra = descriptor_json(r#", "ownerName": "Google", "notAField": "x""#);
    assert_eq!(
        descriptor_error(&with_extra),
        DecodeError::UnexpectedField(vec![key("notAField")])
    );
    let without = descriptor_json(r#", "ownerName": "Google""#);
    let d = descriptor::from_str(without).unwrap();
    assert_eq!(d.owner_name, Some("Google".to_string()));
}

#[test]
fn descriptor_missing_batch_path_is_missing_field() {
    let body = descriptor_json("").replace(r#", "batchPath": "batch/drive/v3""#, "");
    assert_eq!(descriptor_error(&body), DecodeError::MissingField(vec![key("batchPath")]));
}

#[test]
fn parameter_format_int32_decodes() {
    let j = parse_json(r#"{"type": "integer", "format": "int32", "location": "query"}"#).unwrap();
    let p = decode_parameter(&j).unwrap();
    assert_eq!(p.type_, Some(ParameterType::Integer));
    assert_eq!(p.format, Some(ParameterFormat::Int32));
    assert_eq!(p.location, Some("query".to_string()));
    assert!(!p.required);
    assert!(!p.repeated);
}

#[test]
fn parameter_format_int33_is_invalid() {
    let j = parse_json(r#"{"type": "integer", "format": "int33"}"#).unwrap();
    assert_eq!(
        decode_parameter(&j),
        Err(DecodeError::InvalidValue(vec![key("format")], Json::Str("int33".to_string())))
    );
    let body = descriptor_json(r#", "schemas": {"Count": {"type": "integer", "format": "int33"}}"#);
    assert_eq!(
        descriptor_error(&body),
        DecodeError::InvalidValue(
            vec![key("schemas"), key("Count"), key("format")],
            Json::Str("int33".to_string())
        )
    );
}

#[test]
fn every_format_name_is_recognised() {
    let names = [
        ("int32", ParameterFormat::Int32),
        ("uint32", ParameterFormat::Uint32),
        ("int64", ParameterFormat::Int64),
        ("uint64", ParameterFormat::Uint64),
        ("double", ParameterFormat::Double),
        ("float", ParameterFormat::Float),
        ("byte", ParameterFormat::Byte),
        ("date", ParameterFormat::Date),
        ("date-time", ParameterFormat::DateTime),
        ("google-datetime", ParameterFormat::GoogleDatetime),
        ("google-duration", ParameterFormat::GoogleDuration),
        ("google-fieldmask", ParameterFormat::GoogleFieldmask),
    ];
    for (name, format) in names {
        assert_eq!(ParameterFormat::parse(&name.to_string()), Some(format));
    }
    assert_eq!(ParameterFormat::parse(&"Int32".to_string()), None);
}

#[test]
fn opaque_subtrees_are_kept() {
    let j = parse_json(
        r#"{"id": "File", "type": "object", "$ref": "Other",
            "properties": {"name": {"type": "string", "anything": [1, 2]}},
            "additionalProperties": {"type": "string"}, "annotations": {"required": ["drive.files.create"]}}"#,
    )
    .unwrap();
    let p = decode_parameter(&j).unwrap();
    assert_eq!(p.ref_.ref_, Some("Other".to_string()));
    assert_eq!(p.type_, Some(ParameterType::Object));
    let props = p.properties.unwrap();
    match props {
        Json::Object(members) => {
            assert_eq!(members.len(), 1);
            assert_eq!(members[0].0, "name");
        }
        other => panic!("expected an object, got {:?}", other),
    }
    assert_eq!(p.annotations.unwrap().required, vec!["drive.files.create".to_string()]);
    assert!(p.items.is_none());
}

#[test]
fn nested_resources_and_methods_decode() {
    let body = descriptor_json(
        r#", "resources": {"files": {
              "methods": {"get": {"id": "drive.files.get", "path": "files/{fileId}", "httpMethod": "GET",
                                  "parameterOrder": ["fileId"], "scopes": ["https://www.googleapis.com/auth/drive"],
                                  "parameters": {"fileId": {"type": "string", "required": true, "location": "path"}},
                                  "response": {"$ref": "File"}, "supportsMediaDownload": true}},
              "resources": {"revisions": {"methods": {"list": {"id": "drive.files.revisions.list",
                                  "path": "files/{fileId}/revisions", "httpMethod": "GET"}}}}}},
            "auth": {"oauth2": {"scopes": {"https://www.googleapis.com/auth/drive": {"description": "See all files"}}}}"#,
    );
    let d = descriptor::from_str(body).unwrap();
    assert_eq!(d.resources.len(), 1);
    let (name, files) = &d.resources[0];
    assert_eq!(name, "files");
    let (method_name, get) = &files.methods[0];
    assert_eq!(method_name, "get");
    assert_eq!(get.http_method, "GET");
    assert_eq!(get.parameter_order, vec!["fileId".to_string()]);
    assert_eq!(get.scopes[0].0, "https://www.googleapis.com/auth/drive");
    assert!(get.parameters[0].1.required);
    assert_eq!(get.response.as_ref().unwrap().ref_, Some("File".to_string()));
    assert_eq!(get.supports_media_download, Some(true));
    let (inner_name, revisions) = &files.resources[0];
    assert_eq!(inner_name, "revisions");
    assert_eq!(revisions.methods[0].1.id, "drive.files.revisions.list");
    let auth = d.auth.unwrap();
    assert_eq!(auth.oauth2.scopes[0].1.description, "See all files");
}

#[test]
fn error_deep_in_a_resource_carries_its_path() {
    let body = descriptor_json(
        r#", "resources": {"files": {"resources": {"revisions": {"methods": {"list": {"id": "x", "path": "p"}}}}}}"#,
    );
    assert_eq!(
        descriptor_error(&body),
        DecodeError::MissingField(vec![
            key("resources"),
            key("files"),
            key("resources"),
            key("revisions"),
            key("methods"),
            key("list"),
            key("httpMethod"),
        ])
    );
}

#[test]
fn unknown_member_of_a_resource_is_rejected() {
    let body = descriptor_json(r#", "resources": {"files": {"methods": {}, "extra": {}}}"#);
    assert_eq!(
        descriptor_error(&body),
        DecodeError::UnexpectedField(vec![key("resources"), key("files"), key("extra")])
    );
}

#[test]
fn list_request_adds_only_requested_filters() {
    let all = list_request(None, false);
    assert_eq!(all.url, LIST_URL);
    assert!(all.query.is_empty());
    let preferred = list_request(Some("drive"), true);
    assert_eq!(
        preferred.query,
        vec![
            ("name".to_string(), "drive".to_string()),
            ("preferred".to_string(), "true".to_string()),
        ]
    );
    let named = list_request(Some("drive"), false);
    assert_eq!(named.query, vec![("name".to_string(), "drive".to_string())]);
}

#[test]
fn descriptor_request_takes_the_url_verbatim() {
    let list = list::from_str(list_json(&[item_json("a", "")])).unwrap();
    let r = descriptor::item_request(&list.items[0]);
    assert_eq!(r.url, "https://x/a");
    assert!(r.query.is_empty());
}

#[test]
fn decode_by_kind_picks_the_document() {
    let list = decode(DocumentKind::DirectoryList, &list_json(&[item_json("a", "")])).unwrap();
    match list {
        Document::DirectoryList(l) => assert_eq!(l.items[0].id, "a"),
        other => panic!("expected a list, got {:?}", other),
    }
    let d = decode(DocumentKind::ServiceDescriptor, &descriptor_json("")).unwrap();
    match d {
        Document::ServiceDescriptor(d) => assert_eq!(d.name, "drive"),
        other => panic!("expected a descriptor, got {:?}", other),
    }
    assert_eq!(
        decode(DocumentKind::ServiceDescriptor, &list_json(&[])),
        Err(DecodeError::UnexpectedField(vec![key("items")]))
    );
    assert_eq!(decode(DocumentKind::DirectoryList, "["), Err(DecodeError::Syntax));
}
