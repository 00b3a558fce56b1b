use viz_graphql::DecodeError;
use viz_graphql::extract::{
    GraphQLBatchRequest, GraphQLRejection, GraphQLRequest, RequestKind, RequestPayload, classify,
    decode_get, decode_json_body, decode_request,
};
use viz_graphql::model::Batch;
use viz_graphql::multipart::{Field, Limits, MultipartConfig, decode_multipart};

fn config() -> MultipartConfig {
    MultipartConfig {
        limits: Limits { max_file_size: None, max_files: None },
        cbor_enabled: true,
    }
}

fn ops_field(json: &str) -> Field {
    Field {
        name: "operations".to_string(),
        filename: None,
        content_type: None,
        data: json.as_bytes().to_vec(),
    }
}

fn map_field(json: &str) -> Field {
    Field {
        name: "map".to_string(),
        filename: None,
        content_type: None,
        data: json.as_bytes().to_vec(),
    }
}

fn file_field(name: &str, filename: &str, content: &[u8]) -> Field {
    Field {
        name: name.to_string(),
        filename: Some(filename.to_string()),
        content_type: None,
        data: content.to_vec(),
    }
}

#[test]
fn single_json_body_decodes_single_shaped() {
    let body = br#"{ "query" : "{a}" }"#.to_vec();
    match decode_json_body(&body) {
        Ok(Batch::Single(doc)) => {
            assert_eq!(doc.operation, br#"{"query":"{a}"}"#.to_vec());
            assert!(doc.uploads.is_empty());
        }
        _ => panic!("expected a single-shaped batch"),
    }
}

#[test]
fn batch_json_body_decodes_in_order() {
    let body = br#"[{"query":"{a}"},{"query":"{b}"}]"#.to_vec();
    match decode_json_body(&body) {
        Ok(Batch::Batch(docs)) => {
            assert_eq!(docs.len(), 2);
            assert_eq!(docs[0].operation, br#"{"query":"{a}"}"#.to_vec());
            assert_eq!(docs[1].operation, br#"{"query":"{b}"}"#.to_vec());
            assert!(docs[0].uploads.is_empty());
            assert!(docs[1].uploads.is_empty());
        }
        _ => panic!("expected a batch-shaped batch"),
    }
}

#[test]
fn non_object_json_body_is_rejected() {
    let body = b"42".to_vec();
    assert!(matches!(decode_json_body(&body), Err(DecodeError::InvalidRequest)));
    let garbage = b"{not json".to_vec();
    assert!(matches!(decode_json_body(&garbage), Err(DecodeError::InvalidRequest)));
}

#[test]
fn multipart_round_trip_binds_file() {
    let fields = vec![
        ops_field(r#"{"query":"{a}","variables":{"file":null}}"#),
        map_field(r#"{"f":["variables.file"]}"#),
        file_field("f", "a.txt", b"hello"),
    ];
    match decode_multipart(&fields, &config()) {
        Ok(Batch::Single(doc)) => {
            assert_eq!(doc.uploads.len(), 1);
            assert_eq!(doc.uploads[0].path, "variables.file");
            assert_eq!(doc.uploads[0].upload.content, b"hello".to_vec());
            assert_eq!(doc.uploads[0].upload.filename, "a.txt");
            assert_eq!(
                doc.uploads[0].upload.content_type,
                Some("application/json".to_string())
            );
        }
        _ => panic!("expected a single-shaped batch with one binding"),
    }
}

#[test]
fn multipart_fields_bind_in_any_order() {
    let fields = vec![
        file_field("f", "a.txt", b"hello"),
        map_field(r#"{"f":["variables.file"]}"#),
        ops_field(r#"{"query":"{a}","variables":{"file":null}}"#),
    ];
    match decode_multipart(&fields, &config()) {
        Ok(Batch::Single(doc)) => {
            assert_eq!(doc.uploads.len(), 1);
            assert_eq!(doc.uploads[0].path, "variables.file");
        }
        _ => panic!("expected a single-shaped batch with one binding"),
    }
}

#[test]
fn multipart_batch_binds_into_indexed_element() {
    let fields = vec![
        ops_field(r#"[{"query":"{a}"},{"query":"{b}"}]"#),
        map_field(r#"{"f":["0.variables.file"]}"#),
        file_field("f", "a.txt", b"hello"),
    ];
    match decode_multipart(&fields, &config()) {
        Ok(Batch::Batch(docs)) => {
            assert_eq!(docs.len(), 2);
            assert_eq!(docs[0].uploads.len(), 1);
            assert_eq!(docs[0].uploads[0].path, "variables.file");
            assert_eq!(docs[0].uploads[0].upload.content, b"hello".to_vec());
            assert!(docs[1].uploads.is_empty());
        }
        _ => panic!("expected a batch-shaped batch"),
    }
}

#[test]
fn multipart_out_of_range_index_is_skipped() {
    let fields = vec![
        ops_field(r#"[{"query":"{a}"},{"query":"{b}"}]"#),
        map_field(r#"{"f":["5.variables.file"]}"#),
        file_field("f", "a.txt", b"hello"),
    ];
    match decode_multipart(&fields, &config()) {
        Ok(Batch::Batch(docs)) => {
            assert_eq!(docs.len(), 2);
            assert!(docs[0].uploads.is_empty());
            assert!(docs[1].uploads.is_empty());
        }
        _ => panic!("expected the out-of-range path to be skipped, not an error"),
    }
}

#[test]
fn multipart_unparseable_index_is_skipped() {
    let fields = vec![
        ops_field(r#"[{"query":"{a}"}]"#),
        map_field(r#"{"f":["x.variables.file","0.variables.file"]}"#),
        file_field("f", "a.txt", b"hi"),
    ];
    match decode_multipart(&fields, &config()) {
        Ok(Batch::Batch(docs)) => {
            assert_eq!(docs[0].uploads.len(), 1);
            assert_eq!(docs[0].uploads[0].path, "variables.file");
        }
        _ => panic!("expected only the parseable path to bind"),
    }
}

#[test]
fn multipart_unsatisfied_map_entry_is_missing_files() {
    let fields = vec![
        ops_field(r#"{"query":"{a}"}"#),
        map_field(r#"{"f":["variables.file"]}"#),
    ];
    assert!(matches!(
        decode_multipart(&fields, &config()),
        Err(DecodeError::MissingFiles)
    ));
}

#[test]
fn multipart_missing_operations_part() {
    let fields = vec![map_field(r#"{}"#)];
    assert!(matches!(
        decode_multipart(&fields, &config()),
        Err(DecodeError::MissingOperationsPart)
    ));
}

#[test]
fn multipart_missing_map_part() {
    let fields = vec![ops_field(r#"{"query":"{a}"}"#)];
    assert!(matches!(
        decode_multipart(&fields, &config()),
        Err(DecodeError::MissingMapPart)
    ));
}

#[test]
fn multipart_malformed_operations() {
    let fields = vec![ops_field(r#""just a string""#), map_field(r#"{}"#)];
    assert!(matches!(
        decode_multipart(&fields, &config()),
        Err(DecodeError::MalformedOperations)
    ));
}

#[test]
fn multipart_invalid_files_map() {
    let fields = vec![ops_field(r#"{"query":"{a}"}"#), map_field(r#"[1,2]"#)];
    assert!(matches!(
        decode_multipart(&fields, &config()),
        Err(DecodeError::InvalidFilesMap)
    ));
}

#[test]
fn multipart_file_over_size_limit_is_payload_too_large() {
    let cfg = MultipartConfig {
        limits: Limits { max_file_size: Some(4), max_files: None },
        cbor_enabled: true,
    };
    let fields = vec![
        ops_field(r#"{"query":"{a}"}"#),
        map_field(r#"{"f":["variables.file"]}"#),
        file_field("f", "a.txt", b"hello"),
    ];
    assert!(matches!(
        decode_multipart(&fields, &cfg),
        Err(DecodeError::PayloadTooLarge)
    ));
}

#[test]
fn multipart_too_many_files_is_payload_too_large() {
    let cfg = MultipartConfig {
        limits: Limits { max_file_size: None, max_files: Some(1) },
        cbor_enabled: true,
    };
    let fields = vec![
        ops_field(r#"{"query":"{a}"}"#),
        map_field(r#"{"f":["variables.file"],"g":["variables.other"]}"#),
        file_field("f", "a.txt", b"x"),
        file_field("g", "b.txt", b"y"),
    ];
    assert!(matches!(
        decode_multipart(&fields, &cfg),
        Err(DecodeError::PayloadTooLarge)
    ));
}

#[test]
fn multipart_unnamed_file_field_is_ignored() {
    let fields = vec![
        ops_field(r#"{"query":"{a}"}"#),
        map_field(r#"{}"#),
        Field {
            name: "f".to_string(),
            filename: None,
            content_type: None,
            data: b"ignored".to_vec(),
        },
    ];
    match decode_multipart(&fields, &config()) {
        Ok(Batch::Single(doc)) => assert!(doc.uploads.is_empty()),
        _ => panic!("expected the filename-less field to be ignored"),
    }
}

#[test]
fn multipart_unmapped_file_is_dropped() {
    let fields = vec![
        ops_field(r#"{"query":"{a}"}"#),
        map_field(r#"{}"#),
        file_field("stray", "a.txt", b"hi"),
    ];
    match decode_multipart(&fields, &config()) {
        Ok(Batch::Single(doc)) => assert!(doc.uploads.is_empty()),
        _ => panic!("expected the unmapped file to be dropped silently"),
    }
}

#[test]
fn multipart_same_file_bound_at_two_paths() {
    let fields = vec![
        ops_field(r#"{"query":"{a}"}"#),
        map_field(r#"{"f":["variables.one","variables.two"]}"#),
        file_field("f", "a.txt", b"hi"),
    ];
    match decode_multipart(&fields, &config()) {
        Ok(Batch::Single(doc)) => {
            assert_eq!(doc.uploads.len(), 2);
            assert_eq!(doc.uploads[0].path, "variables.one");
            assert_eq!(doc.uploads[1].path, "variables.two");
            assert_eq!(doc.uploads[0].upload.content, b"hi".to_vec());
            assert_eq!(doc.uploads[1].upload.content, b"hi".to_vec());
        }
        _ => panic!("expected two bindings of the same file"),
    }
}

#[test]
fn multipart_cbor_map_decodes_when_enabled() {
    let mut m = std::collections::BTreeMap::new();
    m.insert("f".to_string(), vec!["variables.file".to_string()]);
    let cbor = serde_cbor::to_vec(&m).unwrap();
    let fields = vec![
        ops_field(r#"{"query":"{a}"}"#),
        Field {
            name: "map".to_string(),
            filename: None,
            content_type: Some("application/octet-stream".to_string()),
            data: cbor,
        },
        file_field("f", "a.txt", b"hi"),
    ];
    match decode_multipart(&fields, &config()) {
        Ok(Batch::Single(doc)) => {
            assert_eq!(doc.uploads.len(), 1);
            assert_eq!(doc.uploads[0].path, "variables.file");
        }
        _ => panic!("expected the CBOR map to decode"),
    }
}

#[test]
fn multipart_cbor_map_refused_when_disabled() {
    let cfg = MultipartConfig {
        limits: Limits { max_file_size: None, max_files: None },
        cbor_enabled: false,
    };
    let mut m = std::collections::BTreeMap::new();
    m.insert("f".to_string(), vec!["variables.file".to_string()]);
    let cbor = serde_cbor::to_vec(&m).unwrap();
    let fields = vec![
        ops_field(r#"{"query":"{a}"}"#),
        Field {
            name: "map".to_string(),
            filename: None,
            content_type: Some("application/octet-stream".to_string()),
            data: cbor,
        },
        file_field("f", "a.txt", b"hi"),
    ];
    assert!(matches!(
        decode_multipart(&fields, &cfg),
        Err(DecodeError::InvalidFilesMap)
    ));
}

#[test]
fn classify_selects_the_decoder() {
    assert_eq!(classify(true, None), RequestKind::GetQuery);
    let mp = "multipart/form-data; boundary=xyz".to_string();
    assert_eq!(classify(false, Some(&mp)), RequestKind::MultipartUpload);
    let js = "application/json".to_string();
    assert_eq!(classify(false, Some(&js)), RequestKind::JsonBody);
    assert_eq!(classify(false, None), RequestKind::JsonBody);
    let junk = "not a media type".to_string();
    assert_eq!(classify(false, Some(&junk)), RequestKind::JsonBody);
}

#[test]
fn multipart_second_file_with_same_name_is_ignored() {
    let fields = vec![
        ops_field(r#"{"query":"{a}"}"#),
        map_field(r#"{"f":["variables.file"]}"#),
        file_field("f", "a.txt", b"one"),
        file_field("f", "b.txt", b"two"),
    ];
    match decode_multipart(&fields, &config()) {
        Ok(Batch::Single(doc)) => {
            assert_eq!(doc.uploads.len(), 1);
            assert_eq!(doc.uploads[0].upload.content, b"one".to_vec());
        }
        _ => panic!("only the first file with a name consumes its map entry"),
    }
}

#[test]
fn multipart_last_duplicate_field_wins() {
    let fields = vec![
        ops_field(r#""not even an object""#),
        ops_field(r#"{"query":"{a}"}"#),
        map_field(r#"{}"#),
    ];
    match decode_multipart(&fields, &config()) {
        Ok(Batch::Single(doc)) => {
            assert_eq!(doc.operation, br#"{"query":"{a}"}"#.to_vec());
        }
        _ => panic!("the last operations field must win"),
    }
}

#[test]
fn multipart_cbor_content_type_parameters_are_dropped() {
    let mut m = std::collections::BTreeMap::new();
    m.insert("f".to_string(), vec!["variables.file".to_string()]);
    let cbor = serde_cbor::to_vec(&m).unwrap();
    let fields = vec![
        ops_field(r#"{"query":"{a}"}"#),
        Field {
            name: "map".to_string(),
            filename: None,
            content_type: Some("application/octet-stream; padding=8".to_string()),
            data: cbor,
        },
        file_field("f", "a.txt", b"hi"),
    ];
    match decode_multipart(&fields, &config()) {
        Ok(Batch::Single(doc)) => assert_eq!(doc.uploads.len(), 1),
        _ => panic!("parameters must not change the selected encoding"),
    }
}

#[test]
fn get_query_decodes_single() {
    let q = "query=%7Ba%7D".to_string();
    match decode_get(&q) {
        Ok(Batch::Single(doc)) => {
            assert_eq!(doc.operation, br#"{"query":"{a}"}"#.to_vec());
            assert!(doc.uploads.is_empty());
        }
        _ => panic!("expected the query string to decode as one operation"),
    }
}

#[test]
fn decode_request_dispatches_by_payload() {
    let body = RequestPayload::Body(br#"{"query":"{a}"}"#.to_vec());
    assert!(matches!(decode_request(body, &config()), Ok(Batch::Single(_))));
    let fields = vec![ops_field(r#"{"query":"{a}"}"#)];
    assert!(matches!(
        decode_request(RequestPayload::Multipart(fields), &config()),
        Err(DecodeError::MissingMapPart)
    ));
}

#[test]
fn batch_request_extract_and_into_inner() {
    let payload = RequestPayload::Body(br#"[{"query":"{a}"}]"#.to_vec());
    let batch = GraphQLBatchRequest::extract(payload, &config())
        .ok()
        .unwrap()
        .into_inner();
    assert!(matches!(batch, Batch::Batch(_)));
}

#[test]
fn single_request_extract_refuses_batch_shape() {
    let payload = RequestPayload::Body(br#"[{"query":"{a}"}]"#.to_vec());
    match GraphQLRequest::extract(payload, &config()) {
        Err(rej) => assert_eq!(rej.0, DecodeError::InvalidRequest),
        Ok(_) => panic!("a batch-shaped body must be refused for a single request"),
    }
    let payload = RequestPayload::Body(br#"{"query":"{a}"}"#.to_vec());
    assert!(GraphQLRequest::extract(payload, &config()).is_ok());
}

#[test]
fn rejection_statuses() {
    assert_eq!(GraphQLRejection(DecodeError::PayloadTooLarge).status(), 413);
    assert_eq!(GraphQLRejection(DecodeError::UploadCloneError).status(), 500);
    assert_eq!(GraphQLRejection(DecodeError::MissingFiles).status(), 400);
    assert_eq!(GraphQLRejection(DecodeError::InvalidRequest).status(), 400);
    assert_eq!(
        GraphQLRejection(DecodeError::MissingFiles).message(),
        "missing files"
    );
}
