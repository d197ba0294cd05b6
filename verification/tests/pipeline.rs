use kitsu::error::{Error, HttpResponse, Outcome};
use kitsu::json::Json;
use kitsu::request::{conclude_many, conclude_one};

fn completed(status: u16, body: &[u8]) -> Outcome {
    Outcome::Completed(HttpResponse { status, body: body.to_vec() })
}

const ANIME_ONE: &[u8] =
    br#"{"data":{"id":"1","type":"anime","attributes":{"canonicalTitle":"Cowboy Bebop"}}}"#;

#[test]
fn ok_single_resource_decodes_with_id() {
    let r = conclude_one(completed(200, ANIME_ONE)).expect("200 with valid body must decode");
    assert_eq!(r.data.id, "1");
    assert_eq!(r.data.kind, "anime");
    match &r.data.attributes {
        Json::Obj(entries) => {
            assert_eq!(entries.len(), 1);
            assert_eq!(entries[0].0, "canonicalTitle");
            assert_eq!(entries[0].1, Json::Str("Cowboy Bebop".to_string()));
        },
        other => panic!("unexpected attributes: {:?}", other),
    }
}

#[test]
fn missing_attributes_decode_to_null() {
    let r = conclude_one(completed(200, br#"{"data":{"id":"9","type":"manga"}}"#))
        .expect("attributes are optional");
    assert_eq!(r.data.attributes, Json::Null);
}

#[test]
fn first_entry_wins_for_repeated_members() {
    let r = conclude_one(completed(
        200,
        br#"{"data":{"id":"1","type":"anime","id":"2"}}"#,
    ))
    .expect("must decode");
    // serde_json keeps the last duplicate; the decoder sees one entry.
    assert_eq!(r.data.id, "2");
}

#[test]
fn status_400_yields_bad_request_with_response() {
    let r = conclude_one(completed(400, b"oops"));
    match r {
        Err(Error::BadRequest(resp)) => {
            assert_eq!(resp.status, 400);
            assert_eq!(resp.body, b"oops".to_vec());
        },
        other => panic!("expected BadRequest, got {:?}", other),
    }
}

#[test]
fn status_401_yields_unauthorized_with_response() {
    let r = conclude_one(completed(401, ANIME_ONE));
    match r {
        Err(Error::Unauthorized(resp)) => {
            assert_eq!(resp.status, 401);
            assert_eq!(resp.body, ANIME_ONE.to_vec());
        },
        other => panic!("expected Unauthorized, got {:?}", other),
    }
}

#[test]
fn other_statuses_yield_unexpected_status() {
    for status in [100u16, 204, 301, 404, 500] {
        let r = conclude_one(completed(status, b"{}"));
        match r {
            Err(Error::UnexpectedStatus(resp)) => assert_eq!(resp.status, status),
            other => panic!("expected UnexpectedStatus for {}, got {:?}", status, other),
        }
    }
}

#[test]
fn transport_failure_yields_transport_error() {
    let r = conclude_one(Outcome::Failure("connection reset".to_string()));
    match r {
        Err(Error::Transport(msg)) => assert_eq!(msg, "connection reset"),
        other => panic!("expected Transport, got {:?}", other),
    }
}

#[test]
fn empty_body_with_status_200_yields_decode_error() {
    let r = conclude_one(completed(200, b""));
    assert!(matches!(r, Err(Error::Decode(_))));
}

#[test]
fn invalid_json_yields_decode_error() {
    let r = conclude_many(completed(200, b"{\"data\": ["));
    assert!(matches!(r, Err(Error::Decode(_))));
}

#[test]
fn wrong_envelope_shape_yields_decode_error() {
    // Valid JSON, but no object with a decodable `data` member.
    assert!(matches!(conclude_one(completed(200, b"[1, 2]")), Err(Error::Decode(_))));
    assert!(matches!(
        conclude_one(completed(200, br#"{"data":{"id":7,"type":"anime"}}"#)),
        Err(Error::Decode(_))
    ));
    assert!(matches!(
        conclude_many(completed(200, br#"{"data":{"id":"1","type":"anime"}}"#)),
        Err(Error::Decode(_))
    ));
}

#[test]
fn json_documents_mirror_all_value_shapes() {
    let j = kitsu::json::parse_json(br#"{"a":[null,true,2.5,"x"]}"#).expect("valid JSON");
    match j {
        Json::Obj(entries) => {
            assert_eq!(entries.len(), 1);
            assert_eq!(entries[0].0, "a");
            assert_eq!(
                entries[0].1,
                Json::Arr(vec![
                    Json::Null,
                    Json::Bool(true),
                    Json::Num("2.5".to_string()),
                    Json::Str("x".to_string()),
                ])
            );
        },
        other => panic!("unexpected document: {:?}", other),
    }
    assert!(kitsu::json::parse_json(b"not json").is_err());
}

#[test]
fn collection_keeps_document_order() {
    let body = br#"{"data":[{"id":"5","type":"anime","attributes":{}},{"id":"3","type":"anime"}]}"#;
    let r = conclude_many(completed(200, body)).expect("array must decode");
    assert_eq!(r.data.len(), 2);
    assert_eq!(r.data[0].id, "5");
    assert_eq!(r.data[1].id, "3");
}

#[test]
fn one_bad_element_fails_the_whole_collection() {
    let body = br#"{"data":[{"id":"5","type":"anime"},{"id":3,"type":"anime"}]}"#;
    assert!(matches!(conclude_many(completed(200, body)), Err(Error::Decode(_))));
}
