use kitsu::blocking::{Client, Transport};
use kitsu::deferred;
use kitsu::error::{Error, HttpResponse, Outcome};

/// A stub transport: always yields the configured outcome and records
/// how many exchanges were attempted.
struct Stub {
    status: u16,
    body: Vec<u8>,
    calls: usize,
}

impl Stub {
    fn new(status: u16, body: &[u8]) -> Stub {
        Stub { status, body: body.to_vec(), calls: 0 }
    }

    fn outcome(&self) -> Outcome {
        Outcome::Completed(HttpResponse { status: self.status, body: self.body.clone() })
    }
}

impl Transport for Stub {
    fn get(&mut self, _url: &str) -> Outcome {
        self.calls += 1;
        self.outcome()
    }
}

/// A transport that always fails before completing the exchange.
struct Failing;

impl Transport for Failing {
    fn get(&mut self, _url: &str) -> Outcome {
        Outcome::Failure("timed out".to_string())
    }
}

const ANIME_ONE: &[u8] =
    br#"{"data":{"id":"1","type":"anime","attributes":{"canonicalTitle":"Cowboy Bebop"}}}"#;
const ANIME_TWO: &[u8] = br#"{"data":[{"id":"1","type":"anime"},{"id":"7","type":"anime"}]}"#;
const USER_ONE: &[u8] = br#"{"data":{"id":"1","type":"users"}}"#;

#[test]
fn test_get_anime() {
    let mut client = Client::new(Stub::new(200, ANIME_ONE));
    let anime = client.get_anime(1).expect("stubbed get must succeed");
    assert_eq!(anime.data.id, "1");
    assert_eq!(client.transport.calls, 1);
}

#[test]
fn test_get_character() {
    let mut client = Client::new(Stub::new(200, br#"{"data":{"id":"1","type":"characters"}}"#));
    match client.get_character(1) {
        Ok(character) => assert_eq!(character.data.id, "1"),
        Err(why) => panic!("{:?}", why),
    }
}

#[test]
fn test_get_manga() {
    let mut client = Client::new(Stub::new(200, br#"{"data":{"id":"1","type":"manga"}}"#));
    let manga = client.get_manga(1).expect("stubbed get must succeed");
    assert_eq!(manga.data.kind, "manga");
}

#[test]
fn test_get_producer() {
    let mut client = Client::new(Stub::new(200, br#"{"data":{"id":"1","type":"producers"}}"#));
    let producer = client.get_producer(1).expect("stubbed get must succeed");
    assert_eq!(producer.data.id, "1");
}

#[test]
fn test_get_user() {
    let mut client = Client::new(Stub::new(200, USER_ONE));
    let user = client.get_user(1).expect("stubbed get must succeed");
    assert_eq!(user.data.id, "1");
}

#[test]
fn test_search_anime() {
    let mut client = Client::new(Stub::new(200, ANIME_TWO));
    match client.search_anime(|f| f.filter("text", "non non biyori")) {
        Ok(resp) => assert_eq!(resp.data.len(), 2),
        Err(why) => panic!("{:?}", why),
    }
}

#[test]
fn test_search_manga() {
    let mut client = Client::new(Stub::new(200, br#"{"data":[]}"#));
    let resp = client.search_manga(|f| f.filter("text", "orange")).expect("must succeed");
    assert_eq!(resp.data.len(), 0);
}

#[test]
fn test_search_users() {
    let mut client = Client::new(Stub::new(200, br#"{"data":[{"id":"2","type":"users"}]}"#));
    let resp = client.search_users(|f| f.filter("name", "vikhyat")).expect("must succeed");
    assert_eq!(resp.data.len(), 1);
    assert_eq!(resp.data[0].id, "2");
}

#[test]
fn unauthorized_carries_the_response() {
    let mut client = Client::new(Stub::new(401, b"denied"));
    match client.get_anime(1) {
        Err(Error::Unauthorized(resp)) => {
            assert_eq!(resp.status, 401);
            assert_eq!(resp.body, b"denied".to_vec());
        },
        other => panic!("expected Unauthorized, got {:?}", other),
    }
}

#[test]
fn invalid_path_fails_before_any_exchange() {
    let mut client = Client::new(Stub::new(200, ANIME_ONE));
    let r = client.get_resource("an ime", 1);
    assert!(matches!(r, Err(Error::InvalidUrl(_))));
    assert_eq!(client.transport.calls, 0);

    let r = deferred::start_get("no such path", 7);
    assert!(matches!(r, Err(Error::InvalidUrl(_))));
}

#[test]
fn deferred_get_runs_the_same_pipeline() {
    let pending = deferred::get_anime(1).expect("target must be valid");
    assert_eq!(pending.target, "https://kitsu.io/api/edge/anime/1");
    let outcome = Outcome::Completed(HttpResponse { status: 200, body: ANIME_ONE.to_vec() });
    let anime = pending.resolve(outcome).expect("stubbed resolve must succeed");
    assert_eq!(anime.data.id, "1");
}

#[test]
fn deferred_search_builds_the_queried_target() {
    let pending = deferred::search_users(|f| f.filter("name", "vikhyat")).expect("valid target");
    assert_eq!(pending.target, "https://kitsu.io/api/edge/users?name=vikhyat");
    let outcome = Outcome::Completed(HttpResponse {
        status: 200,
        body: br#"{"data":[]}"#.to_vec(),
    });
    let resp = pending.resolve(outcome).expect("must succeed");
    assert_eq!(resp.data.len(), 0);
}

#[test]
fn backends_agree_on_identical_responses() {
    for (status, body) in [
        (200u16, ANIME_ONE.to_vec()),
        (200, Vec::new()),
        (400, b"bad".to_vec()),
        (401, b"denied".to_vec()),
        (503, b"later".to_vec()),
    ] {
        let mut client = Client::new(Stub::new(status, &body));
        let blocking_result = client.get_anime(1);
        let deferred_result = deferred::get_anime(1)
            .expect("target must be valid")
            .resolve(Outcome::Completed(HttpResponse { status, body: body.clone() }));
        assert_eq!(blocking_result, deferred_result);
    }
    // A transport failure, fed to both pipelines.
    let mut client = Client::new(Failing);
    let blocking_result = client.get_user(1);
    let deferred_result = deferred::get_user(1)
        .expect("target must be valid")
        .resolve(Outcome::Failure("timed out".to_string()));
    assert_eq!(blocking_result, deferred_result);
}

#[test]
fn search_backends_agree_on_identical_responses() {
    let mut client = Client::new(Stub::new(200, ANIME_TWO));
    let blocking_result = client.search_anime(|f| f.filter("text", "orange"));
    let deferred_result = deferred::search_anime(|f| f.filter("text", "orange"))
        .expect("target must be valid")
        .resolve(Outcome::Completed(HttpResponse { status: 200, body: ANIME_TWO.to_vec() }));
    assert_eq!(blocking_result, deferred_result);
}
