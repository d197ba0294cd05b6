use kitsu::builder::Search;
use kitsu::request::{build_search_target, u64_to_dec};

fn hex_val(c: u8) -> Option<u8> {
    match c {
        b'0'..=b'9' => Some(c - b'0'),
        b'A'..=b'F' => Some(c - b'A' + 10),
        b'a'..=b'f' => Some(c - b'a' + 10),
        _ => None,
    }
}

fn pct_decode(s: &str) -> Option<String> {
    let b = s.as_bytes();
    let mut out: Vec<u8> = Vec::new();
    let mut i: usize = 0;
    while i < b.len() {
        if b[i] == b'%' {
            if i + 2 >= b.len() {
                return None;
            }
            let h = hex_val(b[i + 1])?;
            let l = hex_val(b[i + 2])?;
            out.push(h * 16 + l);
            i += 3;
        } else {
            out.push(b[i]);
            i += 1;
        }
    }
    String::from_utf8(out).ok()
}

/// Reads a query string back as URL query parameters.
fn reparse(q: &str) -> Option<Vec<(String, String)>> {
    if q.is_empty() {
        return Some(Vec::new());
    }
    let mut out = Vec::new();
    for part in q.split('&') {
        let eq = part.find('=')?;
        let k = pct_decode(&part[..eq])?;
        let v = pct_decode(&part[eq + 1..])?;
        out.push((k, v));
    }
    Some(out)
}

#[test]
fn query_string_joins_encoded_pairs_in_order() {
    let q = Search::new().filter("text", "a b").filter("name", "x").query_string();
    assert_eq!(q, "text=a%20b&name=x");
}

#[test]
fn query_string_of_empty_filter_set_is_empty() {
    let q = Search::new().query_string();
    assert_eq!(q, "");
}

#[test]
fn search_target_keeps_question_mark_even_with_empty_query() {
    // The produced URLs always carry the `?`, also with zero filters.
    let t = build_search_target("anime", Search::new().query_string().as_str());
    assert_eq!(t, "https://kitsu.io/api/edge/anime?");
}

#[test]
fn duplicate_keys_are_preserved_in_order() {
    let q = Search::new().filter("a", "1").filter("a", "2").query_string();
    assert_eq!(q, "a=1&a=2");
}

#[test]
fn reserved_and_non_ascii_text_is_percent_encoded() {
    let q = Search::new().filter("text", "caf\u{e9}&x=y").query_string();
    assert_eq!(q, "text=caf%C3%A9%26x%3Dy");
}

#[test]
fn reparsing_yields_back_the_original_pairs() {
    let s = Search::new()
        .filter("text", "non non biyori")
        .filter("q", "a&b=c%")
        .filter("u", "\u{e9}\u{6f22}");
    let q = s.query_string();
    let parsed = reparse(&q).expect("round trip must parse");
    let expected = vec![
        ("text".to_string(), "non non biyori".to_string()),
        ("q".to_string(), "a&b=c%".to_string()),
        ("u".to_string(), "\u{e9}\u{6f22}".to_string()),
    ];
    assert_eq!(parsed, expected);
}

#[test]
fn empty_keys_and_values_round_trip() {
    let s = Search::new().filter("", "").filter("k", "");
    let q = s.query_string();
    assert_eq!(q, "=&k=");
    let parsed = reparse(&q).expect("round trip must parse");
    assert_eq!(
        parsed,
        vec![(String::new(), String::new()), ("k".to_string(), String::new())]
    );
}

#[test]
fn decimal_rendering_is_exact() {
    assert_eq!(u64_to_dec(0), "0");
    assert_eq!(u64_to_dec(7), "7");
    assert_eq!(u64_to_dec(10), "10");
    assert_eq!(u64_to_dec(1234567890), "1234567890");
    assert_eq!(u64_to_dec(u64::MAX), "18446744073709551615");
}
