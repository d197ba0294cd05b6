//! Percent-encoding of URL query components, byte by byte, together
//! with the specification-level decoder that the round-trip law is
//! proved against.
use vstd::prelude::*;

verus! {

/// Bytes that pass through a query component unchanged: ASCII letters,
/// digits, `-`, `.`, `_` and `~` (the unreserved set of RFC 3986).
pub open spec fn is_unreserved(b: u8) -> bool {
    (0x41 <= b && b <= 0x5a) || (0x61 <= b && b <= 0x7a) || (0x30 <= b && b <= 0x39) || b == 0x2d
        || b == 0x2e || b == 0x5f || b == 0x7e
}

/// The ASCII code of the uppercase hexadecimal digit with value `n`.
pub open spec fn hex_digit(n: int) -> u8 {
    if n < 10 {
        (0x30 + n) as u8
    } else {
        (0x37 + n) as u8
    }
}

/// Percent-encoding of a single byte: unreserved bytes stand for
/// themselves, every other byte becomes `%` and two hex digits.
pub open spec fn encode_byte(b: u8) -> Seq<u8> {
    if is_unreserved(b) {
        seq![b]
    } else {
        seq![0x25u8, hex_digit(b as int / 16), hex_digit(b as int % 16)]
    }
}

/// Percent-encoding of a byte string.
pub open spec fn encode_bytes(bs: Seq<u8>) -> Seq<u8>
    decreases bs.len(),
{
    if bs.len() == 0 {
        Seq::empty()
    } else {
        encode_byte(bs[0]) + encode_bytes(bs.drop_first())
    }
}

pub proof fn lemma_encode_bytes_push(bs: Seq<u8>, b: u8)
    ensures
        encode_bytes(bs.push(b)) == encode_bytes(bs) + encode_byte(b),
    decreases bs.len(),
{
    if bs.len() == 0 {
        assert(bs.push(b)[0] == b);
        assert(bs.push(b).drop_first() =~= Seq::<u8>::empty());
        assert(encode_bytes(bs.push(b).drop_first()) =~= Seq::<u8>::empty());
        assert(encode_bytes(bs.push(b)) =~= encode_bytes(bs) + encode_byte(b));
    } else {
        lemma_encode_bytes_push(bs.drop_first(), b);
        assert(bs.push(b)[0] == bs[0]);
        assert(bs.push(b).drop_first() =~= bs.drop_first().push(b));
        assert(encode_bytes(bs.push(b)) =~= encode_bytes(bs) + encode_byte(b));
    }
}

fn unreserved(b: u8) -> (r: bool)
    ensures
        r == is_unreserved(b),
{
    (0x41 <= b && b <= 0x5a) || (0x61 <= b && b <= 0x7a) || (0x30 <= b && b <= 0x39) || b == 0x2d
        || b == 0x2e || b == 0x5f || b == 0x7e
}

fn hex_digit_exec(n: u8) -> (r: u8)
    requires
        n < 16,
    ensures
        r == hex_digit(n as int),
{
    if n < 10 {
        0x30 + n
    } else {
        0x37 + n
    }
}

/// Appends the percent-encoding of `bs` to `out`.
pub fn encode_append(out: &mut Vec<u8>, bs: &[u8])
    ensures
        final(out)@ == old(out)@ + encode_bytes(bs@),
{
    let ghost orig: Seq<u8> = out@;
    let mut i: usize = 0;
    proof {
        assert(bs@.take(0) =~= Seq::<u8>::empty());
        assert(out@ =~= orig + encode_bytes(bs@.take(0)));
    }
    while i < bs.len()
        invariant
            i <= bs@.len(),
            out@ == orig + encode_bytes(bs@.take(i as int)),
        decreases bs@.len() - i,
    {
        let b = bs[i];
        if unreserved(b) {
            out.push(b);
        } else {
            out.push(0x25);
            out.push(hex_digit_exec(b / 16));
            out.push(hex_digit_exec(b % 16));
        }
        proof {
            lemma_encode_bytes_push(bs@.take(i as int), b);
            assert(bs@.take(i + 1) =~= bs@.take(i as int).push(b));
            assert(out@ =~= orig + encode_bytes(bs@.take(i + 1)));
        }
        i = i + 1;
    }
    proof {
        assert(bs@.take(bs@.len() as int) =~= bs@);
    }
}

/// ASCII codes of hexadecimal digits, upper or lower case.
pub open spec fn is_hex_byte(b: u8) -> bool {
    (0x30 <= b && b <= 0x39) || (0x41 <= b && b <= 0x46) || (0x61 <= b && b <= 0x66)
}

/// The value of a hexadecimal digit given by its ASCII code.
pub open spec fn hex_value(b: u8) -> int {
    if 0x30 <= b && b <= 0x39 {
        b - 0x30
    } else if 0x41 <= b && b <= 0x46 {
        b - 0x37
    } else {
        b - 0x57
    }
}

/// Percent-decoding of a byte string: `%` must introduce exactly two
/// hexadecimal digits; every other byte stands for itself.
pub open spec fn decode_bytes(s: Seq<u8>) -> Option<Seq<u8>>
    decreases s.len(),
{
    if s.len() == 0 {
        Some(Seq::empty())
    } else if s[0] == 0x25 {
        if s.len() >= 3 && is_hex_byte(s[1]) && is_hex_byte(s[2]) {
            match decode_bytes(s.skip(3)) {
                Some(rest) => Some(seq![(hex_value(s[1]) * 16 + hex_value(s[2])) as u8] + rest),
                None => None,
            }
        } else {
            None
        }
    } else {
        match decode_bytes(s.drop_first()) {
            Some(rest) => Some(seq![s[0]] + rest),
            None => None,
        }
    }
}

/// Every byte of an encoded string is unreserved, a `%`, or a hex digit;
/// in particular `&` and `=` never occur in one.
pub proof fn lemma_encode_bytes_safe(bs: Seq<u8>)
    ensures
        forall|j: int|
            0 <= j < encode_bytes(bs).len() ==> {
                let e = #[trigger] encode_bytes(bs)[j];
                is_unreserved(e) || e == 0x25 || is_hex_byte(e)
            },
    decreases bs.len(),
{
    if bs.len() > 0 {
        lemma_encode_bytes_safe(bs.drop_first());
        let b = bs[0];
        let head = encode_byte(b);
        let tail = encode_bytes(bs.drop_first());
        assert(encode_bytes(bs) =~= head + tail);
        assert forall|j: int| 0 <= j < encode_bytes(bs).len() implies {
            let e = #[trigger] encode_bytes(bs)[j];
            is_unreserved(e) || e == 0x25 || is_hex_byte(e)
        } by {
            if j < head.len() {
                assert(encode_bytes(bs)[j] == head[j]);
                if !is_unreserved(b) {
                    assert(0 <= b as int / 16 < 16);
                    assert(0 <= b as int % 16 < 16);
                }
            } else {
                assert(encode_bytes(bs)[j] == tail[j - head.len()]);
            }
        }
    }
}

/// Decoding inverts encoding.
pub proof fn lemma_decode_encode_bytes(bs: Seq<u8>)
    ensures
        decode_bytes(encode_bytes(bs)) == Some(bs),
    decreases bs.len(),
{
    if bs.len() == 0 {
        assert(encode_bytes(bs) =~= Seq::<u8>::empty());
        assert(Seq::<u8>::empty() =~= bs);
    } else {
        let b = bs[0];
        let e = encode_bytes(bs);
        lemma_decode_encode_bytes(bs.drop_first());
        if is_unreserved(b) {
            assert(e =~= seq![b] + encode_bytes(bs.drop_first()));
            assert(e[0] == b && b != 0x25);
            assert(e.drop_first() =~= encode_bytes(bs.drop_first()));
            assert(seq![b] + bs.drop_first() =~= bs);
        } else {
            assert(e[0] == 0x25);
            assert(e[1] == hex_digit(b as int / 16));
            assert(e[2] == hex_digit(b as int % 16));
            assert(is_hex_byte(e[1]) && is_hex_byte(e[2]));
            assert(hex_value(e[1]) == b as int / 16);
            assert(hex_value(e[2]) == b as int % 16);
            assert((hex_value(e[1]) * 16 + hex_value(e[2])) as u8 == b);
            assert(e.skip(3) =~= encode_bytes(bs.drop_first()));
            assert(seq![b] + bs.drop_first() =~= bs);
        }
    }
}

/// The encoding of one `key=value` pair.
pub open spec fn encode_pair(p: (Seq<u8>, Seq<u8>)) -> Seq<u8> {
    encode_bytes(p.0) + seq![0x3du8] + encode_bytes(p.1)
}

/// The whole query string of a sequence of pairs, joined with `&`.
pub open spec fn query_bytes(ps: Seq<(Seq<u8>, Seq<u8>)>) -> Seq<u8>
    decreases ps.len(),
{
    if ps.len() == 0 {
        Seq::empty()
    } else if ps.len() == 1 {
        encode_pair(ps[0])
    } else {
        encode_pair(ps[0]) + seq![0x26u8] + query_bytes(ps.drop_first())
    }
}

/// Index of the first occurrence of `b` in `s`, or `s.len()` if absent.
pub open spec fn find_first(s: Seq<u8>, b: u8) -> int
    decreases s.len(),
{
    if s.len() == 0 {
        0
    } else if s[0] == b {
        0
    } else {
        1 + find_first(s.drop_first(), b)
    }
}

/// `find_first` stays in bounds, lands on `b`, and skips no earlier
/// occurrence.
pub proof fn lemma_find_first(s: Seq<u8>, b: u8)
    ensures
        0 <= find_first(s, b) <= s.len(),
        find_first(s, b) < s.len() ==> s[find_first(s, b)] == b,
        forall|j: int| 0 <= j < find_first(s, b) ==> s[j] != b,
    decreases s.len(),
{
    if s.len() > 0 && s[0] != b {
        lemma_find_first(s.drop_first(), b);
        assert forall|j: int| 0 <= j < find_first(s, b) implies s[j] != b by {
            if j > 0 {
                assert(s.drop_first()[j - 1] != b);
            }
        }
    }
}

/// If `b` occurs at `i` and nowhere before, `find_first` yields `i`.
pub proof fn lemma_find_first_at(s: Seq<u8>, b: u8, i: int)
    requires
        0 <= i <= s.len(),
        i < s.len() ==> s[i] == b,
        forall|j: int| 0 <= j < i ==> s[j] != b,
        i == s.len() ==> forall|j: int| 0 <= j < s.len() ==> s[j] != b,
    ensures
        find_first(s, b) == i,
{
    lemma_find_first(s, b);
    let f = find_first(s, b);
    if f < i {
        assert(s[f] != b);
    }
    if i < f {
        assert(s[i] != b);
    }
}

/// One `key=value` part of a query string, both sides percent-decoded.
pub open spec fn parse_pair(s: Seq<u8>) -> Option<(Seq<u8>, Seq<u8>)> {
    let i = find_first(s, 0x3d);
    if i == s.len() {
        None
    } else {
        match (decode_bytes(s.take(i)), decode_bytes(s.skip(i + 1))) {
            (Some(k), Some(v)) => Some((k, v)),
            _ => None,
        }
    }
}

/// The `&`-separated parts of a non-empty query string, parsed in order.
pub open spec fn parse_parts(s: Seq<u8>) -> Option<Seq<(Seq<u8>, Seq<u8>)>>
    decreases s.len(),
{
    let i = find_first(s, 0x26);
    if i >= s.len() {
        match parse_pair(s) {
            Some(p) => Some(seq![p]),
            None => None,
        }
    } else if i < 0 {
        // find_first never yields a negative index; this branch only
        // keeps the recursion measure total.
        None
    } else {
        match (parse_pair(s.take(i)), parse_parts(s.skip(i + 1))) {
            (Some(p), Some(rest)) => Some(seq![p] + rest),
            _ => None,
        }
    }
}

/// A query string read back as ordered `key=value` pairs of bytes.
pub open spec fn parse_query_bytes(s: Seq<u8>) -> Option<Seq<(Seq<u8>, Seq<u8>)>> {
    if s.len() == 0 {
        Some(Seq::empty())
    } else {
        parse_parts(s)
    }
}

proof fn lemma_parse_pair_encode(p: (Seq<u8>, Seq<u8>))
    ensures
        parse_pair(encode_pair(p)) == Some(p),
{
    let s = encode_pair(p);
    let kl = encode_bytes(p.0).len() as int;
    lemma_encode_bytes_safe(p.0);
    lemma_encode_bytes_safe(p.1);
    assert(s[kl] == 0x3d);
    assert forall|j: int| 0 <= j < kl implies s[j] != 0x3d by {
        assert(s[j] == encode_bytes(p.0)[j]);
    }
    lemma_find_first_at(s, 0x3d, kl);
    assert(s.take(kl) =~= encode_bytes(p.0));
    assert(s.skip(kl + 1) =~= encode_bytes(p.1));
    lemma_decode_encode_bytes(p.0);
    lemma_decode_encode_bytes(p.1);
    assert(parse_pair(s) == Some((p.0, p.1)));
    assert((p.0, p.1) == p);
}

/// Re-parsing a produced query string yields back the original pairs.
pub proof fn lemma_parse_query_bytes(ps: Seq<(Seq<u8>, Seq<u8>)>)
    ensures
        parse_query_bytes(query_bytes(ps)) == Some(ps),
    decreases ps.len(),
{
    let s = query_bytes(ps);
    if ps.len() == 0 {
        assert(s =~= Seq::<u8>::empty());
        assert(Seq::<(Seq<u8>, Seq<u8>)>::empty() =~= ps);
    } else if ps.len() == 1 {
        let ep = encode_pair(ps[0]);
        lemma_encode_bytes_safe(ps[0].0);
        lemma_encode_bytes_safe(ps[0].1);
        assert(s =~= ep);
        assert(s.len() > 0);
        assert forall|j: int| 0 <= j < s.len() implies s[j] != 0x26 by {
            let kl = encode_bytes(ps[0].0).len() as int;
            if j < kl {
                assert(s[j] == encode_bytes(ps[0].0)[j]);
            } else if j > kl {
                assert(s[j] == encode_bytes(ps[0].1)[j - kl - 1]);
            }
        }
        lemma_find_first_at(s, 0x26, s.len() as int);
        lemma_parse_pair_encode(ps[0]);
        assert(seq![ps[0]] =~= ps);
    } else {
        let ep = encode_pair(ps[0]);
        let rest = query_bytes(ps.drop_first());
        assert(s =~= ep + seq![0x26u8] + rest);
        let el = ep.len() as int;
        lemma_encode_bytes_safe(ps[0].0);
        lemma_encode_bytes_safe(ps[0].1);
        assert(s[el] == 0x26);
        assert forall|j: int| 0 <= j < el implies s[j] != 0x26 by {
            let kl = encode_bytes(ps[0].0).len() as int;
            assert(s[j] == ep[j]);
            if j < kl {
                assert(ep[j] == encode_bytes(ps[0].0)[j]);
            } else if j > kl {
                assert(ep[j] == encode_bytes(ps[0].1)[j - kl - 1]);
            }
        }
        lemma_find_first_at(s, 0x26, el);
        assert(s.take(el) =~= ep);
        assert(s.skip(el + 1) =~= rest);
        lemma_parse_pair_encode(ps[0]);
        lemma_parse_query_bytes(ps.drop_first());
        assert(ps.drop_first().len() >= 1);
        assert(rest.len() > 0) by {
            lemma_query_bytes_nonempty(ps.drop_first());
        }
        assert(parse_parts(rest) == Some(ps.drop_first()));
        assert(seq![ps[0]] + ps.drop_first() =~= ps);
    }
}

/// A non-empty pair sequence never yields an empty query string: each
/// pair contributes at least its `=` separator.
pub proof fn lemma_query_bytes_nonempty(ps: Seq<(Seq<u8>, Seq<u8>)>)
    requires
        ps.len() >= 1,
    ensures
        query_bytes(ps).len() >= 1,
{
    let ep = encode_pair(ps[0]);
    assert(ep.len() >= 1);
}

/// Appending one pair extends the query string by `&` (unless it is the
/// first pair) and the pair's own encoding.
pub proof fn lemma_query_bytes_push(ps: Seq<(Seq<u8>, Seq<u8>)>, p: (Seq<u8>, Seq<u8>))
    ensures
        ps.len() == 0 ==> query_bytes(ps.push(p)) == encode_pair(p),
        ps.len() >= 1 ==> query_bytes(ps.push(p)) == query_bytes(ps) + seq![0x26u8] + encode_pair(
            p,
        ),
    decreases ps.len(),
{
    let q = ps.push(p);
    if ps.len() == 0 {
        assert(q[0] == p);
        assert(query_bytes(q) =~= encode_pair(p));
    } else if ps.len() == 1 {
        assert(q[0] == ps[0]);
        assert(q.drop_first() =~= seq![p]);
        assert(query_bytes(seq![p]) =~= encode_pair(p));
        assert(query_bytes(q) =~= query_bytes(ps) + seq![0x26u8] + encode_pair(p));
    } else {
        lemma_query_bytes_push(ps.drop_first(), p);
        assert(q[0] == ps[0]);
        assert(q.drop_first() =~= ps.drop_first().push(p));
        assert(query_bytes(q) =~= query_bytes(ps) + seq![0x26u8] + encode_pair(p));
    }
}

/// Every byte of a query string is ASCII.
pub proof fn lemma_query_bytes_ascii(ps: Seq<(Seq<u8>, Seq<u8>)>)
    ensures
        forall|j: int| 0 <= j < query_bytes(ps).len() ==> #[trigger] query_bytes(ps)[j] < 0x80,
    decreases ps.len(),
{
    if ps.len() >= 1 {
        let ep = encode_pair(ps[0]);
        lemma_encode_bytes_safe(ps[0].0);
        lemma_encode_bytes_safe(ps[0].1);
        assert forall|j: int| 0 <= j < ep.len() implies ep[j] < 0x80 by {
            let kl = encode_bytes(ps[0].0).len() as int;
            if j < kl {
                assert(ep[j] == encode_bytes(ps[0].0)[j]);
            } else if j > kl {
                assert(ep[j] == encode_bytes(ps[0].1)[j - kl - 1]);
            }
        }
        if ps.len() == 1 {
            assert(query_bytes(ps) =~= ep);
        } else {
            lemma_query_bytes_ascii(ps.drop_first());
            let rest = query_bytes(ps.drop_first());
            assert(query_bytes(ps) =~= ep + seq![0x26u8] + rest);
            assert forall|j: int| 0 <= j < query_bytes(ps).len() implies #[trigger] query_bytes(
                ps,
            )[j] < 0x80 by {
                if j < ep.len() {
                    assert(query_bytes(ps)[j] == ep[j]);
                } else if j > ep.len() {
                    assert(query_bytes(ps)[j] == rest[j - ep.len() - 1]);
                }
            }
        }
    }
}

/// The characters of an ASCII byte string, one per byte.
pub open spec fn ascii_view(bs: Seq<u8>) -> Seq<char> {
    bs.map_values(|b: u8| b as char)
}

} // verus!
