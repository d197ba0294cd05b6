//! The filter builder: an ordered set of `(key, value)` pairs
//! accumulated fluently and serialized into a percent-encoded query
//! string.
use crate::pct::{
    ascii_view, encode_pair, parse_query_bytes, query_bytes, lemma_query_bytes_ascii,
    lemma_query_bytes_push, lemma_parse_query_bytes,
};
use vstd::prelude::*;
use vstd::string::StringExecFns;
use vstd::utf8::{
    decode_utf8, encode_utf8, valid_utf8, encode_utf8_decode_utf8, encode_utf8_valid_utf8,
    is_ascii_chars, is_ascii_chars_encode_utf8,
};

verus! {

/// An ordered filter set. Pairs keep their insertion order, and
/// duplicate keys are preserved: both appear in the query string.
pub struct Search {
    pub pairs: Vec<(String, String)>,
}

impl View for Search {
    type V = Seq<(Seq<char>, Seq<char>)>;

    open spec fn view(&self) -> Seq<(Seq<char>, Seq<char>)> {
        self.pairs@.map_values(|p: (String, String)| (p.0@, p.1@))
    }
}

/// The UTF-8 bytes of each pair, which the query string encodes.
pub open spec fn byte_pairs(pv: Seq<(Seq<char>, Seq<char>)>) -> Seq<(Seq<u8>, Seq<u8>)> {
    pv.map_values(|p: (Seq<char>, Seq<char>)| (encode_utf8(p.0), encode_utf8(p.1)))
}

/// The query string of a filter set, as characters: the pairs
/// percent-encoded and joined with `&`, in insertion order.
pub open spec fn query_view(pv: Seq<(Seq<char>, Seq<char>)>) -> Seq<char> {
    ascii_view(query_bytes(byte_pairs(pv)))
}

impl Search {
    /// The empty filter set.
    pub fn new() -> (r: Search)
        ensures
            r@ == Seq::<(Seq<char>, Seq<char>)>::empty(),
    {
        let r = Search { pairs: Vec::new() };
        proof {
            assert(r@ =~= Seq::<(Seq<char>, Seq<char>)>::empty());
        }
        r
    }

    /// Appends one `(key, value)` pair, keeping all earlier pairs.
    pub fn filter(self, key: &str, value: &str) -> (r: Search)
        ensures
            r@ == self@.push((key@, value@)),
    {
        let mut pairs = self.pairs;
        pairs.push((key.to_owned(), value.to_owned()));
        let r = Search { pairs };
        proof {
            assert(r@ =~= self@.push((key@, value@)));
        }
        r
    }

    /// Serializes the filter set: each key and value percent-encoded,
    /// joined by `=`, the pairs joined by `&`, in insertion order. An
    /// empty filter set yields the empty string.
    pub fn query_string(&self) -> (r: String)
        ensures
            r@ == query_view(self@),
    {
        let mut out: Vec<u8> = Vec::new();
        let mut i: usize = 0;
        proof {
            assert(byte_pairs(self@).take(0) =~= Seq::<(Seq<u8>, Seq<u8>)>::empty());
            assert(out@ =~= query_bytes(byte_pairs(self@).take(0)));
        }
        while i < self.pairs.len()
            invariant
                i <= self.pairs@.len(),
                byte_pairs(self@).len() == self.pairs@.len(),
                out@ == query_bytes(byte_pairs(self@).take(i as int)),
            decreases self.pairs@.len() - i,
        {
            if i > 0 {
                out.push(0x26);
            }
            let ghost before: Seq<u8> = out@;
            let p = &self.pairs[i];
            crate::pct::encode_append(&mut out, p.0.as_str().as_bytes());
            out.push(0x3d);
            crate::pct::encode_append(&mut out, p.1.as_str().as_bytes());
            proof {
                let bp = byte_pairs(self@);
                assert(bp[i as int] == (encode_utf8(p.0@), encode_utf8(p.1@)));
                assert(out@ =~= before + encode_pair(bp[i as int]));
                lemma_query_bytes_push(bp.take(i as int), bp[i as int]);
                assert(bp.take(i + 1) =~= bp.take(i as int).push(bp[i as int]));
                if i == 0 {
                    assert(out@ =~= query_bytes(bp.take(i + 1)));
                } else {
                    assert(out@ =~= query_bytes(bp.take(i as int)) + seq![0x26u8] + encode_pair(
                        bp[i as int],
                    ));
                    assert(out@ =~= query_bytes(bp.take(i + 1)));
                }
            }
            i = i + 1;
        }
        proof {
            assert(byte_pairs(self@).take(self.pairs@.len() as int) =~= byte_pairs(self@));
            lemma_query_bytes_ascii(byte_pairs(self@));
        }
        ascii_to_string(out)
    }
}

impl Default for Search {
    /// The empty filter set, for fluent accumulation.
    fn default() -> (r: Search)
        ensures
            r@ == Seq::<(Seq<char>, Seq<char>)>::empty(),
    {
        Search::new()
    }
}

/// Relies on String::from_utf8: a byte string entirely below 0x80 is
/// valid UTF-8 and decodes to the string of exactly those character
/// codes.
#[verifier::external_body]
fn ascii_to_string(v: Vec<u8>) -> (r: String)
    requires
        forall|i: int| 0 <= i < v@.len() ==> v@[i] < 0x80,
    ensures
        r@ == ascii_view(v@),
{
    match String::from_utf8(v) {
        Ok(s) => s,
        Err(_) => String::new(),
    }
}

/// A query string re-parsed as URL query parameters: `&`-separated
/// `key=value` parts, each side percent-decoded and read back as UTF-8
/// text; `None` where the string is not in that shape.
pub open spec fn reparse_query(s: Seq<char>) -> Option<Seq<(Seq<char>, Seq<char>)>> {
    match parse_query_bytes(encode_utf8(s)) {
        None => None,
        Some(bps) => if forall|i: int|
            0 <= i < bps.len() ==> valid_utf8(#[trigger] bps[i].0) && valid_utf8(bps[i].1) {
            Some(Seq::new(bps.len(), |i: int| (decode_utf8(bps[i].0), decode_utf8(bps[i].1))))
        } else {
            None
        },
    }
}

/// Round trip: re-parsing the query string produced for any filter set
/// yields back the original ordered pairs.
pub proof fn lemma_query_round_trip(pv: Seq<(Seq<char>, Seq<char>)>)
    ensures
        reparse_query(query_view(pv)) == Some(pv),
{
    let bps = byte_pairs(pv);
    let qb = query_bytes(bps);
    let qc = ascii_view(qb);
    lemma_query_bytes_ascii(bps);
    assert(is_ascii_chars(qc)) by {
        assert forall|i: int| 0 <= i < qc.len() implies '\0' <= #[trigger] qc[i] <= '\u{7f}' by {
            assert(qc[i] == qb[i] as char);
            assert(qb[i] < 0x80);
        }
    }
    is_ascii_chars_encode_utf8(qc);
    assert(encode_utf8(qc) =~= qb) by {
        assert(forall|i: int| 0 <= i < qb.len() ==> #[trigger] encode_utf8(qc)[i] == qb[i]);
    }
    lemma_parse_query_bytes(bps);
    assert(parse_query_bytes(encode_utf8(qc)) == Some(bps));
    assert forall|i: int| 0 <= i < bps.len() implies valid_utf8(#[trigger] bps[i].0) && valid_utf8(
        bps[i].1,
    ) by {
        encode_utf8_valid_utf8(pv[i].0);
        encode_utf8_valid_utf8(pv[i].1);
    }
    let parsed = Seq::new(bps.len(), |i: int| (decode_utf8(bps[i].0), decode_utf8(bps[i].1)));
    assert(parsed =~= pv) by {
        assert forall|i: int| 0 <= i < pv.len() implies parsed[i] == pv[i] by {
            encode_utf8_decode_utf8(pv[i].0);
            encode_utf8_decode_utf8(pv[i].1);
            assert((pv[i].0, pv[i].1) == pv[i]);
        }
    }
}

} // verus!
