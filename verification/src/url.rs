//! The provider query URL, assembled from its fixed parts.

use vstd::prelude::*;

verus! {

/// The endpoint and the daily-series function, up to the symbol value:
/// `https://www.alphavantage.co/query?function=TIME_SERIES_DAILY&symbol=`.
pub open spec fn url_base() -> Seq<u8> {
    seq![104u8, 116, 116, 112, 115, 58, 47, 47, 119, 119, 119, 46, 97, 108, 112, 104, 97, 118, 97, 110, 116, 97, 103, 101, 46, 99, 111, 47, 113, 117, 101, 114, 121, 63, 102, 117, 110, 99, 116, 105, 111, 110, 61, 84, 73, 77, 69, 95, 83, 69, 82, 73, 69, 83, 95, 68, 65, 73, 76, 89, 38, 115, 121, 109, 98, 111, 108, 61]
}

/// The key parameter between symbol and key: `&apikey=`.
pub open spec fn url_key_sep() -> Seq<u8> {
    seq![38u8, 97, 112, 105, 107, 101, 121, 61]
}

/// The full query URL for one fetch of a symbol's daily series.
pub open spec fn query_url(symbol: Seq<u8>, api_key: Seq<u8>) -> Seq<u8> {
    url_base() + symbol + url_key_sep() + api_key
}

#[verifier::rlimit(100)]
fn url_base_bytes() -> (v: Vec<u8>)
    ensures
        v@ == url_base(),
{
    let mut v: Vec<u8> = Vec::new();
    v.push(104);
    v.push(116);
    v.push(116);
    v.push(112);
    v.push(115);
    v.push(58);
    v.push(47);
    v.push(47);
    v.push(119);
    v.push(119);
    v.push(119);
    v.push(46);
    v.push(97);
    v.push(108);
    v.push(112);
    v.push(104);
    v.push(97);
    v.push(118);
    v.push(97);
    v.push(110);
    v.push(116);
    v.push(97);
    v.push(103);
    v.push(101);
    v.push(46);
    v.push(99);
    v.push(111);
    v.push(47);
    v.push(113);
    v.push(117);
    v.push(101);
    v.push(114);
    v.push(121);
    v.push(63);
    v.push(102);
    v.push(117);
    v.push(110);
    v.push(99);
    v.push(116);
    v.push(105);
    v.push(111);
    v.push(110);
    v.push(61);
    v.push(84);
    v.push(73);
    v.push(77);
    v.push(69);
    v.push(95);
    v.push(83);
    v.push(69);
    v.push(82);
    v.push(73);
    v.push(69);
    v.push(83);
    v.push(95);
    v.push(68);
    v.push(65);
    v.push(73);
    v.push(76);
    v.push(89);
    v.push(38);
    v.push(115);
    v.push(121);
    v.push(109);
    v.push(98);
    v.push(111);
    v.push(108);
    v.push(61);
    proof {
        assert(v@ =~= url_base());
    }
    v
}

fn url_key_sep_bytes() -> (v: Vec<u8>)
    ensures
        v@ == url_key_sep(),
{
    let mut v: Vec<u8> = Vec::new();
    v.push(38);
    v.push(97);
    v.push(112);
    v.push(105);
    v.push(107);
    v.push(101);
    v.push(121);
    v.push(61);
    proof {
        assert(v@ =~= url_key_sep());
    }
    v
}

/// Builds the GET URL carrying `function=TIME_SERIES_DAILY`, the symbol and
/// the API key, byte for byte as `query_url` lays it out.
pub fn build_query_url(symbol: &[u8], api_key: &[u8]) -> (r: Vec<u8>)
    ensures
        r@ == query_url(symbol@, api_key@),
{
    let mut v = url_base_bytes();
    v.extend_from_slice(symbol);
    let sep = url_key_sep_bytes();
    v.extend_from_slice(sep.as_slice());
    v.extend_from_slice(api_key);
    proof {
        assert(v@ =~= query_url(symbol@, api_key@));
    }
    v
}

} // verus!
