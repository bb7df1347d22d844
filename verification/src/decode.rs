//! Decoding the provider's daily time-series payload.
//!
//! The payload is a JSON object whose member `"Time Series (Daily)"` maps
//! date strings to objects with the five members `"1. open"`, `"2. high"`,
//! `"3. low"`, `"4. close"` and `"5. volume"`, each a JSON string. Other
//! members anywhere are skipped; a missing or duplicated required member,
//! a non-string field value, or any malformed JSON is a decode error. A
//! date seen twice keeps the later record, as a map rebuilt by insertion
//! would.
//!
//! Captured strings — dates, field values and the keys compared against
//! the schema's member names — keep their escape sequences verbatim, never
//! decoded. A member key written with escapes (the series key spelled with
//! `\uXXXX`, say) therefore does not match its plain spelling, and a date
//! written two ways gives two distinct keys.

use vstd::prelude::*;
use crate::bytes::bytes_eq;
use crate::json::scan_string;
use crate::json::skip_value;
use crate::json::skip_ws;
use crate::json::str_body_end;
use crate::json::value_end;
use crate::json::ws_end;
use crate::series::DailyRecord;
use crate::series::RecordModel;
use crate::series::TimeSeries;
use crate::series::spec_insert;

verus! {

/// Why a fetch produced no time series: the transport failed, or the body
/// did not decode as the expected schema.
#[derive(Debug, Clone, Copy, PartialEq, Eq, Structural)]
pub enum FetchError {
    NetworkError,
    DecodeError,
}

/// The top-level member holding the series: `"Time Series (Daily)"`.
pub open spec fn ts_key() -> Seq<u8> {
    seq![84u8, 105, 109, 101, 32, 83, 101, 114, 105, 101, 115, 32, 40, 68, 97, 105, 108, 121, 41]
}

/// `"1. open"`.
pub open spec fn key_open() -> Seq<u8> {
    seq![49u8, 46, 32, 111, 112, 101, 110]
}

/// `"2. high"`.
pub open spec fn key_high() -> Seq<u8> {
    seq![50u8, 46, 32, 104, 105, 103, 104]
}

/// `"3. low"`.
pub open spec fn key_low() -> Seq<u8> {
    seq![51u8, 46, 32, 108, 111, 119]
}

/// `"4. close"`.
pub open spec fn key_close() -> Seq<u8> {
    seq![52u8, 46, 32, 99, 108, 111, 115, 101]
}

/// `"5. volume"`.
pub open spec fn key_volume() -> Seq<u8> {
    seq![53u8, 46, 32, 118, 111, 108, 117, 109, 101]
}

/// The five record fields as gathered so far while reading a record object.
pub struct RecordFields {
    pub open: Option<Seq<u8>>,
    pub high: Option<Seq<u8>>,
    pub low: Option<Seq<u8>>,
    pub close: Option<Seq<u8>>,
    pub volume: Option<Seq<u8>>,
}

/// No field gathered yet.
pub open spec fn empty_fields() -> RecordFields {
    RecordFields { open: None, high: None, low: None, close: None, volume: None }
}

/// Stores a required field's value, refusing a duplicate.
pub open spec fn set_field(acc: RecordFields, key: Seq<u8>, val: Seq<u8>) -> Option<RecordFields> {
    if key == key_open() {
        if acc.open is Some {
            None
        } else {
            Some(RecordFields { open: Some(val), ..acc })
        }
    } else if key == key_high() {
        if acc.high is Some {
            None
        } else {
            Some(RecordFields { high: Some(val), ..acc })
        }
    } else if key == key_low() {
        if acc.low is Some {
            None
        } else {
            Some(RecordFields { low: Some(val), ..acc })
        }
    } else if key == key_close() {
        if acc.close is Some {
            None
        } else {
            Some(RecordFields { close: Some(val), ..acc })
        }
    } else if key == key_volume() {
        if acc.volume is Some {
            None
        } else {
            Some(RecordFields { volume: Some(val), ..acc })
        }
    } else {
        None
    }
}

/// Reads one record member's value: a required field must be a JSON string
/// and not a duplicate; any other member is skipped whatever its shape.
pub open spec fn rec_member_value(
    s: Seq<u8>,
    v: int,
    fuel: nat,
    key: Seq<u8>,
    acc: RecordFields,
) -> Option<(RecordFields, int)> {
    if key == key_open() || key == key_high() || key == key_low() || key == key_close() || key
        == key_volume() {
        if !(0 <= v < s.len() && s[v] == 34) {
            None
        } else {
            match str_body_end(s, v + 1) {
                None => None,
                Some((val, ve)) => match set_field(acc, key, val) {
                    None => None,
                    Some(acc2) => Some((acc2, ve)),
                },
            }
        }
    } else {
        match value_end(s, v, (fuel - 1) as nat) {
            None => None,
            Some(ve) => Some((acc, ve)),
        }
    }
}

/// Reads the members of a record object from the first key's quote.
pub open spec fn rec_members(s: Seq<u8>, j: int, fuel: nat, acc: RecordFields) -> Option<
    (RecordFields, int),
>
    decreases fuel,
{
    if fuel == 0 {
        None
    } else if !(0 <= j < s.len() && s[j] == 34) {
        None
    } else {
        match str_body_end(s, j + 1) {
            None => None,
            Some((key, e)) => {
                let c = ws_end(s, e);
                if !(c < s.len() && s[c] == 58) {
                    None
                } else {
                    let v = ws_end(s, c + 1);
                    match rec_member_value(s, v, fuel, key, acc) {
                        None => None,
                        Some((acc2, ve)) => {
                            let t = ws_end(s, ve);
                            if t < s.len() && s[t] == 125 {
                                Some((acc2, t + 1))
                            } else if t < s.len() && s[t] == 44 {
                                rec_members(s, ws_end(s, t + 1), (fuel - 1) as nat, acc2)
                            } else {
                                None
                            }
                        },
                    }
                }
            },
        }
    }
}

/// A record needs all five fields.
pub open spec fn fields_complete(f: RecordFields) -> Option<RecordModel> {
    match (f.open, f.high, f.low, f.close, f.volume) {
        (Some(o), Some(h), Some(l), Some(c), Some(v)) => Some(
            RecordModel { open: o, high: h, low: l, close: c, volume: v },
        ),
        _ => None,
    }
}

/// Reads one record object: `{` … the five fields … `}`.
pub open spec fn record_object(s: Seq<u8>, i: int, fuel: nat) -> Option<(RecordModel, int)>
    decreases fuel,
{
    if fuel == 0 {
        None
    } else if !(0 <= i < s.len() && s[i] == 123) {
        None
    } else {
        let j = ws_end(s, i + 1);
        if j < s.len() && s[j] == 125 {
            None
        } else {
            match rec_members(s, j, (fuel - 1) as nat, empty_fields()) {
                None => None,
                Some((f, e)) => match fields_complete(f) {
                    None => None,
                    Some(rm) => Some((rm, e)),
                },
            }
        }
    }
}

/// Reads the members of the series object: each is a date string mapped to
/// a record object, stored with the later of two records for one date.
pub open spec fn series_members(
    s: Seq<u8>,
    j: int,
    fuel: nat,
    acc: Seq<(Seq<u8>, RecordModel)>,
) -> Option<(Seq<(Seq<u8>, RecordModel)>, int)>
    decreases fuel,
{
    if fuel == 0 {
        None
    } else if !(0 <= j < s.len() && s[j] == 34) {
        None
    } else {
        match str_body_end(s, j + 1) {
            None => None,
            Some((date, e)) => {
                let c = ws_end(s, e);
                if !(c < s.len() && s[c] == 58) {
                    None
                } else {
                    let v = ws_end(s, c + 1);
                    match record_object(s, v, (fuel - 1) as nat) {
                        None => None,
                        Some((rm, ve)) => {
                            let acc2 = spec_insert(acc, date, rm);
                            let t = ws_end(s, ve);
                            if t < s.len() && s[t] == 125 {
                                Some((acc2, t + 1))
                            } else if t < s.len() && s[t] == 44 {
                                series_members(s, ws_end(s, t + 1), (fuel - 1) as nat, acc2)
                            } else {
                                None
                            }
                        },
                    }
                }
            },
        }
    }
}

/// Reads the series object itself; it may be empty.
pub open spec fn series_object(s: Seq<u8>, i: int, fuel: nat) -> Option<
    (Seq<(Seq<u8>, RecordModel)>, int),
>
    decreases fuel,
{
    if fuel == 0 {
        None
    } else if !(0 <= i < s.len() && s[i] == 123) {
        None
    } else {
        let j = ws_end(s, i + 1);
        if j < s.len() && s[j] == 125 {
            Some((Seq::empty(), j + 1))
        } else {
            series_members(s, j, (fuel - 1) as nat, Seq::empty())
        }
    }
}

/// Reads the top-level members: the series under `"Time Series (Daily)"`
/// (a duplicate of it is an error), everything else skipped.
pub open spec fn top_members(
    s: Seq<u8>,
    j: int,
    fuel: nat,
    found: Option<Seq<(Seq<u8>, RecordModel)>>,
) -> Option<(Option<Seq<(Seq<u8>, RecordModel)>>, int)>
    decreases fuel,
{
    if fuel == 0 {
        None
    } else if !(0 <= j < s.len() && s[j] == 34) {
        None
    } else {
        match str_body_end(s, j + 1) {
            None => None,
            Some((key, e)) => {
                let c = ws_end(s, e);
                if !(c < s.len() && s[c] == 58) {
                    None
                } else {
                    let v = ws_end(s, c + 1);
                    let stepped: Option<(Option<Seq<(Seq<u8>, RecordModel)>>, int)> = if key
                        == ts_key() {
                        if found is Some {
                            None
                        } else {
                            match series_object(s, v, (fuel - 1) as nat) {
                                None => None,
                                Some((m, ve)) => Some((Some(m), ve)),
                            }
                        }
                    } else {
                        match value_end(s, v, (fuel - 1) as nat) {
                            None => None,
                            Some(ve) => Some((found, ve)),
                        }
                    };
                    match stepped {
                        None => None,
                        Some((found2, ve)) => {
                            let t = ws_end(s, ve);
                            if t < s.len() && s[t] == 125 {
                                Some((found2, t + 1))
                            } else if t < s.len() && s[t] == 44 {
                                top_members(s, ws_end(s, t + 1), (fuel - 1) as nat, found2)
                            } else {
                                None
                            }
                        },
                    }
                }
            },
        }
    }
}

/// Fuel granted to the decoder: ample for any input, since every construct
/// consumes input and only a few steps ever stand at one position.
pub open spec fn decode_fuel(s: Seq<u8>) -> nat {
    4 * s.len() + 16
}

/// The decoded series, or `None` when the body does not match the schema:
/// whitespace, one top-level object holding the series member, whitespace,
/// end of input.
pub open spec fn spec_decode(s: Seq<u8>) -> Option<Seq<(Seq<u8>, RecordModel)>> {
    let i = ws_end(s, 0);
    if !(0 <= i < s.len() && s[i] == 123) {
        None
    } else {
        let j = ws_end(s, i + 1);
        if j < s.len() && s[j] == 125 {
            None
        } else {
            match top_members(s, j, decode_fuel(s), None) {
                None => None,
                Some((found, e)) => match found {
                    None => None,
                    Some(m) => if ws_end(s, e) == s.len() {
                        Some(m)
                    } else {
                        None
                    },
                },
            }
        }
    }
}

/// Which record field a member key names, if any.
#[derive(Clone, Copy)]
enum FieldKind {
    Open,
    High,
    Low,
    Close,
    Volume,
    Other,
}

fn ts_key_bytes() -> (v: Vec<u8>)
    ensures
        v@ == ts_key(),
{
    let mut v: Vec<u8> = Vec::new();
    v.push(84);
    v.push(105);
    v.push(109);
    v.push(101);
    v.push(32);
    v.push(83);
    v.push(101);
    v.push(114);
    v.push(105);
    v.push(101);
    v.push(115);
    v.push(32);
    v.push(40);
    v.push(68);
    v.push(97);
    v.push(105);
    v.push(108);
    v.push(121);
    v.push(41);
    proof {
        assert(v@ =~= ts_key());
    }
    v
}

fn key_open_bytes() -> (v: Vec<u8>)
    ensures
        v@ == key_open(),
{
    let mut v: Vec<u8> = Vec::new();
    v.push(49);
    v.push(46);
    v.push(32);
    v.push(111);
    v.push(112);
    v.push(101);
    v.push(110);
    proof {
        assert(v@ =~= key_open());
    }
    v
}

fn key_high_bytes() -> (v: Vec<u8>)
    ensures
        v@ == key_high(),
{
    let mut v: Vec<u8> = Vec::new();
    v.push(50);
    v.push(46);
    v.push(32);
    v.push(104);
    v.push(105);
    v.push(103);
    v.push(104);
    proof {
        assert(v@ =~= key_high());
    }
    v
}

fn key_low_bytes() -> (v: Vec<u8>)
    ensures
        v@ == key_low(),
{
    let mut v: Vec<u8> = Vec::new();
    v.push(51);
    v.push(46);
    v.push(32);
    v.push(108);
    v.push(111);
    v.push(119);
    proof {
        assert(v@ =~= key_low());
    }
    v
}

fn key_close_bytes() -> (v: Vec<u8>)
    ensures
        v@ == key_close(),
{
    let mut v: Vec<u8> = Vec::new();
    v.push(52);
    v.push(46);
    v.push(32);
    v.push(99);
    v.push(108);
    v.push(111);
    v.push(115);
    v.push(101);
    proof {
        assert(v@ =~= key_close());
    }
    v
}

fn key_volume_bytes() -> (v: Vec<u8>)
    ensures
        v@ == key_volume(),
{
    let mut v: Vec<u8> = Vec::new();
    v.push(53);
    v.push(46);
    v.push(32);
    v.push(118);
    v.push(111);
    v.push(108);
    v.push(117);
    v.push(109);
    v.push(101);
    proof {
        assert(v@ =~= key_volume());
    }
    v
}

fn classify_key(key: &[u8]) -> (r: FieldKind)
    ensures
        (r is Open) == (key@ == key_open()),
        (r is High) == (key@ == key_high()),
        (r is Low) == (key@ == key_low()),
        (r is Close) == (key@ == key_close()),
        (r is Volume) == (key@ == key_volume()),
{
    proof {
        assert(key_open()[0] == 49 && key_high()[0] == 50 && key_low()[0] == 51 && key_close()[0]
            == 52 && key_volume()[0] == 53);
    }
    let k1 = key_open_bytes();
    if bytes_eq(key, k1.as_slice()) {
        return FieldKind::Open;
    }
    let k2 = key_high_bytes();
    if bytes_eq(key, k2.as_slice()) {
        return FieldKind::High;
    }
    let k3 = key_low_bytes();
    if bytes_eq(key, k3.as_slice()) {
        return FieldKind::Low;
    }
    let k4 = key_close_bytes();
    if bytes_eq(key, k4.as_slice()) {
        return FieldKind::Close;
    }
    let k5 = key_volume_bytes();
    if bytes_eq(key, k5.as_slice()) {
        return FieldKind::Volume;
    }
    FieldKind::Other
}

/// The record fields gathered so far, executably.
struct RecordBuilder {
    open: Option<Vec<u8>>,
    high: Option<Vec<u8>>,
    low: Option<Vec<u8>>,
    close: Option<Vec<u8>>,
    volume: Option<Vec<u8>>,
}

spec fn opt_bytes_view(o: Option<Vec<u8>>) -> Option<Seq<u8>> {
    match o {
        Some(v) => Some(v@),
        None => None,
    }
}

impl View for RecordBuilder {
    type V = RecordFields;

    closed spec fn view(&self) -> RecordFields {
        RecordFields {
            open: opt_bytes_view(self.open),
            high: opt_bytes_view(self.high),
            low: opt_bytes_view(self.low),
            close: opt_bytes_view(self.close),
            volume: opt_bytes_view(self.volume),
        }
    }
}

fn rec_member_value_exec(s: &[u8], v: usize, fuel: u128, key: &Vec<u8>, b: RecordBuilder) -> (r:
    Option<(RecordBuilder, usize)>)
    requires
        v <= s@.len(),
        fuel >= 1,
    ensures
        match r {
            Some((b2, ve)) => rec_member_value(s@, v as int, fuel as nat, key@, b@) == Some(
                (b2@, ve as int),
            ) && v < ve <= s@.len(),
            None => rec_member_value(s@, v as int, fuel as nat, key@, b@) is None,
        },
{
    let kind = classify_key(key.as_slice());
    let known: bool = match kind {
        FieldKind::Other => false,
        _ => true,
    };
    if !known {
        match skip_value(s, v, fuel - 1) {
            None => None,
            Some(ve) => Some((b, ve)),
        }
    } else {
        let n = s.len();
        if !(v < n && s[v] == 34) {
            return None;
        }
        match scan_string(s, v + 1) {
            None => None,
            Some((val, ve)) => {
                let b2: Option<RecordBuilder> = match kind {
                    FieldKind::Open => {
                        if b.open.is_some() {
                            None
                        } else {
                            Some(
                                RecordBuilder {
                                    open: Some(val),
                                    high: b.high,
                                    low: b.low,
                                    close: b.close,
                                    volume: b.volume,
                                },
                            )
                        }
                    },
                    FieldKind::High => {
                        if b.high.is_some() {
                            None
                        } else {
                            Some(
                                RecordBuilder {
                                    open: b.open,
                                    high: Some(val),
                                    low: b.low,
                                    close: b.close,
                                    volume: b.volume,
                                },
                            )
                        }
                    },
                    FieldKind::Low => {
                        if b.low.is_some() {
                            None
                        } else {
                            Some(
                                RecordBuilder {
                                    open: b.open,
                                    high: b.high,
                                    low: Some(val),
                                    close: b.close,
                                    volume: b.volume,
                                },
                            )
                        }
                    },
                    FieldKind::Close => {
                        if b.close.is_some() {
                            None
                        } else {
                            Some(
                                RecordBuilder {
                                    open: b.open,
                                    high: b.high,
                                    low: b.low,
                                    close: Some(val),
                                    volume: b.volume,
                                },
                            )
                        }
                    },
                    FieldKind::Volume => {
                        if b.volume.is_some() {
                            None
                        } else {
                            Some(
                                RecordBuilder {
                                    open: b.open,
                                    high: b.high,
                                    low: b.low,
                                    close: b.close,
                                    volume: Some(val),
                                },
                            )
                        }
                    },
                    FieldKind::Other => None,
                };
                match b2 {
                    None => None,
                    Some(b3) => Some((b3, ve)),
                }
            },
        }
    }
}

fn rec_members_exec(s: &[u8], j: usize, fuel: u128, b: RecordBuilder) -> (r: Option<
    (RecordBuilder, usize),
>)
    requires
        j <= s@.len(),
    ensures
        match r {
            Some((b2, e)) => rec_members(s@, j as int, fuel as nat, b@) == Some((b2@, e as int))
                && j < e <= s@.len(),
            None => rec_members(s@, j as int, fuel as nat, b@) is None,
        },
    decreases fuel,
{
    if fuel == 0 {
        return None;
    }
    let n = s.len();
    if !(j < n && s[j] == 34) {
        return None;
    }
    match scan_string(s, j + 1) {
        None => None,
        Some((key, e)) => {
            let c = skip_ws(s, e);
            if !(c < n && s[c] == 58) {
                return None;
            }
            let v = skip_ws(s, c + 1);
            match rec_member_value_exec(s, v, fuel, &key, b) {
                None => None,
                Some((b2, ve)) => {
                    let t = skip_ws(s, ve);
                    if t < n && s[t] == 125 {
                        Some((b2, t + 1))
                    } else if t < n && s[t] == 44 {
                        let nj = skip_ws(s, t + 1);
                        rec_members_exec(s, nj, fuel - 1, b2)
                    } else {
                        None
                    }
                },
            }
        },
    }
}

fn record_object_exec(s: &[u8], i: usize, fuel: u128) -> (r: Option<(DailyRecord, usize)>)
    requires
        i <= s@.len(),
    ensures
        match r {
            Some((rec, e)) => record_object(s@, i as int, fuel as nat) == Some((rec@, e as int))
                && i < e <= s@.len(),
            None => record_object(s@, i as int, fuel as nat) is None,
        },
    decreases fuel,
{
    if fuel == 0 {
        return None;
    }
    let n = s.len();
    if !(i < n && s[i] == 123) {
        return None;
    }
    let j = skip_ws(s, i + 1);
    if j < n && s[j] == 125 {
        return None;
    }
    let b0 = RecordBuilder { open: None, high: None, low: None, close: None, volume: None };
    assert(b0@ == empty_fields());
    match rec_members_exec(s, j, fuel - 1, b0) {
        None => None,
        Some((b2, e)) => {
            if b2.open.is_some() && b2.high.is_some() && b2.low.is_some() && b2.close.is_some()
                && b2.volume.is_some() {
                let rec = DailyRecord {
                    open: b2.open.unwrap(),
                    high: b2.high.unwrap(),
                    low: b2.low.unwrap(),
                    close: b2.close.unwrap(),
                    volume: b2.volume.unwrap(),
                };
                Some((rec, e))
            } else {
                None
            }
        },
    }
}

fn series_members_exec(s: &[u8], j: usize, fuel: u128, acc: TimeSeries) -> (r: Option<
    (TimeSeries, usize),
>)
    requires
        j <= s@.len(),
        acc.wf(),
    ensures
        match r {
            Some((ts, e)) => series_members(s@, j as int, fuel as nat, acc@) == Some(
                (ts@, e as int),
            ) && j < e <= s@.len() && ts.wf(),
            None => series_members(s@, j as int, fuel as nat, acc@) is None,
        },
    decreases fuel,
{
    if fuel == 0 {
        return None;
    }
    let n = s.len();
    if !(j < n && s[j] == 34) {
        return None;
    }
    match scan_string(s, j + 1) {
        None => None,
        Some((date, e)) => {
            let c = skip_ws(s, e);
            if !(c < n && s[c] == 58) {
                return None;
            }
            let v = skip_ws(s, c + 1);
            match record_object_exec(s, v, fuel - 1) {
                None => None,
                Some((rec, ve)) => {
                    let mut acc2 = acc;
                    acc2.insert(date, rec);
                    let t = skip_ws(s, ve);
                    if t < n && s[t] == 125 {
                        Some((acc2, t + 1))
                    } else if t < n && s[t] == 44 {
                        let nj = skip_ws(s, t + 1);
                        series_members_exec(s, nj, fuel - 1, acc2)
                    } else {
                        None
                    }
                },
            }
        },
    }
}

fn series_object_exec(s: &[u8], i: usize, fuel: u128) -> (r: Option<(TimeSeries, usize)>)
    requires
        i <= s@.len(),
    ensures
        match r {
            Some((ts, e)) => series_object(s@, i as int, fuel as nat) == Some((ts@, e as int))
                && i < e <= s@.len() && ts.wf(),
            None => series_object(s@, i as int, fuel as nat) is None,
        },
    decreases fuel,
{
    if fuel == 0 {
        return None;
    }
    let n = s.len();
    if !(i < n && s[i] == 123) {
        return None;
    }
    let j = skip_ws(s, i + 1);
    if j < n && s[j] == 125 {
        return Some((TimeSeries::new(), j + 1));
    }
    series_members_exec(s, j, fuel - 1, TimeSeries::new())
}

spec fn opt_series_view(o: Option<TimeSeries>) -> Option<Seq<(Seq<u8>, RecordModel)>> {
    match o {
        Some(ts) => Some(ts@),
        None => None,
    }
}

spec fn opt_series_wf(o: Option<TimeSeries>) -> bool {
    match o {
        Some(ts) => ts.wf(),
        None => true,
    }
}

fn top_members_exec(s: &[u8], j: usize, fuel: u128, found: Option<TimeSeries>) -> (r: Option<
    (Option<TimeSeries>, usize),
>)
    requires
        j <= s@.len(),
        opt_series_wf(found),
    ensures
        match r {
            Some((f2, e)) => top_members(s@, j as int, fuel as nat, opt_series_view(found))
                == Some((opt_series_view(f2), e as int)) && j < e <= s@.len() && opt_series_wf(f2),
            None => top_members(s@, j as int, fuel as nat, opt_series_view(found)) is None,
        },
    decreases fuel,
{
    if fuel == 0 {
        return None;
    }
    let n = s.len();
    if !(j < n && s[j] == 34) {
        return None;
    }
    match scan_string(s, j + 1) {
        None => None,
        Some((key, e)) => {
            let c = skip_ws(s, e);
            if !(c < n && s[c] == 58) {
                return None;
            }
            let v = skip_ws(s, c + 1);
            let tsk = ts_key_bytes();
            let stepped: Option<(Option<TimeSeries>, usize)> = if bytes_eq(
                key.as_slice(),
                tsk.as_slice(),
            ) {
                if found.is_some() {
                    None
                } else {
                    match series_object_exec(s, v, fuel - 1) {
                        None => None,
                        Some((m, ve)) => Some((Some(m), ve)),
                    }
                }
            } else {
                match skip_value(s, v, fuel - 1) {
                    None => None,
                    Some(ve) => Some((found, ve)),
                }
            };
            match stepped {
                None => None,
                Some((found2, ve)) => {
                    let t = skip_ws(s, ve);
                    if t < n && s[t] == 125 {
                        Some((found2, t + 1))
                    } else if t < n && s[t] == 44 {
                        let nj = skip_ws(s, t + 1);
                        top_members_exec(s, nj, fuel - 1, found2)
                    } else {
                        None
                    }
                },
            }
        },
    }
}

/// Decodes a response body into the daily time series.
///
/// Succeeds exactly on the bodies `spec_decode` accepts and returns their
/// decoded series; everything else — malformed JSON, a missing or
/// duplicated `"Time Series (Daily)"` member, a record without its five
/// string fields, or a provider error payload shaped otherwise — is a
/// `DecodeError`, never a panic.
pub fn decode_time_series(body: &[u8]) -> (r: Result<TimeSeries, FetchError>)
    ensures
        match r {
            Ok(ts) => spec_decode(body@) == Some(ts@) && ts.wf(),
            Err(e) => spec_decode(body@) is None && e == FetchError::DecodeError,
        },
{
    let n = body.len();
    let fuel: u128 = 4 * (n as u128) + 16;
    let i = skip_ws(body, 0);
    if !(i < n && body[i] == 123) {
        return Err(FetchError::DecodeError);
    }
    let j = skip_ws(body, i + 1);
    if j < n && body[j] == 125 {
        return Err(FetchError::DecodeError);
    }
    match top_members_exec(body, j, fuel, None) {
        None => Err(FetchError::DecodeError),
        Some((found, e)) => match found {
            None => Err(FetchError::DecodeError),
            Some(ts) => {
                let t = skip_ws(body, e);
                if t == n {
                    Ok(ts)
                } else {
                    Err(FetchError::DecodeError)
                }
            },
        },
    }
}

/// The computing half of a fetch, fed with what the transport produced:
/// `None` (the transport failed) yields `NetworkError`; a body decodes as
/// with `decode_time_series` or yields `DecodeError`.
pub fn interpret_response(body: Option<Vec<u8>>) -> (r: Result<TimeSeries, FetchError>)
    ensures
        body is None ==> r == Err::<TimeSeries, FetchError>(FetchError::NetworkError),
        body matches Some(b) ==> match r {
            Ok(ts) => spec_decode(b@) == Some(ts@) && ts.wf(),
            Err(e) => spec_decode(b@) is None && e == FetchError::DecodeError,
        },
{
    match body {
        None => Err(FetchError::NetworkError),
        Some(b) => decode_time_series(b.as_slice()),
    }
}

} // verus!
