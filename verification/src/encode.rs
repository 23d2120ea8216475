//! Encoding the stop catalog as the pretty-printed document the cache
//! file holds.
//!
//! The layout matches the common two-space pretty form: the array opens
//! a line per record, each record a line per field, fields in name
//! order. The encoder is stated once as spec functions over views; the
//! executable encoder returns exactly those bytes. Number texts are
//! emitted as they stand, so a stop whose coordinate text is not a
//! number token would produce a document the parser refuses.

use vstd::prelude::*;
use vstd::utf8::encode_utf8;
use crate::types::{LooseValue, LooseValueView, Stop, StopView};
use crate::decode::{strs_view, looses_view, stops_view};

verus! {

/// The lowercase hexadecimal digit of a value below 16.
pub open spec fn hex_digit(v: u8) -> u8 {
    if v < 10 {
        (0x30 + v) as u8
    } else {
        (0x61 + v - 10) as u8
    }
}

/// How one byte of string content is written: the mandatory escapes,
/// short escapes for the common control characters, a Unicode escape
/// for the rest of the control range, and every other byte as itself.
pub open spec fn spec_escape_byte(c: u8) -> Seq<u8> {
    if c == 0x22 {
        seq![0x5cu8, 0x22u8]
    } else if c == 0x5c {
        seq![0x5cu8, 0x5cu8]
    } else if c == 0x08 {
        seq![0x5cu8, 0x62u8]
    } else if c == 0x0c {
        seq![0x5cu8, 0x66u8]
    } else if c == 0x0a {
        seq![0x5cu8, 0x6eu8]
    } else if c == 0x0d {
        seq![0x5cu8, 0x72u8]
    } else if c == 0x09 {
        seq![0x5cu8, 0x74u8]
    } else if c < 0x20 {
        seq![0x5cu8, 0x75u8, 0x30u8, 0x30u8, hex_digit(c / 16), hex_digit(c % 16)]
    } else {
        seq![c]
    }
}

/// The escaped form of string content bytes.
pub open spec fn spec_escape_bytes(b: Seq<u8>) -> Seq<u8>
    decreases b.len(),
{
    if b.len() == 0 {
        Seq::empty()
    } else {
        spec_escape_byte(b[0]) + spec_escape_bytes(b.subrange(1, b.len() as int))
    }
}

proof fn lemma_escape_snoc(b: Seq<u8>, c: u8)
    ensures
        spec_escape_bytes(b.push(c)) == spec_escape_bytes(b) + spec_escape_byte(c),
    decreases b.len(),
{
    if b.len() == 0 {
        assert(b.push(c)[0] == c);
        assert(b.push(c).subrange(1, 1) =~= Seq::<u8>::empty());
        assert(spec_escape_bytes(b.push(c)) == spec_escape_byte(c) + spec_escape_bytes(
            Seq::<u8>::empty(),
        ));
        assert(spec_escape_byte(c) + Seq::<u8>::empty() =~= spec_escape_byte(c));
        assert(spec_escape_bytes(b) =~= Seq::<u8>::empty());
        assert(Seq::<u8>::empty() + spec_escape_byte(c) =~= spec_escape_byte(c));
    } else {
        assert(b.push(c)[0] == b[0]);
        assert(b.push(c).subrange(1, b.len() + 1 as int) =~= b.subrange(1, b.len() as int).push(c));
        lemma_escape_snoc(b.subrange(1, b.len() as int), c);
        assert(spec_escape_byte(b[0]) + (spec_escape_bytes(b.subrange(1, b.len() as int))
            + spec_escape_byte(c)) =~= (spec_escape_byte(b[0]) + spec_escape_bytes(
            b.subrange(1, b.len() as int),
        )) + spec_escape_byte(c));
    }
}

/// A string value: a quote, the escaped UTF-8 bytes of the text, a
/// quote.
pub open spec fn spec_enc_string(t: Seq<char>) -> Seq<u8> {
    seq![0x22u8] + spec_escape_bytes(encode_utf8(t)) + seq![0x22u8]
}

/// A boolean value.
pub open spec fn spec_enc_bool(b: bool) -> Seq<u8> {
    if b {
        seq![0x74u8, 0x72u8, 0x75u8, 0x65u8]
    } else {
        seq![0x66u8, 0x61u8, 0x6cu8, 0x73u8, 0x65u8]
    }
}

/// A loose scalar value: null, a boolean, the raw number text, or a
/// string.
pub open spec fn spec_enc_loose(v: LooseValueView) -> Seq<u8> {
    match v {
        LooseValueView::Null => seq![0x6eu8, 0x75u8, 0x6cu8, 0x6cu8],
        LooseValueView::Bool(b) => spec_enc_bool(b),
        LooseValueView::Num(t) => encode_utf8(t),
        LooseValueView::Str(t) => spec_enc_string(t),
    }
}

/// The items of a string list, one per line at the list indent, comma
/// separated.
pub open spec fn spec_enc_str_items(ts: Seq<Seq<char>>) -> Seq<u8>
    decreases ts.len(),
{
    if ts.len() == 0 {
        Seq::empty()
    } else if ts.len() == 1 {
        seq![0x20u8, 0x20u8, 0x20u8, 0x20u8, 0x20u8, 0x20u8] + spec_enc_string(ts[0])
    } else {
        seq![0x20u8, 0x20u8, 0x20u8, 0x20u8, 0x20u8, 0x20u8] + spec_enc_string(ts[0]) + seq![
            0x2cu8,
            0x0au8,
        ] + spec_enc_str_items(ts.subrange(1, ts.len() as int))
    }
}

/// A string list value: empty brackets, or one item per line with the
/// closing bracket at the field indent.
pub open spec fn spec_enc_str_list(ts: Seq<Seq<char>>) -> Seq<u8> {
    if ts.len() == 0 {
        seq![0x5bu8, 0x5du8]
    } else {
        seq![0x5bu8, 0x0au8] + spec_enc_str_items(ts) + seq![
            0x0au8,
            0x20u8,
            0x20u8,
            0x20u8,
            0x20u8,
            0x5du8,
        ]
    }
}

/// The items of a loose scalar list.
pub open spec fn spec_enc_loose_items(vs: Seq<LooseValueView>) -> Seq<u8>
    decreases vs.len(),
{
    if vs.len() == 0 {
        Seq::empty()
    } else if vs.len() == 1 {
        seq![0x20u8, 0x20u8, 0x20u8, 0x20u8, 0x20u8, 0x20u8] + spec_enc_loose(vs[0])
    } else {
        seq![0x20u8, 0x20u8, 0x20u8, 0x20u8, 0x20u8, 0x20u8] + spec_enc_loose(vs[0]) + seq![
            0x2cu8,
            0x0au8,
        ] + spec_enc_loose_items(vs.subrange(1, vs.len() as int))
    }
}

/// A loose scalar list value.
pub open spec fn spec_enc_loose_list(vs: Seq<LooseValueView>) -> Seq<u8> {
    if vs.len() == 0 {
        seq![0x5bu8, 0x5du8]
    } else {
        seq![0x5bu8, 0x0au8] + spec_enc_loose_items(vs) + seq![
            0x0au8,
            0x20u8,
            0x20u8,
            0x20u8,
            0x20u8,
            0x5du8,
        ]
    }
}

/// One record field: the field indent, the quoted name, a colon and a
/// space, the value.
pub open spec fn spec_member(name: Seq<char>, val: Seq<u8>) -> Seq<u8> {
    seq![0x20u8, 0x20u8, 0x20u8, 0x20u8] + spec_enc_string(name) + seq![0x3au8, 0x20u8] + val
}

/// One stop record, fields in name order, braces at the record indent.
pub open spec fn spec_enc_stop(st: StopView) -> Seq<u8> {
    seq![0x20u8, 0x20u8, 0x7bu8, 0x0au8] + spec_member(
        "district_id"@,
        spec_enc_loose(st.district_id),
    ) + seq![0x2cu8, 0x0au8] + spec_member("facilities"@, spec_enc_loose_list(st.facilities))
        + seq![0x2cu8, 0x0au8] + spec_member("id"@, spec_enc_string(st.id)) + seq![0x2cu8, 0x0au8]
        + spec_member("lat"@, encode_utf8(st.lat)) + seq![0x2cu8, 0x0au8] + spec_member(
        "line_ids"@,
        spec_enc_str_list(st.line_ids),
    ) + seq![0x2cu8, 0x0au8] + spec_member("lon"@, encode_utf8(st.lon)) + seq![0x2cu8, 0x0au8]
        + spec_member("long_name"@, spec_enc_string(st.long_name)) + seq![0x2cu8, 0x0au8]
        + spec_member("municipality_id"@, spec_enc_loose(st.municipality_id)) + seq![
        0x2cu8,
        0x0au8,
    ] + spec_member("pattern_ids"@, spec_enc_str_list(st.pattern_ids)) + seq![0x2cu8, 0x0au8]
        + spec_member("region_id"@, spec_enc_loose(st.region_id)) + seq![0x2cu8, 0x0au8]
        + spec_member("route_ids"@, spec_enc_str_list(st.route_ids)) + seq![0x2cu8, 0x0au8]
        + spec_member("short_name"@, spec_enc_loose(st.short_name)) + seq![0x2cu8, 0x0au8]
        + spec_member("tts_name"@, spec_enc_string(st.tts_name)) + seq![0x2cu8, 0x0au8]
        + spec_member("wheelchair_boarding"@, spec_enc_bool(st.wheelchair_boarding)) + seq![
        0x0au8,
        0x20u8,
        0x20u8,
        0x7du8,
    ]
}

/// The records of the catalog, one per block, comma separated.
pub open spec fn spec_enc_stops_items(sts: Seq<StopView>) -> Seq<u8>
    decreases sts.len(),
{
    if sts.len() == 0 {
        Seq::empty()
    } else if sts.len() == 1 {
        spec_enc_stop(sts[0])
    } else {
        spec_enc_stop(sts[0]) + seq![0x2cu8, 0x0au8] + spec_enc_stops_items(
            sts.subrange(1, sts.len() as int),
        )
    }
}

/// The whole cache document: empty brackets for an empty catalog, else
/// the records between bracket lines.
pub open spec fn spec_encode_stops_pretty(sts: Seq<StopView>) -> Seq<u8> {
    if sts.len() == 0 {
        seq![0x5bu8, 0x5du8]
    } else {
        seq![0x5bu8, 0x0au8] + spec_enc_stops_items(sts) + seq![0x0au8, 0x5du8]
    }
}

// ---------------------------------------------------------------------
// The executable encoder
// ---------------------------------------------------------------------

fn bytes_vec(b: &[u8]) -> (r: Vec<u8>)
    ensures
        r@ == b@,
{
    let mut out: Vec<u8> = Vec::new();
    let mut i: usize = 0;
    while i < b.len()
        invariant
            i <= b@.len(),
            out@ =~= b@.subrange(0, i as int),
        decreases b@.len() - i,
    {
        out.push(b[i]);
        i = i + 1;
        proof {
            assert(out@ =~= b@.subrange(0, i as int));
        }
    }
    proof {
        assert(out@ =~= b@);
    }
    out
}

fn esc_byte_vec(c: u8) -> (r: Vec<u8>)
    ensures
        r@ == spec_escape_byte(c),
{
    let mut out: Vec<u8> = Vec::new();
    if c == 0x22 {
        out.push(0x5c);
        out.push(0x22);
    } else if c == 0x5c {
        out.push(0x5c);
        out.push(0x5c);
    } else if c == 0x08 {
        out.push(0x5c);
        out.push(0x62);
    } else if c == 0x0c {
        out.push(0x5c);
        out.push(0x66);
    } else if c == 0x0a {
        out.push(0x5c);
        out.push(0x6e);
    } else if c == 0x0d {
        out.push(0x5c);
        out.push(0x72);
    } else if c == 0x09 {
        out.push(0x5c);
        out.push(0x74);
    } else if c < 0x20 {
        out.push(0x5c);
        out.push(0x75);
        out.push(0x30);
        out.push(0x30);
        let hi = c / 16;
        let lo = c % 16;
        out.push(if hi < 10 {
            0x30 + hi
        } else {
            0x61 + hi - 10
        });
        out.push(if lo < 10 {
            0x30 + lo
        } else {
            0x61 + lo - 10
        });
    } else {
        out.push(c);
    }
    proof {
        assert(out@ =~= spec_escape_byte(c));
    }
    out
}

fn enc_string_vec(s: &str) -> (r: Vec<u8>)
    ensures
        r@ == spec_enc_string(s@),
{
    let b = s.as_bytes();
    let mut out: Vec<u8> = Vec::new();
    out.push(0x22);
    proof {
        assert(b@.subrange(0, 0) =~= Seq::<u8>::empty());
        assert(out@ =~= seq![0x22u8] + spec_escape_bytes(b@.subrange(0, 0)));
    }
    let mut i: usize = 0;
    while i < b.len()
        invariant
            i <= b@.len(),
            b@ == encode_utf8(s@),
            out@ == seq![0x22u8] + spec_escape_bytes(b@.subrange(0, i as int)),
        decreases b@.len() - i,
    {
        let mut seg = esc_byte_vec(b[i]);
        let ghost segv = seg@;
        out.append(&mut seg);
        i = i + 1;
        proof {
            assert(b@.subrange(0, i as int) =~= b@.subrange(0, i - 1).push(b@[i - 1]));
            lemma_escape_snoc(b@.subrange(0, i - 1), b@[i - 1]);
            assert(out@ =~= seq![0x22u8] + spec_escape_bytes(b@.subrange(0, i as int)));
        }
    }
    out.push(0x22);
    proof {
        assert(b@.subrange(0, b@.len() as int) =~= b@);
        assert(out@ =~= spec_enc_string(s@));
    }
    out
}

fn enc_bool_vec(b: bool) -> (r: Vec<u8>)
    ensures
        r@ == spec_enc_bool(b),
{
    let mut out: Vec<u8> = Vec::new();
    if b {
        out.push(0x74);
        out.push(0x72);
        out.push(0x75);
        out.push(0x65);
    } else {
        out.push(0x66);
        out.push(0x61);
        out.push(0x6c);
        out.push(0x73);
        out.push(0x65);
    }
    proof {
        assert(out@ =~= spec_enc_bool(b));
    }
    out
}

fn enc_loose_vec(v: &LooseValue) -> (r: Vec<u8>)
    ensures
        r@ == spec_enc_loose(v@),
{
    match v {
        LooseValue::Null => {
            let mut out: Vec<u8> = Vec::new();
            out.push(0x6e);
            out.push(0x75);
            out.push(0x6c);
            out.push(0x6c);
            proof {
                assert(out@ =~= spec_enc_loose(v@));
            }
            out
        },
        LooseValue::Bool(b) => enc_bool_vec(*b),
        LooseValue::Num(t) => bytes_vec(t.as_str().as_bytes()),
        LooseValue::Str(t) => enc_string_vec(t.as_str()),
    }
}

fn ind6_vec() -> (r: Vec<u8>)
    ensures
        r@ == seq![0x20u8, 0x20u8, 0x20u8, 0x20u8, 0x20u8, 0x20u8],
{
    let mut out: Vec<u8> = Vec::new();
    out.push(0x20);
    out.push(0x20);
    out.push(0x20);
    out.push(0x20);
    out.push(0x20);
    out.push(0x20);
    proof {
        assert(out@ =~= seq![0x20u8, 0x20u8, 0x20u8, 0x20u8, 0x20u8, 0x20u8]);
    }
    out
}

fn sep_vec() -> (r: Vec<u8>)
    ensures
        r@ == seq![0x2cu8, 0x0au8],
{
    let mut out: Vec<u8> = Vec::new();
    out.push(0x2c);
    out.push(0x0a);
    proof {
        assert(out@ =~= seq![0x2cu8, 0x0au8]);
    }
    out
}

fn close_list_vec() -> (r: Vec<u8>)
    ensures
        r@ == seq![0x0au8, 0x20u8, 0x20u8, 0x20u8, 0x20u8, 0x5du8],
{
    let mut out: Vec<u8> = Vec::new();
    out.push(0x0a);
    out.push(0x20);
    out.push(0x20);
    out.push(0x20);
    out.push(0x20);
    out.push(0x5d);
    proof {
        assert(out@ =~= seq![0x0au8, 0x20u8, 0x20u8, 0x20u8, 0x20u8, 0x5du8]);
    }
    out
}

fn enc_str_items_vec(ts: &Vec<String>, i: usize) -> (r: Vec<u8>)
    requires
        i <= ts@.len(),
    ensures
        r@ == spec_enc_str_items(strs_view(ts@).subrange(i as int, ts@.len() as int)),
    decreases ts@.len() - i,
{
    let ghost tv = strs_view(ts@).subrange(i as int, ts@.len() as int);
    let n = ts.len();
    if i >= n {
        let out: Vec<u8> = Vec::new();
        proof {
            assert(tv.len() == 0);
        }
        return out;
    }
    proof {
        assert(tv[0] == ts@[i as int]@);
    }
    let mut out = ind6_vec();
    let mut name = enc_string_vec(ts[i].as_str());
    out.append(&mut name);
    if i + 1 < n {
        let mut sep = sep_vec();
        out.append(&mut sep);
        let mut rest = enc_str_items_vec(ts, i + 1);
        out.append(&mut rest);
        proof {
            assert(tv.subrange(1, tv.len() as int) =~= strs_view(ts@).subrange(
                i + 1,
                ts@.len() as int,
            ));
        }
    } else {
        proof {
            assert(tv.len() == 1);
        }
    }
    out
}

fn enc_str_list_vec(ts: &Vec<String>) -> (r: Vec<u8>)
    ensures
        r@ == spec_enc_str_list(strs_view(ts@)),
{
    let mut out: Vec<u8> = Vec::new();
    if ts.len() == 0 {
        out.push(0x5b);
        out.push(0x5d);
        proof {
            assert(out@ =~= seq![0x5bu8, 0x5du8]);
        }
        return out;
    }
    out.push(0x5b);
    out.push(0x0a);
    proof {
        assert(out@ =~= seq![0x5bu8, 0x0au8]);
        assert(strs_view(ts@).subrange(0, ts@.len() as int) =~= strs_view(ts@));
    }
    let mut items = enc_str_items_vec(ts, 0);
    out.append(&mut items);
    let mut close = close_list_vec();
    out.append(&mut close);
    out
}

fn enc_loose_items_vec(vs: &Vec<LooseValue>, i: usize) -> (r: Vec<u8>)
    requires
        i <= vs@.len(),
    ensures
        r@ == spec_enc_loose_items(looses_view(vs@).subrange(i as int, vs@.len() as int)),
    decreases vs@.len() - i,
{
    let ghost lv = looses_view(vs@).subrange(i as int, vs@.len() as int);
    let n = vs.len();
    if i >= n {
        let out: Vec<u8> = Vec::new();
        proof {
            assert(lv.len() == 0);
        }
        return out;
    }
    proof {
        assert(lv[0] == vs@[i as int]@);
    }
    let mut out = ind6_vec();
    let mut item = enc_loose_vec(&vs[i]);
    out.append(&mut item);
    if i + 1 < n {
        let mut sep = sep_vec();
        out.append(&mut sep);
        let mut rest = enc_loose_items_vec(vs, i + 1);
        out.append(&mut rest);
        proof {
            assert(lv.subrange(1, lv.len() as int) =~= looses_view(vs@).subrange(
                i + 1,
                vs@.len() as int,
            ));
        }
    } else {
        proof {
            assert(lv.len() == 1);
        }
    }
    out
}

fn enc_loose_list_vec(vs: &Vec<LooseValue>) -> (r: Vec<u8>)
    ensures
        r@ == spec_enc_loose_list(looses_view(vs@)),
{
    let mut out: Vec<u8> = Vec::new();
    if vs.len() == 0 {
        out.push(0x5b);
        out.push(0x5d);
        proof {
            assert(out@ =~= seq![0x5bu8, 0x5du8]);
        }
        return out;
    }
    out.push(0x5b);
    out.push(0x0a);
    proof {
        assert(out@ =~= seq![0x5bu8, 0x0au8]);
        assert(looses_view(vs@).subrange(0, vs@.len() as int) =~= looses_view(vs@));
    }
    let mut items = enc_loose_items_vec(vs, 0);
    out.append(&mut items);
    let mut close = close_list_vec();
    out.append(&mut close);
    out
}

fn member_vec(name: &str, val: Vec<u8>) -> (r: Vec<u8>)
    ensures
        r@ == spec_member(name@, val@),
{
    let mut out: Vec<u8> = Vec::new();
    out.push(0x20);
    out.push(0x20);
    out.push(0x20);
    out.push(0x20);
    proof {
        assert(out@ =~= seq![0x20u8, 0x20u8, 0x20u8, 0x20u8]);
    }
    let mut n = enc_string_vec(name);
    out.append(&mut n);
    let mut colon: Vec<u8> = Vec::new();
    colon.push(0x3a);
    colon.push(0x20);
    proof {
        assert(colon@ =~= seq![0x3au8, 0x20u8]);
    }
    out.append(&mut colon);
    let mut val = val;
    out.append(&mut val);
    out
}

#[verifier::rlimit(100)]
fn enc_stop_vec(st: &Stop) -> (r: Vec<u8>)
    ensures
        r@ == spec_enc_stop(st@),
{
    let mut out: Vec<u8> = Vec::new();
    out.push(0x20);
    out.push(0x20);
    out.push(0x7b);
    out.push(0x0a);
    proof {
        assert(out@ =~= seq![0x20u8, 0x20u8, 0x7bu8, 0x0au8]);
    }
    let mut m = member_vec("district_id", enc_loose_vec(&st.district_id));
    out.append(&mut m);
    let mut s = sep_vec();
    out.append(&mut s);
    let mut m = member_vec("facilities", enc_loose_list_vec(&st.facilities));
    out.append(&mut m);
    let mut s = sep_vec();
    out.append(&mut s);
    let mut m = member_vec("id", enc_string_vec(st.id.as_str()));
    out.append(&mut m);
    let mut s = sep_vec();
    out.append(&mut s);
    let mut m = member_vec("lat", bytes_vec(st.lat.as_str().as_bytes()));
    out.append(&mut m);
    let mut s = sep_vec();
    out.append(&mut s);
    let mut m = member_vec("line_ids", enc_str_list_vec(&st.line_ids));
    out.append(&mut m);
    let mut s = sep_vec();
    out.append(&mut s);
    let mut m = member_vec("lon", bytes_vec(st.lon.as_str().as_bytes()));
    out.append(&mut m);
    let mut s = sep_vec();
    out.append(&mut s);
    let mut m = member_vec("long_name", enc_string_vec(st.long_name.as_str()));
    out.append(&mut m);
    let mut s = sep_vec();
    out.append(&mut s);
    let mut m = member_vec("municipality_id", enc_loose_vec(&st.municipality_id));
    out.append(&mut m);
    let mut s = sep_vec();
    out.append(&mut s);
    let mut m = member_vec("pattern_ids", enc_str_list_vec(&st.pattern_ids));
    out.append(&mut m);
    let mut s = sep_vec();
    out.append(&mut s);
    let mut m = member_vec("region_id", enc_loose_vec(&st.region_id));
    out.append(&mut m);
    let mut s = sep_vec();
    out.append(&mut s);
    let mut m = member_vec("route_ids", enc_str_list_vec(&st.route_ids));
    out.append(&mut m);
    let mut s = sep_vec();
    out.append(&mut s);
    let mut m = member_vec("short_name", enc_loose_vec(&st.short_name));
    out.append(&mut m);
    let mut s = sep_vec();
    out.append(&mut s);
    let mut m = member_vec("tts_name", enc_string_vec(st.tts_name.as_str()));
    out.append(&mut m);
    let mut s = sep_vec();
    out.append(&mut s);
    let mut m = member_vec("wheelchair_boarding", enc_bool_vec(st.wheelchair_boarding));
    out.append(&mut m);
    let mut tail: Vec<u8> = Vec::new();
    tail.push(0x0a);
    tail.push(0x20);
    tail.push(0x20);
    tail.push(0x7d);
    proof {
        assert(tail@ =~= seq![0x0au8, 0x20u8, 0x20u8, 0x7du8]);
    }
    out.append(&mut tail);
    out
}

fn enc_stops_items_vec(sts: &Vec<Stop>, i: usize) -> (r: Vec<u8>)
    requires
        i <= sts@.len(),
    ensures
        r@ == spec_enc_stops_items(stops_view(sts@).subrange(i as int, sts@.len() as int)),
    decreases sts@.len() - i,
{
    let ghost sv = stops_view(sts@).subrange(i as int, sts@.len() as int);
    let n = sts.len();
    if i >= n {
        let out: Vec<u8> = Vec::new();
        proof {
            assert(sv.len() == 0);
        }
        return out;
    }
    proof {
        assert(sv[0] == sts@[i as int]@);
    }
    let mut out = enc_stop_vec(&sts[i]);
    if i + 1 < n {
        let mut sep = sep_vec();
        out.append(&mut sep);
        let mut rest = enc_stops_items_vec(sts, i + 1);
        out.append(&mut rest);
        proof {
            assert(sv.subrange(1, sv.len() as int) =~= stops_view(sts@).subrange(
                i + 1,
                sts@.len() as int,
            ));
        }
    } else {
        proof {
            assert(sv.len() == 1);
        }
    }
    out
}

/// Encodes the stop catalog as the pretty-printed cache document:
/// exactly the bytes [`spec_encode_stops_pretty`] denotes for these
/// stops.
#[verifier::rlimit(100)]
pub fn encode_stops_pretty(sts: &Vec<Stop>) -> (r: Vec<u8>)
    ensures
        r@ == spec_encode_stops_pretty(stops_view(sts@)),
{
    let mut out: Vec<u8> = Vec::new();
    if sts.len() == 0 {
        out.push(0x5b);
        out.push(0x5d);
        proof {
            assert(out@ =~= seq![0x5bu8, 0x5du8]);
        }
        return out;
    }
    out.push(0x5b);
    out.push(0x0a);
    proof {
        assert(out@ =~= seq![0x5bu8, 0x0au8]);
        assert(stops_view(sts@).subrange(0, sts@.len() as int) =~= stops_view(sts@));
    }
    let mut items = enc_stops_items_vec(sts, 0);
    out.append(&mut items);
    let mut tail: Vec<u8> = Vec::new();
    tail.push(0x0a);
    tail.push(0x5d);
    proof {
        assert(tail@ =~= seq![0x0au8, 0x5du8]);
    }
    out.append(&mut tail);
    out
}

} // verus!
