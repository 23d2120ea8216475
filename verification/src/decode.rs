//! Decoding the wire documents into [`Arrival`] and [`Stop`] records.

use vstd::prelude::*;
use vstd::utf8::{valid_utf8, decode_utf8, encode_utf8};
use crate::json::{
    Scalar, ScalarView, FieldValue, FieldValueView, ObjField, ObjFieldView, JsonObj, objs_view,
    spec_doc, parse_document,
};
use crate::num::{spec_parse_i16, spec_parse_i64};
use crate::num::{parse_i16_bytes, parse_i64_bytes};
use crate::types::{Arrival, ArrivalView, LooseValue, LooseValueView, Stop, StopView};

verus! {

/// Why a document failed to decode.
#[derive(Debug, PartialEq, Eq, Structural)]
pub enum DecodeError {
    /// The bytes do not match the wire grammar.
    Syntax,
    /// The document is well formed, but a record does not match its
    /// schema.
    Record,
}

/// Relies on `core::str::from_utf8`: it succeeds exactly on valid UTF-8
/// input and returns the text those bytes encode, here copied into an
/// owned string.
#[verifier::external_body]
fn utf8_to_string(b: &[u8]) -> (r: Option<String>)
    ensures
        r matches Some(t) ==> valid_utf8(b@) && t@ == decode_utf8(b@),
        r is None ==> !valid_utf8(b@),
{
    match core::str::from_utf8(b) {
        Ok(t) => Some(t.to_string()),
        Err(_) => None,
    }
}

/// The value of the first field of `o` named `name`, if any.
pub open spec fn spec_field_of(o: Seq<ObjFieldView>, name: Seq<u8>) -> Option<FieldValueView>
    decreases o.len(),
{
    if o.len() == 0 {
        None
    } else if o[0].name == name {
        Some(o[0].value)
    } else {
        spec_field_of(o.subrange(1, o.len() as int), name)
    }
}

fn bytes_eq(a: &[u8], b: &[u8]) -> (r: bool)
    ensures
        r == (a@ == b@),
{
    if a.len() != b.len() {
        return false;
    }
    let mut i: usize = 0;
    while i < a.len()
        invariant
            i <= a@.len(),
            a@.len() == b@.len(),
            forall|k: int| 0 <= k < i ==> a@[k] == b@[k],
        decreases a@.len() - i,
    {
        if a[i] != b[i] {
            return false;
        }
        i = i + 1;
    }
    proof {
        assert(a@ =~= b@);
    }
    true
}

fn find_field<'a>(o: &'a JsonObj, name: &[u8]) -> (r: Option<&'a FieldValue>)
    ensures
        r matches Some(f) ==> spec_field_of(o@, name@) == Some(f@),
        r is None ==> spec_field_of(o@, name@) is None,
{
    let n = o.fields.len();
    proof {
        assert(o@.subrange(0, n as int) =~= o@);
    }
    let mut i: usize = 0;
    while i < n
        invariant
            i <= n,
            n == o.fields@.len(),
            spec_field_of(o@, name@) == spec_field_of(o@.subrange(i as int, n as int), name@),
        decreases n - i,
    {
        proof {
            assert(o@.subrange(i as int, n as int)[0] == o@[i as int]);
            assert(o@.subrange(i as int, n as int).subrange(
                1,
                o@.subrange(i as int, n as int).len() as int,
            ) =~= o@.subrange(i + 1, n as int));
        }
        if bytes_eq(o.fields[i].name.as_slice(), name) {
            return Some(&o.fields[i].value);
        }
        i = i + 1;
    }
    proof {
        assert(o@.subrange(n as int, n as int) =~= Seq::<ObjFieldView>::empty());
    }
    None
}

// ---------------------------------------------------------------------
// Field readers
// ---------------------------------------------------------------------

/// An optional timestamp field: missing or null is an absent value, a
/// 64-bit integer number is a present one, anything else refuses the
/// record.
pub open spec fn spec_opt_i64_field(o: Seq<ObjFieldView>, name: Seq<u8>) -> Option<Option<i64>> {
    match spec_field_of(o, name) {
        None => Some(None),
        Some(FieldValueView::One(ScalarView::Null)) => Some(None),
        Some(FieldValueView::One(ScalarView::Num(t))) => match spec_parse_i64(t) {
            Some(v) => Some(Some(v)),
            None => None,
        },
        Some(_) => None,
    }
}

fn get_opt_i64(o: &JsonObj, name: &[u8]) -> (r: Option<Option<i64>>)
    ensures
        r matches Some(v) ==> spec_opt_i64_field(o@, name@) == Some(v),
        r is None ==> spec_opt_i64_field(o@, name@) is None,
{
    match find_field(o, name) {
        None => Some(None),
        Some(f) => match f {
            FieldValue::One(sc) => match sc {
                Scalar::Null => Some(None),
                Scalar::Num(t) => match parse_i64_bytes(t.as_slice()) {
                    Some(v) => Some(Some(v)),
                    None => None,
                },
                _ => None,
            },
            _ => None,
        },
    }
}

/// A required text field.
pub open spec fn spec_str_field(o: Seq<ObjFieldView>, name: Seq<u8>) -> Option<Seq<char>> {
    match spec_field_of(o, name) {
        Some(FieldValueView::One(ScalarView::Str(b))) => if valid_utf8(b) {
            Some(decode_utf8(b))
        } else {
            None
        },
        _ => None,
    }
}

fn get_str(o: &JsonObj, name: &[u8]) -> (r: Option<String>)
    ensures
        r matches Some(t) ==> spec_str_field(o@, name@) == Some(t@),
        r is None ==> spec_str_field(o@, name@) is None,
{
    match find_field(o, name) {
        Some(f) => match f {
            FieldValue::One(sc) => match sc {
                Scalar::Str(b) => utf8_to_string(b.as_slice()),
                _ => None,
            },
            _ => None,
        },
        None => None,
    }
}

/// An optional text field: missing or null is an absent value.
pub open spec fn spec_opt_str_field(o: Seq<ObjFieldView>, name: Seq<u8>) -> Option<
    Option<Seq<char>>,
> {
    match spec_field_of(o, name) {
        None => Some(None),
        Some(FieldValueView::One(ScalarView::Null)) => Some(None),
        Some(FieldValueView::One(ScalarView::Str(b))) => if valid_utf8(b) {
            Some(Some(decode_utf8(b)))
        } else {
            None
        },
        Some(_) => None,
    }
}

fn get_opt_str(o: &JsonObj, name: &[u8]) -> (r: Option<Option<String>>)
    ensures
        r matches Some(v) ==> spec_opt_str_field(o@, name@) == Some(
            match v {
                Some(t) => Some(t@),
                None => None,
            },
        ),
        r is None ==> spec_opt_str_field(o@, name@) is None,
{
    match find_field(o, name) {
        None => Some(None),
        Some(f) => match f {
            FieldValue::One(sc) => match sc {
                Scalar::Null => Some(None),
                Scalar::Str(b) => match utf8_to_string(b.as_slice()) {
                    Some(t) => Some(Some(t)),
                    None => None,
                },
                _ => None,
            },
            _ => None,
        },
    }
}

// ---------------------------------------------------------------------
// Arrival records
// ---------------------------------------------------------------------

/// The arrival record an object denotes: the three optional timestamps,
/// the line identifier transmitted as a numeric string that must fit a
/// 16-bit signed integer, the headsign text, and the optional display
/// time. Unknown fields are ignored.
pub open spec fn spec_arrival_of(o: Seq<ObjFieldView>) -> Option<ArrivalView> {
    match spec_opt_i64_field(o, encode_utf8("estimated_arrival_unix"@)) {
        Some(est) => match spec_opt_i64_field(o, encode_utf8("observed_arrival_unix"@)) {
            Some(obs) => match spec_opt_i64_field(o, encode_utf8("scheduled_arrival_unix"@)) {
                Some(sch) => match spec_field_of(o, encode_utf8("line_id"@)) {
                    Some(FieldValueView::One(ScalarView::Str(lt))) => match spec_parse_i16(lt) {
                        Some(line) => match spec_str_field(o, encode_utf8("headsign"@)) {
                            Some(h) => match spec_opt_str_field(
                                o,
                                encode_utf8("scheduled_arrival"@),
                            ) {
                                Some(sa) => Some(
                                    ArrivalView {
                                        estimated_arrival_unix: est,
                                        observed_arrival_unix: obs,
                                        scheduled_arrival_unix: sch,
                                        line_id: line,
                                        headsign: h,
                                        scheduled_arrival: sa,
                                    },
                                ),
                                None => None,
                            },
                            None => None,
                        },
                        None => None,
                    },
                    _ => None,
                },
                None => None,
            },
            None => None,
        },
        None => None,
    }
}

/// Reads one arrival record out of a parsed object.
pub fn arrival_from_obj(o: &JsonObj) -> (r: Option<Arrival>)
    ensures
        r matches Some(a) ==> spec_arrival_of(o@) == Some(a@),
        r is None ==> spec_arrival_of(o@) is None,
{
    let est = match get_opt_i64(o, "estimated_arrival_unix".as_bytes()) {
        Some(v) => v,
        None => {
            return None;
        },
    };
    let obs = match get_opt_i64(o, "observed_arrival_unix".as_bytes()) {
        Some(v) => v,
        None => {
            return None;
        },
    };
    let sch = match get_opt_i64(o, "scheduled_arrival_unix".as_bytes()) {
        Some(v) => v,
        None => {
            return None;
        },
    };
    let line = match find_field(o, "line_id".as_bytes()) {
        Some(f) => match f {
            FieldValue::One(sc) => match sc {
                Scalar::Str(lt) => match parse_i16_bytes(lt.as_slice()) {
                    Some(v) => v,
                    None => {
                        return None;
                    },
                },
                _ => {
                    return None;
                },
            },
            _ => {
                return None;
            },
        },
        None => {
            return None;
        },
    };
    let headsign = match get_str(o, "headsign".as_bytes()) {
        Some(h) => h,
        None => {
            return None;
        },
    };
    let sa = match get_opt_str(o, "scheduled_arrival".as_bytes()) {
        Some(v) => v,
        None => {
            return None;
        },
    };
    Some(
        Arrival {
            estimated_arrival_unix: est,
            observed_arrival_unix: obs,
            scheduled_arrival_unix: sch,
            line_id: line,
            headsign,
            scheduled_arrival: sa,
        },
    )
}

/// The arrival records a parsed document denotes, or nothing where some
/// record does not match the schema.
pub open spec fn spec_arrivals_of(objs: Seq<Seq<ObjFieldView>>) -> Option<Seq<ArrivalView>>
    decreases objs.len(),
{
    if objs.len() == 0 {
        Some(Seq::empty())
    } else {
        match spec_arrival_of(objs[0]) {
            Some(a) => match spec_arrivals_of(objs.subrange(1, objs.len() as int)) {
                Some(rest) => Some(seq![a] + rest),
                None => None,
            },
            None => None,
        }
    }
}

/// What decoding a byte document as arrivals yields.
pub open spec fn spec_decode_arrivals(s: Seq<u8>) -> Option<Seq<ArrivalView>> {
    match spec_doc(s) {
        Some(objs) => spec_arrivals_of(objs),
        None => None,
    }
}

/// The views of a sequence of arrivals.
pub open spec fn arrivals_view(v: Seq<Arrival>) -> Seq<ArrivalView> {
    v.map_values(|a: Arrival| a@)
}

/// Decodes a response body as the arrival list of a stop.
///
/// Succeeds exactly where the bytes hold a well-formed array of arrival
/// records, and then returns precisely the records the document denotes;
/// an empty array yields an empty list. A body that is not well-formed —
/// an object at top level among them — is a `Syntax` error; a
/// well-formed array whose record does not match the schema — a
/// `line_id` that is not a numeric string fitting 16 bits — is a
/// `Record` error.
pub fn decode_arrivals(bytes: &[u8]) -> (r: Result<Vec<Arrival>, DecodeError>)
    ensures
        r matches Ok(v) ==> spec_decode_arrivals(bytes@) == Some(arrivals_view(v@)),
        r matches Err(e) ==> spec_decode_arrivals(bytes@) is None && (e == DecodeError::Syntax
            <==> spec_doc(bytes@) is None),
{
    let objs = match parse_document(bytes) {
        Some(v) => v,
        None => {
            return Err(DecodeError::Syntax);
        },
    };
    let ghost ov = objs_view(objs@);
    let n = objs.len();
    let mut out: Vec<Arrival> = Vec::new();
    proof {
        assert(ov.subrange(0, n as int) =~= ov);
        assert(arrivals_view(out@) =~= Seq::<ArrivalView>::empty());
        match spec_arrivals_of(ov) {
            Some(rest) => {
                assert(arrivals_view(out@) + rest =~= rest);
            },
            None => {},
        }
    }
    let mut i: usize = 0;
    while i < n
        invariant
            i <= n,
            n == objs@.len(),
            ov == objs_view(objs@),
            spec_doc(bytes@) == Some(ov),
            out@.len() == i,
            spec_arrivals_of(ov) == (match spec_arrivals_of(ov.subrange(i as int, n as int)) {
                Some(rest) => Some(arrivals_view(out@) + rest),
                None => None,
            }),
        decreases n - i,
    {
        proof {
            assert(ov.subrange(i as int, n as int)[0] == ov[i as int]);
            assert(ov[i as int] == objs@[i as int]@);
            assert(ov.subrange(i as int, n as int).subrange(
                1,
                ov.subrange(i as int, n as int).len() as int,
            ) =~= ov.subrange(i + 1, n as int));
        }
        let ghost prev = out@;
        match arrival_from_obj(&objs[i]) {
            Some(a) => {
                let ghost av = a@;
                out.push(a);
                proof {
                    assert(arrivals_view(out@) =~= arrivals_view(prev) + seq![av]);
                    match spec_arrivals_of(ov.subrange(i + 1, n as int)) {
                        Some(rest) => {
                            assert((arrivals_view(prev) + seq![av]) + rest =~= arrivals_view(prev)
                                + (seq![av] + rest));
                        },
                        None => {},
                    }
                }
            },
            None => {
                return Err(DecodeError::Record);
            },
        }
        i = i + 1;
    }
    proof {
        assert(ov.subrange(n as int, n as int) =~= Seq::<Seq<ObjFieldView>>::empty());
    }
    Ok(out)
}

// ---------------------------------------------------------------------
// Stop records
// ---------------------------------------------------------------------

/// The loose value a scalar denotes: text fields must be valid UTF-8.
pub open spec fn spec_loose_of(sc: ScalarView) -> Option<LooseValueView> {
    match sc {
        ScalarView::Null => Some(LooseValueView::Null),
        ScalarView::Bool(b) => Some(LooseValueView::Bool(b)),
        ScalarView::Num(t) => if valid_utf8(t) {
            Some(LooseValueView::Num(decode_utf8(t)))
        } else {
            None
        },
        ScalarView::Str(b) => if valid_utf8(b) {
            Some(LooseValueView::Str(decode_utf8(b)))
        } else {
            None
        },
    }
}

fn loose_of(sc: &Scalar) -> (r: Option<LooseValue>)
    ensures
        r matches Some(v) ==> spec_loose_of(sc@) == Some(v@),
        r is None ==> spec_loose_of(sc@) is None,
{
    match sc {
        Scalar::Null => Some(LooseValue::Null),
        Scalar::Bool(b) => Some(LooseValue::Bool(*b)),
        Scalar::Num(t) => match utf8_to_string(t.as_slice()) {
            Some(s) => Some(LooseValue::Num(s)),
            None => None,
        },
        Scalar::Str(b) => match utf8_to_string(b.as_slice()) {
            Some(s) => Some(LooseValue::Str(s)),
            None => None,
        },
    }
}

/// A required loose scalar field.
pub open spec fn spec_loose_field(o: Seq<ObjFieldView>, name: Seq<u8>) -> Option<LooseValueView> {
    match spec_field_of(o, name) {
        Some(FieldValueView::One(sc)) => spec_loose_of(sc),
        _ => None,
    }
}

fn get_loose(o: &JsonObj, name: &[u8]) -> (r: Option<LooseValue>)
    ensures
        r matches Some(v) ==> spec_loose_field(o@, name@) == Some(v@),
        r is None ==> spec_loose_field(o@, name@) is None,
{
    match find_field(o, name) {
        Some(f) => match f {
            FieldValue::One(sc) => loose_of(sc),
            _ => None,
        },
        None => None,
    }
}

/// A required field holding the decimal text of a coordinate: a number
/// token, kept as text.
pub open spec fn spec_num_text_field(o: Seq<ObjFieldView>, name: Seq<u8>) -> Option<Seq<char>> {
    match spec_field_of(o, name) {
        Some(FieldValueView::One(ScalarView::Num(t))) => if valid_utf8(t) {
            Some(decode_utf8(t))
        } else {
            None
        },
        _ => None,
    }
}

fn get_num_text(o: &JsonObj, name: &[u8]) -> (r: Option<String>)
    ensures
        r matches Some(t) ==> spec_num_text_field(o@, name@) == Some(t@),
        r is None ==> spec_num_text_field(o@, name@) is None,
{
    match find_field(o, name) {
        Some(f) => match f {
            FieldValue::One(sc) => match sc {
                Scalar::Num(t) => utf8_to_string(t.as_slice()),
                _ => None,
            },
            _ => None,
        },
        None => None,
    }
}

/// A required boolean field.
pub open spec fn spec_bool_field(o: Seq<ObjFieldView>, name: Seq<u8>) -> Option<bool> {
    match spec_field_of(o, name) {
        Some(FieldValueView::One(ScalarView::Bool(b))) => Some(b),
        _ => None,
    }
}

fn get_bool(o: &JsonObj, name: &[u8]) -> (r: Option<bool>)
    ensures
        r matches Some(b) ==> spec_bool_field(o@, name@) == Some(b),
        r is None ==> spec_bool_field(o@, name@) is None,
{
    match find_field(o, name) {
        Some(f) => match f {
            FieldValue::One(sc) => match sc {
                Scalar::Bool(b) => Some(*b),
                _ => None,
            },
            _ => None,
        },
        None => None,
    }
}

/// The texts a scalar list denotes, where every item must be a string.
pub open spec fn spec_strs_of(items: Seq<ScalarView>) -> Option<Seq<Seq<char>>>
    decreases items.len(),
{
    if items.len() == 0 {
        Some(Seq::empty())
    } else {
        match items[0] {
            ScalarView::Str(b) => if valid_utf8(b) {
                match spec_strs_of(items.subrange(1, items.len() as int)) {
                    Some(rest) => Some(seq![decode_utf8(b)] + rest),
                    None => None,
                }
            } else {
                None
            },
            _ => None,
        }
    }
}

/// The views of a sequence of strings.
pub open spec fn strs_view(v: Seq<String>) -> Seq<Seq<char>> {
    v.map_values(|s: String| s@)
}

fn strs_of(items: &Vec<Scalar>) -> (r: Option<Vec<String>>)
    ensures
        r matches Some(v) ==> spec_strs_of(crate::json::scalars_view(items@)) == Some(
            strs_view(v@),
        ),
        r is None ==> spec_strs_of(crate::json::scalars_view(items@)) is None,
{
    let ghost sv = crate::json::scalars_view(items@);
    let n = items.len();
    let mut out: Vec<String> = Vec::new();
    proof {
        assert(sv.subrange(0, n as int) =~= sv);
        assert(strs_view(out@) =~= Seq::<Seq<char>>::empty());
        match spec_strs_of(sv) {
            Some(rest) => {
                assert(strs_view(out@) + rest =~= rest);
            },
            None => {},
        }
    }
    let mut i: usize = 0;
    while i < n
        invariant
            i <= n,
            n == items@.len(),
            sv == crate::json::scalars_view(items@),
            out@.len() == i,
            spec_strs_of(sv) == (match spec_strs_of(sv.subrange(i as int, n as int)) {
                Some(rest) => Some(strs_view(out@) + rest),
                None => None,
            }),
        decreases n - i,
    {
        proof {
            assert(sv.subrange(i as int, n as int)[0] == sv[i as int]);
            assert(sv[i as int] == items@[i as int]@);
            assert(sv.subrange(i as int, n as int).subrange(
                1,
                sv.subrange(i as int, n as int).len() as int,
            ) =~= sv.subrange(i + 1, n as int));
        }
        let ghost prev = out@;
        match &items[i] {
            Scalar::Str(b) => {
                match utf8_to_string(b.as_slice()) {
                    Some(t) => {
                        let ghost tv = t@;
                        out.push(t);
                        proof {
                            assert(strs_view(out@) =~= strs_view(prev) + seq![tv]);
                            match spec_strs_of(sv.subrange(i + 1, n as int)) {
                                Some(rest) => {
                                    assert((strs_view(prev) + seq![tv]) + rest =~= strs_view(prev)
                                        + (seq![tv] + rest));
                                },
                                None => {},
                            }
                        }
                    },
                    None => {
                        return None;
                    },
                }
            },
            _ => {
                return None;
            },
        }
        i = i + 1;
    }
    proof {
        assert(sv.subrange(n as int, n as int) =~= Seq::<ScalarView>::empty());
    }
    Some(out)
}

/// A required field holding an array of strings.
pub open spec fn spec_str_list_field(o: Seq<ObjFieldView>, name: Seq<u8>) -> Option<
    Seq<Seq<char>>,
> {
    match spec_field_of(o, name) {
        Some(FieldValueView::Many(items)) => spec_strs_of(items),
        _ => None,
    }
}

fn get_str_list(o: &JsonObj, name: &[u8]) -> (r: Option<Vec<String>>)
    ensures
        r matches Some(v) ==> spec_str_list_field(o@, name@) == Some(strs_view(v@)),
        r is None ==> spec_str_list_field(o@, name@) is None,
{
    match find_field(o, name) {
        Some(f) => match f {
            FieldValue::Many(items) => strs_of(items),
            _ => None,
        },
        None => None,
    }
}

/// The loose values a scalar list denotes.
pub open spec fn spec_looses_of(items: Seq<ScalarView>) -> Option<Seq<LooseValueView>>
    decreases items.len(),
{
    if items.len() == 0 {
        Some(Seq::empty())
    } else {
        match spec_loose_of(items[0]) {
            Some(v) => match spec_looses_of(items.subrange(1, items.len() as int)) {
                Some(rest) => Some(seq![v] + rest),
                None => None,
            },
            None => None,
        }
    }
}

/// The views of a sequence of loose values.
pub open spec fn looses_view(v: Seq<LooseValue>) -> Seq<LooseValueView> {
    v.map_values(|x: LooseValue| x@)
}

fn looses_of(items: &Vec<Scalar>) -> (r: Option<Vec<LooseValue>>)
    ensures
        r matches Some(v) ==> spec_looses_of(crate::json::scalars_view(items@)) == Some(
            looses_view(v@),
        ),
        r is None ==> spec_looses_of(crate::json::scalars_view(items@)) is None,
{
    let ghost sv = crate::json::scalars_view(items@);
    let n = items.len();
    let mut out: Vec<LooseValue> = Vec::new();
    proof {
        assert(sv.subrange(0, n as int) =~= sv);
        assert(looses_view(out@) =~= Seq::<LooseValueView>::empty());
        match spec_looses_of(sv) {
            Some(rest) => {
                assert(looses_view(out@) + rest =~= rest);
            },
            None => {},
        }
    }
    let mut i: usize = 0;
    while i < n
        invariant
            i <= n,
            n == items@.len(),
            sv == crate::json::scalars_view(items@),
            out@.len() == i,
            spec_looses_of(sv) == (match spec_looses_of(sv.subrange(i as int, n as int)) {
                Some(rest) => Some(looses_view(out@) + rest),
                None => None,
            }),
        decreases n - i,
    {
        proof {
            assert(sv.subrange(i as int, n as int)[0] == sv[i as int]);
            assert(sv[i as int] == items@[i as int]@);
            assert(sv.subrange(i as int, n as int).subrange(
                1,
                sv.subrange(i as int, n as int).len() as int,
            ) =~= sv.subrange(i + 1, n as int));
        }
        let ghost prev = out@;
        match loose_of(&items[i]) {
            Some(v) => {
                let ghost vv = v@;
                out.push(v);
                proof {
                    assert(looses_view(out@) =~= looses_view(prev) + seq![vv]);
                    match spec_looses_of(sv.subrange(i + 1, n as int)) {
                        Some(rest) => {
                            assert((looses_view(prev) + seq![vv]) + rest =~= looses_view(prev) + (
                            seq![vv] + rest));
                        },
                        None => {},
                    }
                }
            },
            None => {
                return None;
            },
        }
        i = i + 1;
    }
    proof {
        assert(sv.subrange(n as int, n as int) =~= Seq::<ScalarView>::empty());
    }
    Some(out)
}

/// A required field holding an array of loose scalars.
pub open spec fn spec_loose_list_field(o: Seq<ObjFieldView>, name: Seq<u8>) -> Option<
    Seq<LooseValueView>,
> {
    match spec_field_of(o, name) {
        Some(FieldValueView::Many(items)) => spec_looses_of(items),
        _ => None,
    }
}

fn get_loose_list(o: &JsonObj, name: &[u8]) -> (r: Option<Vec<LooseValue>>)
    ensures
        r matches Some(v) ==> spec_loose_list_field(o@, name@) == Some(looses_view(v@)),
        r is None ==> spec_loose_list_field(o@, name@) is None,
{
    match find_field(o, name) {
        Some(f) => match f {
            FieldValue::Many(items) => looses_of(items),
            _ => None,
        },
        None => None,
    }
}

/// The stop record an object denotes, under the canonical schema: the
/// identifier and display names are strings, the coordinates numeric
/// text, the administrative identifiers loose scalars, the identifier
/// lists arrays of strings, the facilities an array of loose scalars,
/// and the boarding flag a boolean. Unknown fields are ignored.
pub open spec fn spec_stop_of(o: Seq<ObjFieldView>) -> Option<StopView> {
    match spec_str_field(o, encode_utf8("id"@)) {
        Some(id) => match spec_num_text_field(o, encode_utf8("lat"@)) {
            Some(lat) => match spec_num_text_field(o, encode_utf8("lon"@)) {
                Some(lon) => match spec_str_field(o, encode_utf8("long_name"@)) {
                    Some(long_name) => match spec_loose_field(o, encode_utf8("short_name"@)) {
                        Some(short_name) => match spec_str_field(o, encode_utf8("tts_name"@)) {
                            Some(tts_name) => match spec_loose_field(
                                o,
                                encode_utf8("district_id"@),
                            ) {
                                Some(district_id) => match spec_loose_field(
                                    o,
                                    encode_utf8("municipality_id"@),
                                ) {
                                    Some(municipality_id) => match spec_loose_field(
                                        o,
                                        encode_utf8("region_id"@),
                                    ) {
                                        Some(region_id) => match spec_str_list_field(
                                            o,
                                            encode_utf8("line_ids"@),
                                        ) {
                                            Some(line_ids) => match spec_str_list_field(
                                                o,
                                                encode_utf8("route_ids"@),
                                            ) {
                                                Some(route_ids) => match spec_str_list_field(
                                                    o,
                                                    encode_utf8("pattern_ids"@),
                                                ) {
                                                    Some(pattern_ids) => match spec_loose_list_field(
                                                        o,
                                                        encode_utf8("facilities"@),
                                                    ) {
                                                        Some(facilities) => match spec_bool_field(
                                                            o,
                                                            encode_utf8("wheelchair_boarding"@),
                                                        ) {
                                                            Some(wheelchair_boarding) => Some(
                                                                StopView {
                                                                    id: id,
                                                                    lat: lat,
                                                                    lon: lon,
                                                                    long_name: long_name,
                                                                    short_name: short_name,
                                                                    tts_name: tts_name,
                                                                    district_id: district_id,
                                                                    municipality_id:
                                                                        municipality_id,
                                                                    region_id: region_id,
                                                                    line_ids: line_ids,
                                                                    route_ids: route_ids,
                                                                    pattern_ids: pattern_ids,
                                                                    facilities: facilities,
                                                                    wheelchair_boarding:
                                                                        wheelchair_boarding,
                                                                },
                                                            ),
                                                            None => None,
                                                        },
                                                        None => None,
                                                    },
                                                    None => None,
                                                },
                                                None => None,
                                            },
                                            None => None,
                                        },
                                        None => None,
                                    },
                                    None => None,
                                },
                                None => None,
                            },
                            None => None,
                        },
                        None => None,
                    },
                    None => None,
                },
                None => None,
            },
            None => None,
        },
        None => None,
    }
}

/// Reads one stop record out of a parsed object.
pub fn stop_from_obj(o: &JsonObj) -> (r: Option<Stop>)
    ensures
        r matches Some(st) ==> spec_stop_of(o@) == Some(st@),
        r is None ==> spec_stop_of(o@) is None,
{
    let id = match get_str(o, "id".as_bytes()) {
        Some(v) => v,
        None => {
            return None;
        },
    };
    let lat = match get_num_text(o, "lat".as_bytes()) {
        Some(v) => v,
        None => {
            return None;
        },
    };
    let lon = match get_num_text(o, "lon".as_bytes()) {
        Some(v) => v,
        None => {
            return None;
        },
    };
    let long_name = match get_str(o, "long_name".as_bytes()) {
        Some(v) => v,
        None => {
            return None;
        },
    };
    let short_name = match get_loose(o, "short_name".as_bytes()) {
        Some(v) => v,
        None => {
            return None;
        },
    };
    let tts_name = match get_str(o, "tts_name".as_bytes()) {
        Some(v) => v,
        None => {
            return None;
        },
    };
    let district_id = match get_loose(o, "district_id".as_bytes()) {
        Some(v) => v,
        None => {
            return None;
        },
    };
    let municipality_id = match get_loose(o, "municipality_id".as_bytes()) {
        Some(v) => v,
        None => {
            return None;
        },
    };
    let region_id = match get_loose(o, "region_id".as_bytes()) {
        Some(v) => v,
        None => {
            return None;
        },
    };
    let line_ids = match get_str_list(o, "line_ids".as_bytes()) {
        Some(v) => v,
        None => {
            return None;
        },
    };
    let route_ids = match get_str_list(o, "route_ids".as_bytes()) {
        Some(v) => v,
        None => {
            return None;
        },
    };
    let pattern_ids = match get_str_list(o, "pattern_ids".as_bytes()) {
        Some(v) => v,
        None => {
            return None;
        },
    };
    let facilities = match get_loose_list(o, "facilities".as_bytes()) {
        Some(v) => v,
        None => {
            return None;
        },
    };
    let wheelchair_boarding = match get_bool(o, "wheelchair_boarding".as_bytes()) {
        Some(v) => v,
        None => {
            return None;
        },
    };
    let st = Stop {
        id,
        lat,
        lon,
        long_name,
        short_name,
        tts_name,
        district_id,
        municipality_id,
        region_id,
        line_ids,
        route_ids,
        pattern_ids,
        facilities,
        wheelchair_boarding,
    };
    proof {
        assert(st@.line_ids =~= strs_view(st.line_ids@));
        assert(st@.route_ids =~= strs_view(st.route_ids@));
        assert(st@.pattern_ids =~= strs_view(st.pattern_ids@));
        assert(st@.facilities =~= looses_view(st.facilities@));
    }
    Some(st)
}

/// The stop records a parsed document denotes.
pub open spec fn spec_stops_of(objs: Seq<Seq<ObjFieldView>>) -> Option<Seq<StopView>>
    decreases objs.len(),
{
    if objs.len() == 0 {
        Some(Seq::empty())
    } else {
        match spec_stop_of(objs[0]) {
            Some(st) => match spec_stops_of(objs.subrange(1, objs.len() as int)) {
                Some(rest) => Some(seq![st] + rest),
                None => None,
            },
            None => None,
        }
    }
}

/// What decoding a byte document as stops yields.
pub open spec fn spec_decode_stops(s: Seq<u8>) -> Option<Seq<StopView>> {
    match spec_doc(s) {
        Some(objs) => spec_stops_of(objs),
        None => None,
    }
}

/// The views of a sequence of stops.
pub open spec fn stops_view(v: Seq<Stop>) -> Seq<StopView> {
    v.map_values(|st: Stop| st@)
}

/// Decodes a response body or a cache file as the full stop catalog.
///
/// Succeeds exactly where the bytes hold a well-formed array of stop
/// records under the canonical schema, and then returns precisely the
/// records the document denotes. A body that is not well-formed is a
/// `Syntax` error; a well-formed array with a record that does not match
/// the schema is a `Record` error.
pub fn decode_stops(bytes: &[u8]) -> (r: Result<Vec<Stop>, DecodeError>)
    ensures
        r matches Ok(v) ==> spec_decode_stops(bytes@) == Some(stops_view(v@)),
        r matches Err(e) ==> spec_decode_stops(bytes@) is None && (e == DecodeError::Syntax
            <==> spec_doc(bytes@) is None),
{
    let objs = match parse_document(bytes) {
        Some(v) => v,
        None => {
            return Err(DecodeError::Syntax);
        },
    };
    let ghost ov = objs_view(objs@);
    let n = objs.len();
    let mut out: Vec<Stop> = Vec::new();
    proof {
        assert(ov.subrange(0, n as int) =~= ov);
        assert(stops_view(out@) =~= Seq::<StopView>::empty());
        match spec_stops_of(ov) {
            Some(rest) => {
                assert(stops_view(out@) + rest =~= rest);
            },
            None => {},
        }
    }
    let mut i: usize = 0;
    while i < n
        invariant
            i <= n,
            n == objs@.len(),
            ov == objs_view(objs@),
            spec_doc(bytes@) == Some(ov),
            out@.len() == i,
            spec_stops_of(ov) == (match spec_stops_of(ov.subrange(i as int, n as int)) {
                Some(rest) => Some(stops_view(out@) + rest),
                None => None,
            }),
        decreases n - i,
    {
        proof {
            assert(ov.subrange(i as int, n as int)[0] == ov[i as int]);
            assert(ov[i as int] == objs@[i as int]@);
            assert(ov.subrange(i as int, n as int).subrange(
                1,
                ov.subrange(i as int, n as int).len() as int,
            ) =~= ov.subrange(i + 1, n as int));
        }
        let ghost prev = out@;
        match stop_from_obj(&objs[i]) {
            Some(st) => {
                let ghost stv = st@;
                out.push(st);
                proof {
                    assert(stops_view(out@) =~= stops_view(prev) + seq![stv]);
                    match spec_stops_of(ov.subrange(i + 1, n as int)) {
                        Some(rest) => {
                            assert((stops_view(prev) + seq![stv]) + rest =~= stops_view(prev) + (
                            seq![stv] + rest));
                        },
                        None => {},
                    }
                }
            },
            None => {
                return Err(DecodeError::Record);
            },
        }
        i = i + 1;
    }
    proof {
        assert(ov.subrange(n as int, n as int) =~= Seq::<Seq<ObjFieldView>>::empty());
    }
    Ok(out)
}

} // verus!
