//! The wire format of the transit API: a JSON document holding one array
//! of flat records.
//!
//! Records are objects whose values are scalars (null, booleans, numbers,
//! strings) or arrays of scalars; that is the canonical shape both
//! endpoints transmit. Numbers are kept as their decimal text, so the
//! format never forces a floating-point value into the core. String
//! escapes are processed; a Unicode escape is accepted for code points
//! below `0x80`, while non-ASCII text travels as raw UTF-8 bytes.
//!
//! The grammar is stated once as spec functions over byte sequences; the
//! executable parser returns exactly what the spec functions denote.

use vstd::prelude::*;
use crate::num::is_digit;

verus! {

// ---------------------------------------------------------------------
// The parsed shapes and their views
// ---------------------------------------------------------------------

/// The view of a [`Scalar`]: string contents are unescaped bytes.
pub enum ScalarView {
    Null,
    Bool(bool),
    Num(Seq<u8>),
    Str(Seq<u8>),
}

/// One scalar value of the wire format. A number is kept as its decimal
/// text; a string as its unescaped bytes.
pub enum Scalar {
    Null,
    Bool(bool),
    Num(Vec<u8>),
    Str(Vec<u8>),
}

impl View for Scalar {
    type V = ScalarView;

    open spec fn view(&self) -> ScalarView {
        match self {
            Scalar::Null => ScalarView::Null,
            Scalar::Bool(b) => ScalarView::Bool(*b),
            Scalar::Num(ref v) => ScalarView::Num(v@),
            Scalar::Str(ref v) => ScalarView::Str(v@),
        }
    }
}

/// The view of a [`FieldValue`].
pub enum FieldValueView {
    One(ScalarView),
    Many(Seq<ScalarView>),
}

/// The value of a record field: a scalar or an array of scalars.
pub enum FieldValue {
    One(Scalar),
    Many(Vec<Scalar>),
}

/// The views of a sequence of scalars.
pub open spec fn scalars_view(v: Seq<Scalar>) -> Seq<ScalarView> {
    v.map_values(|x: Scalar| x@)
}

impl View for FieldValue {
    type V = FieldValueView;

    open spec fn view(&self) -> FieldValueView {
        match self {
            FieldValue::One(ref s) => FieldValueView::One(s@),
            FieldValue::Many(ref v) => FieldValueView::Many(scalars_view(v@)),
        }
    }
}

/// The view of an [`ObjField`].
pub struct ObjFieldView {
    pub name: Seq<u8>,
    pub value: FieldValueView,
}

/// One named field of a record object.
pub struct ObjField {
    pub name: Vec<u8>,
    pub value: FieldValue,
}

impl View for ObjField {
    type V = ObjFieldView;

    open spec fn view(&self) -> ObjFieldView {
        ObjFieldView { name: self.name@, value: self.value@ }
    }
}

/// One record object: its fields in wire order.
pub struct JsonObj {
    pub fields: Vec<ObjField>,
}

impl View for JsonObj {
    type V = Seq<ObjFieldView>;

    open spec fn view(&self) -> Seq<ObjFieldView> {
        self.fields@.map_values(|f: ObjField| f@)
    }
}

/// The views of a sequence of record objects.
pub open spec fn objs_view(v: Seq<JsonObj>) -> Seq<Seq<ObjFieldView>> {
    v.map_values(|o: JsonObj| o@)
}

// ---------------------------------------------------------------------
// The grammar, as spec functions
// ---------------------------------------------------------------------

/// JSON insignificant whitespace.
pub open spec fn is_ws(b: u8) -> bool {
    b == 0x20 || b == 0x09 || b == 0x0a || b == 0x0d
}

/// The first position at or after `i` holding something other than
/// whitespace.
pub open spec fn spec_ws(s: Seq<u8>, i: int) -> int
    decreases s.len() - i,
{
    if i < s.len() && is_ws(s[i]) {
        spec_ws(s, i + 1)
    } else {
        i
    }
}

/// What a short escape denotes: the escapes of the wire format other
/// than the Unicode one.
pub open spec fn simple_unescape(b: u8) -> Option<u8> {
    if b == 0x22 {
        Some(0x22u8)
    } else if b == 0x5c {
        Some(0x5cu8)
    } else if b == 0x2f {
        Some(0x2fu8)
    } else if b == 0x62 {
        Some(0x08u8)
    } else if b == 0x66 {
        Some(0x0cu8)
    } else if b == 0x6e {
        Some(0x0au8)
    } else if b == 0x72 {
        Some(0x0du8)
    } else if b == 0x74 {
        Some(0x09u8)
    } else {
        None
    }
}

/// The value of one hexadecimal digit.
pub open spec fn hex_val(b: u8) -> Option<u8> {
    if 0x30 <= b && b <= 0x39 {
        Some((b - 0x30) as u8)
    } else if 0x41 <= b && b <= 0x46 {
        Some((b - 0x41 + 10) as u8)
    } else if 0x61 <= b && b <= 0x66 {
        Some((b - 0x61 + 10) as u8)
    } else {
        None
    }
}

/// The value of four hexadecimal digits.
pub open spec fn hex4_val(a: u8, b: u8, c: u8, d: u8) -> Option<u32> {
    if hex_val(a) is Some && hex_val(b) is Some && hex_val(c) is Some && hex_val(d) is Some {
        Some(
            (hex_val(a).unwrap() * 0x1000 + hex_val(b).unwrap() * 0x100 + hex_val(c).unwrap()
                * 0x10 + hex_val(d).unwrap()) as u32,
        )
    } else {
        None
    }
}

/// The body of a string token, read from just after the opening quote:
/// the unescaped bytes and the position just after the closing quote.
pub open spec fn spec_string_body(s: Seq<u8>, i: int) -> Option<(Seq<u8>, int)>
    decreases s.len() - i,
{
    if i < 0 || i >= s.len() {
        None
    } else if s[i] == 0x22 {
        Some((Seq::empty(), i + 1))
    } else if s[i] == 0x5c {
        if i + 2 <= s.len() && simple_unescape(s[i + 1]) is Some {
            match spec_string_body(s, i + 2) {
                Some((t, j)) => Some((seq![simple_unescape(s[i + 1]).unwrap()] + t, j)),
                None => None,
            }
        } else if i + 6 <= s.len() && s[i + 1] == 0x75 {
            match hex4_val(s[i + 2], s[i + 3], s[i + 4], s[i + 5]) {
                Some(v) => if v < 0x80 {
                    match spec_string_body(s, i + 6) {
                        Some((t, j)) => Some((seq![v as u8] + t, j)),
                        None => None,
                    }
                } else {
                    None
                },
                None => None,
            }
        } else {
            None
        }
    } else if s[i] < 0x20 {
        None
    } else {
        match spec_string_body(s, i + 1) {
            Some((t, j)) => Some((seq![s[i]] + t, j)),
            None => None,
        }
    }
}

/// A byte that may occur in a number token.
pub open spec fn is_num_byte(b: u8) -> bool {
    is_digit(b) || b == 0x2b || b == 0x2d || b == 0x2e || b == 0x45 || b == 0x65
}

/// The end of the run of number bytes starting at `i`.
pub open spec fn spec_num_end(s: Seq<u8>, i: int) -> int
    decreases s.len() - i,
{
    if i < s.len() && i >= 0 && is_num_byte(s[i]) {
        spec_num_end(s, i + 1)
    } else {
        i
    }
}

/// A number token: the maximal run of number bytes, valid when it opens
/// with a digit or with a minus sign followed by a digit.
pub open spec fn spec_num(s: Seq<u8>, i: int) -> Option<(Seq<u8>, int)> {
    let e = spec_num_end(s, i);
    if 0 <= i && i < e && (is_digit(s[i]) || (s[i] == 0x2d && i + 1 < e && is_digit(s[i + 1]))) {
        Some((s.subrange(i, e), e))
    } else {
        None
    }
}

/// One scalar, read from position `i` (no leading whitespace).
pub open spec fn spec_scalar(s: Seq<u8>, i: int) -> Option<(ScalarView, int)> {
    if i < 0 || i >= s.len() {
        None
    } else if s[i] == 0x22 {
        match spec_string_body(s, i + 1) {
            Some((t, j)) => Some((ScalarView::Str(t), j)),
            None => None,
        }
    } else if s[i] == 0x6e {
        if s.len() - i >= 4 && s[i + 1] == 0x75 && s[i + 2] == 0x6c && s[i + 3] == 0x6c {
            Some((ScalarView::Null, i + 4))
        } else {
            None
        }
    } else if s[i] == 0x74 {
        if s.len() - i >= 4 && s[i + 1] == 0x72 && s[i + 2] == 0x75 && s[i + 3] == 0x65 {
            Some((ScalarView::Bool(true), i + 4))
        } else {
            None
        }
    } else if s[i] == 0x66 {
        if s.len() - i >= 5 && s[i + 1] == 0x61 && s[i + 2] == 0x6c && s[i + 3] == 0x73 && s[i + 4]
            == 0x65 {
            Some((ScalarView::Bool(false), i + 5))
        } else {
            None
        }
    } else {
        match spec_num(s, i) {
            Some((t, j)) => Some((ScalarView::Num(t), j)),
            None => None,
        }
    }
}

/// The remainder of a scalar array after one parsed item: whitespace,
/// then either the closing bracket or a comma and further items.
pub open spec fn spec_scalar_items(s: Seq<u8>, i: int) -> Option<(Seq<ScalarView>, int)>
    decreases s.len() - i,
{
    let j = spec_ws(s, i);
    if 0 <= j && j < s.len() && s[j] == 0x5d {
        Some((Seq::empty(), j + 1))
    } else if 0 <= j && j < s.len() && s[j] == 0x2c {
        let k = spec_ws(s, j + 1);
        match spec_scalar(s, k) {
            Some((v, m)) => if i < m && m <= s.len() {
                match spec_scalar_items(s, m) {
                    Some((rest, e)) => Some((seq![v] + rest, e)),
                    None => None,
                }
            } else {
                None
            },
            None => None,
        }
    } else {
        None
    }
}

/// A whole scalar array, read from its opening bracket.
pub open spec fn spec_scalar_array(s: Seq<u8>, i: int) -> Option<(Seq<ScalarView>, int)> {
    if 0 <= i && i < s.len() && s[i] == 0x5b {
        let j = spec_ws(s, i + 1);
        if 0 <= j && j < s.len() && s[j] == 0x5d {
            Some((Seq::empty(), j + 1))
        } else {
            match spec_scalar(s, j) {
                Some((v, m)) => if i < m && m <= s.len() {
                    match spec_scalar_items(s, m) {
                        Some((rest, e)) => Some((seq![v] + rest, e)),
                        None => None,
                    }
                } else {
                    None
                },
                None => None,
            }
        }
    } else {
        None
    }
}

/// A field value: an array of scalars where a bracket opens, else one
/// scalar.
pub open spec fn spec_field_value(s: Seq<u8>, i: int) -> Option<(FieldValueView, int)> {
    if 0 <= i && i < s.len() && s[i] == 0x5b {
        match spec_scalar_array(s, i) {
            Some((v, e)) => Some((FieldValueView::Many(v), e)),
            None => None,
        }
    } else {
        match spec_scalar(s, i) {
            Some((v, e)) => Some((FieldValueView::One(v), e)),
            None => None,
        }
    }
}

/// One object member: a string key, a colon, a field value.
pub open spec fn spec_member(s: Seq<u8>, i: int) -> Option<(ObjFieldView, int)> {
    if 0 <= i && i < s.len() && s[i] == 0x22 {
        match spec_string_body(s, i + 1) {
            Some((name, j)) => {
                let k = spec_ws(s, j);
                if 0 <= k && k < s.len() && s[k] == 0x3a {
                    let m = spec_ws(s, k + 1);
                    match spec_field_value(s, m) {
                        Some((v, e)) => Some((ObjFieldView { name, value: v }, e)),
                        None => None,
                    }
                } else {
                    None
                }
            },
            None => None,
        }
    } else {
        None
    }
}

/// The remainder of an object after one parsed member.
pub open spec fn spec_obj_fields(s: Seq<u8>, i: int) -> Option<(Seq<ObjFieldView>, int)>
    decreases s.len() - i,
{
    let j = spec_ws(s, i);
    if 0 <= j && j < s.len() && s[j] == 0x7d {
        Some((Seq::empty(), j + 1))
    } else if 0 <= j && j < s.len() && s[j] == 0x2c {
        let k = spec_ws(s, j + 1);
        match spec_member(s, k) {
            Some((f, m)) => if i < m && m <= s.len() {
                match spec_obj_fields(s, m) {
                    Some((rest, e)) => Some((seq![f] + rest, e)),
                    None => None,
                }
            } else {
                None
            },
            None => None,
        }
    } else {
        None
    }
}

/// A whole object, read from its opening brace: its members in order.
pub open spec fn spec_object(s: Seq<u8>, i: int) -> Option<(Seq<ObjFieldView>, int)> {
    if 0 <= i && i < s.len() && s[i] == 0x7b {
        let j = spec_ws(s, i + 1);
        if 0 <= j && j < s.len() && s[j] == 0x7d {
            Some((Seq::empty(), j + 1))
        } else {
            match spec_member(s, j) {
                Some((f, m)) => if i < m && m <= s.len() {
                    match spec_obj_fields(s, m) {
                        Some((rest, e)) => Some((seq![f] + rest, e)),
                        None => None,
                    }
                } else {
                    None
                },
                None => None,
            }
        }
    } else {
        None
    }
}

/// The remainder of the record array after one parsed object.
pub open spec fn spec_obj_items(s: Seq<u8>, i: int) -> Option<(Seq<Seq<ObjFieldView>>, int)>
    decreases s.len() - i,
{
    let j = spec_ws(s, i);
    if 0 <= j && j < s.len() && s[j] == 0x5d {
        Some((Seq::empty(), j + 1))
    } else if 0 <= j && j < s.len() && s[j] == 0x2c {
        let k = spec_ws(s, j + 1);
        match spec_object(s, k) {
            Some((o, m)) => if i < m && m <= s.len() {
                match spec_obj_items(s, m) {
                    Some((rest, e)) => Some((seq![o] + rest, e)),
                    None => None,
                }
            } else {
                None
            },
            None => None,
        }
    } else {
        None
    }
}

/// The record array, read from its opening bracket.
pub open spec fn spec_obj_array(s: Seq<u8>, i: int) -> Option<(Seq<Seq<ObjFieldView>>, int)> {
    if 0 <= i && i < s.len() && s[i] == 0x5b {
        let j = spec_ws(s, i + 1);
        if 0 <= j && j < s.len() && s[j] == 0x5d {
            Some((Seq::empty(), j + 1))
        } else {
            match spec_object(s, j) {
                Some((o, m)) => if i < m && m <= s.len() {
                    match spec_obj_items(s, m) {
                        Some((rest, e)) => Some((seq![o] + rest, e)),
                        None => None,
                    }
                } else {
                    None
                },
                None => None,
            }
        }
    } else {
        None
    }
}

/// The whole document: whitespace, one array of record objects,
/// whitespace, end of input.
pub open spec fn spec_doc(s: Seq<u8>) -> Option<Seq<Seq<ObjFieldView>>> {
    let i = spec_ws(s, 0);
    match spec_obj_array(s, i) {
        Some((objs, e)) => if spec_ws(s, e) == s.len() {
            Some(objs)
        } else {
            None
        },
        None => None,
    }
}

// ---------------------------------------------------------------------
// The executable parser, proven to return what the grammar denotes
// ---------------------------------------------------------------------

fn is_ws_b(b: u8) -> (r: bool)
    ensures
        r == is_ws(b),
{
    b == 0x20 || b == 0x09 || b == 0x0a || b == 0x0d
}

fn is_digit_b(b: u8) -> (r: bool)
    ensures
        r == is_digit(b),
{
    0x30 <= b && b <= 0x39
}

fn is_num_byte_b(b: u8) -> (r: bool)
    ensures
        r == is_num_byte(b),
{
    is_digit_b(b) || b == 0x2b || b == 0x2d || b == 0x2e || b == 0x45 || b == 0x65
}

fn unescape_b(b: u8) -> (r: Option<u8>)
    ensures
        r == simple_unescape(b),
{
    if b == 0x22 {
        Some(0x22)
    } else if b == 0x5c {
        Some(0x5c)
    } else if b == 0x2f {
        Some(0x2f)
    } else if b == 0x62 {
        Some(0x08)
    } else if b == 0x66 {
        Some(0x0c)
    } else if b == 0x6e {
        Some(0x0a)
    } else if b == 0x72 {
        Some(0x0d)
    } else if b == 0x74 {
        Some(0x09)
    } else {
        None
    }
}

fn hex_b(b: u8) -> (r: Option<u8>)
    ensures
        r == hex_val(b),
{
    if 0x30 <= b && b <= 0x39 {
        Some(b - 0x30)
    } else if 0x41 <= b && b <= 0x46 {
        Some(b - 0x41 + 10)
    } else if 0x61 <= b && b <= 0x66 {
        Some(b - 0x61 + 10)
    } else {
        None
    }
}

fn ws_from(s: &[u8], i: usize) -> (r: usize)
    requires
        i <= s@.len(),
    ensures
        i <= r <= s@.len(),
        r as int == spec_ws(s@, i as int),
{
    let mut j = i;
    while j < s.len() && is_ws_b(s[j])
        invariant
            i <= j <= s@.len(),
            spec_ws(s@, i as int) == spec_ws(s@, j as int),
        decreases s@.len() - j,
    {
        j = j + 1;
    }
    j
}

fn string_body(s: &[u8], i: usize) -> (r: Option<(Vec<u8>, usize)>)
    requires
        i <= s@.len(),
    ensures
        r matches Some(p) ==> spec_string_body(s@, i as int) == Some((p.0@, p.1 as int)) && i
            < p.1 <= s@.len(),
        r is None ==> spec_string_body(s@, i as int) is None,
    decreases s@.len() - i,
{
    if i >= s.len() {
        return None;
    }
    let b = s[i];
    if b == 0x22 {
        let out: Vec<u8> = Vec::new();
        return Some((out, i + 1));
    }
    if b == 0x5c {
        if i + 1 >= s.len() {
            return None;
        }
        let e = s[i + 1];
        if let Some(c) = unescape_b(e) {
            match string_body(s, i + 2) {
                Some((t, j)) => {
                    let mut t = t;
                    t.insert(0, c);
                    proof {
                        assert(t@ =~= seq![simple_unescape(s@[i + 1]).unwrap()] + t@.subrange(
                            1,
                            t@.len() as int,
                        ));
                    }
                    return Some((t, j));
                },
                None => {
                    return None;
                },
            }
        } else if e == 0x75 {
            if s.len() - i < 6 {
                return None;
            }
            let h0 = hex_b(s[i + 2]);
            let h1 = hex_b(s[i + 3]);
            let h2 = hex_b(s[i + 4]);
            let h3 = hex_b(s[i + 5]);
            if h0.is_none() || h1.is_none() || h2.is_none() || h3.is_none() {
                return None;
            }
            let v: u32 = (h0.unwrap() as u32) * 0x1000 + (h1.unwrap() as u32) * 0x100 + (
            h2.unwrap() as u32) * 0x10 + (h3.unwrap() as u32);
            if v >= 0x80 {
                return None;
            }
            match string_body(s, i + 6) {
                Some((t, j)) => {
                    let mut t = t;
                    t.insert(0, v as u8);
                    proof {
                        assert(t@ =~= seq![v as u8] + t@.subrange(1, t@.len() as int));
                    }
                    return Some((t, j));
                },
                None => {
                    return None;
                },
            }
        } else {
            return None;
        }
    }
    if b < 0x20 {
        return None;
    }
    match string_body(s, i + 1) {
        Some((t, j)) => {
            let mut t = t;
            t.insert(0, b);
            proof {
                assert(t@ =~= seq![s@[i as int]] + t@.subrange(1, t@.len() as int));
            }
            Some((t, j))
        },
        None => None,
    }
}

fn num_end_from(s: &[u8], i: usize) -> (r: usize)
    requires
        i <= s@.len(),
    ensures
        i <= r <= s@.len(),
        r as int == spec_num_end(s@, i as int),
{
    let mut j = i;
    while j < s.len() && is_num_byte_b(s[j])
        invariant
            i <= j <= s@.len(),
            spec_num_end(s@, i as int) == spec_num_end(s@, j as int),
        decreases s@.len() - j,
    {
        j = j + 1;
    }
    j
}

fn take_num(s: &[u8], i: usize) -> (r: Option<(Vec<u8>, usize)>)
    requires
        i <= s@.len(),
    ensures
        r matches Some(p) ==> spec_num(s@, i as int) == Some((p.0@, p.1 as int)) && i < p.1
            <= s@.len(),
        r is None ==> spec_num(s@, i as int) is None,
{
    let e = num_end_from(s, i);
    if i >= e {
        return None;
    }
    let head_ok = if is_digit_b(s[i]) {
        true
    } else if s[i] == 0x2d && i + 1 < e && is_digit_b(s[i + 1]) {
        true
    } else {
        false
    };
    if !head_ok {
        return None;
    }
    let mut v: Vec<u8> = Vec::new();
    let mut k = i;
    while k < e
        invariant
            i <= k <= e <= s@.len(),
            v@ == s@.subrange(i as int, k as int),
        decreases e - k,
    {
        v.push(s[k]);
        k = k + 1;
        proof {
            assert(v@ =~= s@.subrange(i as int, k as int));
        }
    }
    Some((v, e))
}

fn scalar(s: &[u8], i: usize) -> (r: Option<(Scalar, usize)>)
    requires
        i <= s@.len(),
    ensures
        r matches Some(p) ==> spec_scalar(s@, i as int) == Some((p.0@, p.1 as int)) && i < p.1
            <= s@.len(),
        r is None ==> spec_scalar(s@, i as int) is None,
{
    if i >= s.len() {
        return None;
    }
    let b = s[i];
    if b == 0x22 {
        match string_body(s, i + 1) {
            Some((t, j)) => Some((Scalar::Str(t), j)),
            None => None,
        }
    } else if b == 0x6e {
        if s.len() - i >= 4 && s[i + 1] == 0x75 && s[i + 2] == 0x6c && s[i + 3] == 0x6c {
            Some((Scalar::Null, i + 4))
        } else {
            None
        }
    } else if b == 0x74 {
        if s.len() - i >= 4 && s[i + 1] == 0x72 && s[i + 2] == 0x75 && s[i + 3] == 0x65 {
            Some((Scalar::Bool(true), i + 4))
        } else {
            None
        }
    } else if b == 0x66 {
        if s.len() - i >= 5 && s[i + 1] == 0x61 && s[i + 2] == 0x6c && s[i + 3] == 0x73 && s[i + 4]
            == 0x65 {
            Some((Scalar::Bool(false), i + 5))
        } else {
            None
        }
    } else {
        match take_num(s, i) {
            Some((t, j)) => Some((Scalar::Num(t), j)),
            None => None,
        }
    }
}

fn scalar_items(s: &[u8], i: usize) -> (r: Option<(Vec<Scalar>, usize)>)
    requires
        i <= s@.len(),
    ensures
        r matches Some(p) ==> spec_scalar_items(s@, i as int) == Some(
            (scalars_view(p.0@), p.1 as int),
        ) && i < p.1 <= s@.len(),
        r is None ==> spec_scalar_items(s@, i as int) is None,
    decreases s@.len() - i,
{
    let j = ws_from(s, i);
    if j >= s.len() {
        return None;
    }
    if s[j] == 0x5d {
        let out: Vec<Scalar> = Vec::new();
        proof {
            assert(scalars_view(out@) =~= Seq::<ScalarView>::empty());
        }
        return Some((out, j + 1));
    }
    if s[j] != 0x2c {
        return None;
    }
    let k = ws_from(s, j + 1);
    match scalar(s, k) {
        Some((v, m)) => {
            match scalar_items(s, m) {
                Some((rest, e)) => {
                    let mut rest = rest;
                    rest.insert(0, v);
                    proof {
                        assert(scalars_view(rest@) =~= seq![rest@[0]@] + scalars_view(
                            rest@.subrange(1, rest@.len() as int),
                        ));
                    }
                    Some((rest, e))
                },
                None => None,
            }
        },
        None => None,
    }
}

fn scalar_array(s: &[u8], i: usize) -> (r: Option<(Vec<Scalar>, usize)>)
    requires
        i <= s@.len(),
    ensures
        r matches Some(p) ==> spec_scalar_array(s@, i as int) == Some(
            (scalars_view(p.0@), p.1 as int),
        ) && i < p.1 <= s@.len(),
        r is None ==> spec_scalar_array(s@, i as int) is None,
{
    if i >= s.len() || s[i] != 0x5b {
        return None;
    }
    let j = ws_from(s, i + 1);
    if j < s.len() && s[j] == 0x5d {
        let out: Vec<Scalar> = Vec::new();
        proof {
            assert(scalars_view(out@) =~= Seq::<ScalarView>::empty());
        }
        return Some((out, j + 1));
    }
    match scalar(s, j) {
        Some((v, m)) => {
            match scalar_items(s, m) {
                Some((rest, e)) => {
                    let mut rest = rest;
                    rest.insert(0, v);
                    proof {
                        assert(scalars_view(rest@) =~= seq![rest@[0]@] + scalars_view(
                            rest@.subrange(1, rest@.len() as int),
                        ));
                    }
                    Some((rest, e))
                },
                None => None,
            }
        },
        None => None,
    }
}

fn field_value(s: &[u8], i: usize) -> (r: Option<(FieldValue, usize)>)
    requires
        i <= s@.len(),
    ensures
        r matches Some(p) ==> spec_field_value(s@, i as int) == Some((p.0@, p.1 as int)) && i
            < p.1 <= s@.len(),
        r is None ==> spec_field_value(s@, i as int) is None,
{
    if i < s.len() && s[i] == 0x5b {
        match scalar_array(s, i) {
            Some((v, e)) => Some((FieldValue::Many(v), e)),
            None => None,
        }
    } else {
        match scalar(s, i) {
            Some((v, e)) => Some((FieldValue::One(v), e)),
            None => None,
        }
    }
}

fn member(s: &[u8], i: usize) -> (r: Option<(ObjField, usize)>)
    requires
        i <= s@.len(),
    ensures
        r matches Some(p) ==> spec_member(s@, i as int) == Some((p.0@, p.1 as int)) && i < p.1
            <= s@.len(),
        r is None ==> spec_member(s@, i as int) is None,
{
    if i >= s.len() || s[i] != 0x22 {
        return None;
    }
    match string_body(s, i + 1) {
        Some((name, j)) => {
            let k = ws_from(s, j);
            if k >= s.len() || s[k] != 0x3a {
                return None;
            }
            let m = ws_from(s, k + 1);
            match field_value(s, m) {
                Some((v, e)) => Some((ObjField { name, value: v }, e)),
                None => None,
            }
        },
        None => None,
    }
}

/// The views of a sequence of object fields.
pub open spec fn fields_view(v: Seq<ObjField>) -> Seq<ObjFieldView> {
    v.map_values(|f: ObjField| f@)
}

fn obj_fields(s: &[u8], i: usize) -> (r: Option<(Vec<ObjField>, usize)>)
    requires
        i <= s@.len(),
    ensures
        r matches Some(p) ==> spec_obj_fields(s@, i as int) == Some(
            (fields_view(p.0@), p.1 as int),
        ) && i < p.1 <= s@.len(),
        r is None ==> spec_obj_fields(s@, i as int) is None,
    decreases s@.len() - i,
{
    let j = ws_from(s, i);
    if j >= s.len() {
        return None;
    }
    if s[j] == 0x7d {
        let out: Vec<ObjField> = Vec::new();
        proof {
            assert(fields_view(out@) =~= Seq::<ObjFieldView>::empty());
        }
        return Some((out, j + 1));
    }
    if s[j] != 0x2c {
        return None;
    }
    let k = ws_from(s, j + 1);
    match member(s, k) {
        Some((f, m)) => {
            match obj_fields(s, m) {
                Some((rest, e)) => {
                    let mut rest = rest;
                    rest.insert(0, f);
                    proof {
                        assert(fields_view(rest@) =~= seq![rest@[0]@] + fields_view(
                            rest@.subrange(1, rest@.len() as int),
                        ));
                    }
                    Some((rest, e))
                },
                None => None,
            }
        },
        None => None,
    }
}

fn object(s: &[u8], i: usize) -> (r: Option<(JsonObj, usize)>)
    requires
        i <= s@.len(),
    ensures
        r matches Some(p) ==> spec_object(s@, i as int) == Some((p.0@, p.1 as int)) && i < p.1
            <= s@.len(),
        r is None ==> spec_object(s@, i as int) is None,
{
    if i >= s.len() || s[i] != 0x7b {
        return None;
    }
    let j = ws_from(s, i + 1);
    if j < s.len() && s[j] == 0x7d {
        let out: Vec<ObjField> = Vec::new();
        proof {
            assert(fields_view(out@) =~= Seq::<ObjFieldView>::empty());
        }
        return Some((JsonObj { fields: out }, j + 1));
    }
    match member(s, j) {
        Some((f, m)) => {
            match obj_fields(s, m) {
                Some((rest, e)) => {
                    let mut rest = rest;
                    rest.insert(0, f);
                    proof {
                        assert(fields_view(rest@) =~= seq![rest@[0]@] + fields_view(
                            rest@.subrange(1, rest@.len() as int),
                        ));
                    }
                    Some((JsonObj { fields: rest }, e))
                },
                None => None,
            }
        },
        None => None,
    }
}

fn obj_items(s: &[u8], i: usize) -> (r: Option<(Vec<JsonObj>, usize)>)
    requires
        i <= s@.len(),
    ensures
        r matches Some(p) ==> spec_obj_items(s@, i as int) == Some(
            (objs_view(p.0@), p.1 as int),
        ) && i < p.1 <= s@.len(),
        r is None ==> spec_obj_items(s@, i as int) is None,
    decreases s@.len() - i,
{
    let j = ws_from(s, i);
    if j >= s.len() {
        return None;
    }
    if s[j] == 0x5d {
        let out: Vec<JsonObj> = Vec::new();
        proof {
            assert(objs_view(out@) =~= Seq::<Seq<ObjFieldView>>::empty());
        }
        return Some((out, j + 1));
    }
    if s[j] != 0x2c {
        return None;
    }
    let k = ws_from(s, j + 1);
    match object(s, k) {
        Some((o, m)) => {
            match obj_items(s, m) {
                Some((rest, e)) => {
                    let mut rest = rest;
                    rest.insert(0, o);
                    proof {
                        assert(objs_view(rest@) =~= seq![rest@[0]@] + objs_view(
                            rest@.subrange(1, rest@.len() as int),
                        ));
                    }
                    Some((rest, e))
                },
                None => None,
            }
        },
        None => None,
    }
}

fn obj_array(s: &[u8], i: usize) -> (r: Option<(Vec<JsonObj>, usize)>)
    requires
        i <= s@.len(),
    ensures
        r matches Some(p) ==> spec_obj_array(s@, i as int) == Some(
            (objs_view(p.0@), p.1 as int),
        ) && i < p.1 <= s@.len(),
        r is None ==> spec_obj_array(s@, i as int) is None,
{
    if i >= s.len() || s[i] != 0x5b {
        return None;
    }
    let j = ws_from(s, i + 1);
    if j < s.len() && s[j] == 0x5d {
        let out: Vec<JsonObj> = Vec::new();
        proof {
            assert(objs_view(out@) =~= Seq::<Seq<ObjFieldView>>::empty());
        }
        return Some((out, j + 1));
    }
    match object(s, j) {
        Some((o, m)) => {
            match obj_items(s, m) {
                Some((rest, e)) => {
                    let mut rest = rest;
                    rest.insert(0, o);
                    proof {
                        assert(objs_view(rest@) =~= seq![rest@[0]@] + objs_view(
                            rest@.subrange(1, rest@.len() as int),
                        ));
                    }
                    Some((rest, e))
                },
                None => None,
            }
        },
        None => None,
    }
}

/// Parses a whole document: one array of flat record objects, surrounded
/// by nothing but whitespace. Returns exactly the records that
/// [`spec_doc`] denotes, and nothing where the bytes do not match the
/// grammar.
pub fn parse_document(s: &[u8]) -> (r: Option<Vec<JsonObj>>)
    ensures
        r matches Some(v) ==> spec_doc(s@) == Some(objs_view(v@)),
        r is None ==> spec_doc(s@) is None,
{
    let i = ws_from(s, 0);
    match obj_array(s, i) {
        Some((objs, e)) => {
            let t = ws_from(s, e);
            if t == s.len() {
                Some(objs)
            } else {
                None
            }
        },
        None => None,
    }
}

} // verus!
