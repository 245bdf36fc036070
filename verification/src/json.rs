use vstd::prelude::*;

use crate::error::FetchError;

verus! {

/// A JSON document as a tree of plain values.
///
/// A number keeps its canonical decimal text rather than a machine float,
/// so that a value is carried through exactly as the wire gave it; the
/// schema layer decides which numbers stand for unsigned integers. An
/// object keeps its entries as a list of key/value pairs in the order the
/// parser handed them over.
pub enum JsonValue {
    Null,
    Bool(bool),
    Num(String),
    Str(String),
    Arr(Vec<JsonValue>),
    Obj(Vec<(String, JsonValue)>),
}

/// The mathematical model of a [`JsonValue`]: the same tree over character
/// sequences.
pub enum JsonV {
    Null,
    Bool(bool),
    Num(Seq<char>),
    Str(Seq<char>),
    Arr(Seq<JsonV>),
    Obj(Seq<(Seq<char>, JsonV)>),
}

impl JsonValue {
    /// The model of this tree.
    pub open spec fn model(self) -> JsonV
        decreases self,
    {
        match self {
            JsonValue::Null => JsonV::Null,
            JsonValue::Bool(b) => JsonV::Bool(b),
            JsonValue::Num(s) => JsonV::Num(s@),
            JsonValue::Str(s) => JsonV::Str(s@),
            JsonValue::Arr(items) => JsonV::Arr(
                Seq::new(
                    items@.len(),
                    |i: int|
                        if 0 <= i < items@.len() {
                            items@[i].model()
                        } else {
                            JsonV::Null
                        },
                ),
            ),
            JsonValue::Obj(entries) => JsonV::Obj(
                Seq::new(
                    entries@.len(),
                    |i: int|
                        if 0 <= i < entries@.len() {
                            (entries@[i].0@, entries@[i].1.model())
                        } else {
                            (Seq::empty(), JsonV::Null)
                        },
                ),
            ),
        }
    }
}

/// An object's model is exactly the entrywise model of its entry list.
pub proof fn lemma_obj_model(entries: Vec<(String, JsonValue)>)
    ensures
        JsonValue::Obj(entries).model() == JsonV::Obj(obj_entries_model(entries@)),
{
    assert(JsonValue::Obj(entries).model()->Obj_0 =~= obj_entries_model(entries@));
}

/// An array's model is exactly the elementwise model of its item list.
pub proof fn lemma_arr_model(items: Vec<JsonValue>)
    ensures
        JsonValue::Arr(items).model() == JsonV::Arr(
            Seq::new(items@.len(), |i: int| items@[i].model()),
        ),
{
    assert(JsonValue::Arr(items).model()->Arr_0 =~= Seq::new(
        items@.len(),
        |i: int| items@[i].model(),
    ));
}

/// The models of a list of object entries, key views paired with value
/// models. `JsonValue::Obj(entries).model()` is `JsonV::Obj` of exactly
/// this sequence.
pub open spec fn obj_entries_model(entries: Seq<(String, JsonValue)>) -> Seq<
    (Seq<char>, JsonV),
> {
    Seq::new(entries.len(), |i: int| (entries[i].0@, entries[i].1.model()))
}

/// The value of the first entry whose key matches, if any: JSON object
/// lookup.
pub open spec fn field_of(entries: Seq<(Seq<char>, JsonV)>, key: Seq<char>) -> Option<JsonV>
    decreases entries.len(),
{
    if entries.len() == 0 {
        None
    } else if entries[0].0 == key {
        Some(entries[0].1)
    } else {
        field_of(entries.drop_first(), key)
    }
}

pub proof fn lemma_field_of_first_match(s: Seq<(Seq<char>, JsonV)>, key: Seq<char>, i: int)
    requires
        0 <= i < s.len(),
        forall|j: int| 0 <= j < i ==> s[j].0 != key,
        s[i].0 == key,
    ensures
        field_of(s, key) == Some(s[i].1),
    decreases i,
{
    if i > 0 {
        lemma_field_of_first_match(s.drop_first(), key, i - 1);
    }
}

pub proof fn lemma_field_of_none(s: Seq<(Seq<char>, JsonV)>, key: Seq<char>)
    requires
        forall|j: int| 0 <= j < s.len() ==> s[j].0 != key,
    ensures
        field_of(s, key) is None,
    decreases s.len(),
{
    if s.len() > 0 {
        lemma_field_of_none(s.drop_first(), key);
    }
}

/// Look a key up among an object's entries, returning the first entry
/// whose key has the same characters.
pub fn obj_get<'a>(entries: &'a Vec<(String, JsonValue)>, key: &String) -> (r: Option<
    &'a JsonValue,
>)
    ensures
        match r {
            Some(x) => field_of(obj_entries_model(entries@), key@) == Some(x.model()),
            None => field_of(obj_entries_model(entries@), key@) is None,
        },
{
    let ghost m = obj_entries_model(entries@);
    let mut i: usize = 0;
    while i < entries.len()
        invariant
            i <= entries.len(),
            m == obj_entries_model(entries@),
            forall|j: int| 0 <= j < i ==> m[j].0 != key@,
        decreases entries.len() - i,
    {
        let pair = &entries[i];
        if pair.0 == *key {
            proof {
                lemma_field_of_first_match(m, key@, i as int);
            }
            return Some(&pair.1);
        }
        i += 1;
    }
    proof {
        lemma_field_of_none(m, key@);
    }
    None
}

/// Declares serde_json::Value so that the conversion below may take it;
/// the type stays opaque to the verifier.
#[verifier::external_type_specification]
#[verifier::external_body]
pub struct ExValue(serde_json::Value);

/// What `serde_json::from_str` makes of a text: the JSON tree the text
/// denotes, or `None` where the text is not valid JSON. Parsing depends on
/// the text alone.
pub uninterp spec fn json_tree(s: Seq<char>) -> Option<JsonV>;

/// Relies on serde_json::Value's variants: a JSON node is exactly one of
/// null, boolean, number, string, array, object. A number is kept as its
/// canonical decimal text, which `serde_json::Number`'s `Display` renders
/// from the value alone.
#[verifier::external_body]
fn value_to_tree(v: &serde_json::Value) -> JsonValue {
    match v {
        serde_json::Value::Null => JsonValue::Null,
        serde_json::Value::Bool(b) => JsonValue::Bool(*b),
        serde_json::Value::Number(n) => JsonValue::Num(n.to_string()),
        serde_json::Value::String(s) => JsonValue::Str(s.clone()),
        serde_json::Value::Array(a) => JsonValue::Arr(a.iter().map(value_to_tree).collect()),
        serde_json::Value::Object(m) => JsonValue::Obj(
            m.iter().map(|(k, x)| (k.clone(), value_to_tree(x))).collect(),
        ),
    }
}

/// Relies on serde_json::from_str: whether a text parses as JSON, and the
/// tree it parses to, are functions of the text alone. On failure the
/// parser's diagnostic message is handed back.
#[verifier::external_body]
pub(crate) fn parse_json(s: &str) -> (r: Result<JsonValue, String>)
    ensures
        r matches Ok(v) ==> json_tree(s@) == Some(v.model()),
        r matches Err(_) ==> json_tree(s@) is None,
{
    match serde_json::from_str::<serde_json::Value>(s) {
        Ok(v) => Ok(value_to_tree(&v)),
        Err(e) => Err(e.to_string()),
    }
}

/// Whether a character is a decimal digit.
pub open spec fn is_digit(c: char) -> bool {
    48 <= c as u32 <= 57
}

/// Whether every character of a sequence is a decimal digit.
pub open spec fn is_digits(s: Seq<char>) -> bool {
    forall|i: int| 0 <= i < s.len() ==> is_digit(#[trigger] s[i])
}

/// The numeric value of a digit character.
pub open spec fn digit_val(c: char) -> nat {
    (c as u32 - 48) as nat
}

/// The value of a sequence of decimal digits, most significant first.
pub open spec fn dec_val(s: Seq<char>) -> nat
    decreases s.len(),
{
    if s.len() == 0 {
        0
    } else {
        dec_val(s.drop_last()) * 10 + digit_val(s.last())
    }
}

/// The unsigned integer a number text denotes: defined exactly when the
/// text is one or more decimal digits (no sign, no fraction, no exponent)
/// whose value fits in a `u32`.
pub open spec fn spec_u32_of(s: Seq<char>) -> Option<u32> {
    if s.len() > 0 && is_digits(s) && dec_val(s) <= u32::MAX {
        Some(dec_val(s) as u32)
    } else {
        None
    }
}

/// A digit prefix never has a larger value than the whole sequence.
proof fn lemma_dec_val_prefix(s: Seq<char>, i: int)
    requires
        0 <= i <= s.len(),
    ensures
        dec_val(s.take(i)) <= dec_val(s),
    decreases s.len() - i,
{
    if i < s.len() {
        assert(s.take(i + 1).drop_last() =~= s.take(i));
        assert(s.take(i + 1).last() == s[i]);
        lemma_dec_val_prefix(s, i + 1);
    } else {
        assert(s.take(i) =~= s);
    }
}

/// Read an unsigned integer from a number text: accepted exactly when the
/// text is all decimal digits, nonempty, and its value fits in a `u32`.
pub fn parse_u32(s: &str) -> (r: Option<u32>)
    ensures
        r == spec_u32_of(s@),
{
    let n = s.unicode_len();
    if n == 0 {
        return None;
    }
    let mut acc: u64 = 0;
    let mut i: usize = 0;
    while i < n
        invariant
            0 < n == s@.len(),
            i <= n,
            is_digits(s@.take(i as int)),
            acc == dec_val(s@.take(i as int)),
            acc <= u32::MAX,
        decreases n - i,
    {
        let c = s.get_char(i);
        let cv = c as u32;
        if cv < 48 || cv > 57 {
            proof {
                assert(!is_digit(s@[i as int]));
            }
            return None;
        }
        let d: u64 = (cv - 48) as u64;
        let next: u64 = acc * 10 + d;
        proof {
            assert(s@.take(i + 1).drop_last() =~= s@.take(i as int));
            assert(s@.take(i + 1).last() == s@[i as int]);
        }
        if next > u32::MAX as u64 {
            proof {
                lemma_dec_val_prefix(s@, i + 1);
            }
            return None;
        }
        acc = next;
        i += 1;
    }
    proof {
        assert(s@.take(n as int) =~= s@);
    }
    Some(acc as u32)
}

/// The decimal digit character for a value below ten.
pub open spec fn digit_char(d: nat) -> char {
    if d == 0 {
        '0'
    } else if d == 1 {
        '1'
    } else if d == 2 {
        '2'
    } else if d == 3 {
        '3'
    } else if d == 4 {
        '4'
    } else if d == 5 {
        '5'
    } else if d == 6 {
        '6'
    } else if d == 7 {
        '7'
    } else if d == 8 {
        '8'
    } else {
        '9'
    }
}

/// The canonical decimal text of a natural number: no sign, no leading
/// zero except for zero itself.
pub open spec fn dec_str(n: nat) -> Seq<char>
    decreases n,
{
    if n < 10 {
        seq![digit_char(n)]
    } else {
        dec_str(n / 10).push(digit_char(n % 10))
    }
}

/// The canonical decimal text of a number reads back as that number.
pub proof fn lemma_dec_str(n: nat)
    ensures
        dec_str(n).len() > 0,
        is_digits(dec_str(n)),
        dec_val(dec_str(n)) == n,
    decreases n,
{
    assert(digit_val(digit_char(n % 10)) == n % 10);
    if n < 10 {
        assert(n % 10 == n);
        assert(dec_str(n).drop_last() =~= Seq::<char>::empty());
        assert(dec_str(n).last() == digit_char(n));
        assert(dec_val(dec_str(n)) == dec_val(Seq::<char>::empty()) * 10 + digit_val(
            digit_char(n),
        ));
    } else {
        lemma_dec_str(n / 10);
        assert(dec_str(n).drop_last() =~= dec_str(n / 10));
        assert(dec_str(n).last() == digit_char(n % 10));
        assert forall|i: int| 0 <= i < dec_str(n).len() implies is_digit(
            #[trigger] dec_str(n)[i],
        ) by {
            if i < dec_str(n).len() - 1 {
                assert(dec_str(n)[i] == dec_str(n / 10)[i]);
            } else {
                assert(dec_str(n)[i] == digit_char(n % 10));
            }
        }
    }
}

/// The unsigned-integer reading of a canonical decimal text below the
/// `u32` bound is the number itself.
pub proof fn lemma_u32_dec_str(n: u32)
    ensures
        spec_u32_of(dec_str(n as nat)) == Some(n),
{
    lemma_dec_str(n as nat);
}

/// Render an unsigned integer as its canonical decimal text.
pub fn u32_to_dec(n: u32) -> (r: String)
    ensures
        r@ == dec_str(n as nat),
    decreases n,
{
    let d = n % 10;
    let ds: &str = if d == 0 {
        "0"
    } else if d == 1 {
        "1"
    } else if d == 2 {
        "2"
    } else if d == 3 {
        "3"
    } else if d == 4 {
        "4"
    } else if d == 5 {
        "5"
    } else if d == 6 {
        "6"
    } else if d == 7 {
        "7"
    } else if d == 8 {
        "8"
    } else {
        "9"
    };
    proof {
        reveal_strlit("0");
        reveal_strlit("1");
        reveal_strlit("2");
        reveal_strlit("3");
        reveal_strlit("4");
        reveal_strlit("5");
        reveal_strlit("6");
        reveal_strlit("7");
        reveal_strlit("8");
        reveal_strlit("9");
        assert(ds@ =~= seq![digit_char(d as nat)]);
    }
    if n < 10 {
        ds.to_owned()
    } else {
        let mut s = u32_to_dec(n / 10);
        s.append(ds);
        proof {
            assert(dec_str(n as nat) =~= dec_str((n / 10) as nat) + ds@);
        }
        s
    }
}

/// The characters of a JSON string node.
pub open spec fn spec_str_val(v: JsonV) -> Option<Seq<char>> {
    match v {
        JsonV::Str(s) => Some(s),
        _ => None,
    }
}

/// The boolean of a JSON boolean node.
pub open spec fn spec_bool_val(v: JsonV) -> Option<bool> {
    match v {
        JsonV::Bool(b) => Some(b),
        _ => None,
    }
}

/// The decimal text of a JSON number node.
pub open spec fn spec_num_val(v: JsonV) -> Option<Seq<char>> {
    match v {
        JsonV::Num(s) => Some(s),
        _ => None,
    }
}

/// The unsigned integer a JSON number node denotes, if it is a
/// non-negative integer that fits in a `u32`.
pub open spec fn spec_u32_val(v: JsonV) -> Option<u32> {
    match v {
        JsonV::Num(s) => spec_u32_of(s),
        _ => None,
    }
}

/// A required string field of an object.
pub open spec fn spec_str_field(e: Seq<(Seq<char>, JsonV)>, key: Seq<char>) -> Option<Seq<char>> {
    match field_of(e, key) {
        Some(v) => spec_str_val(v),
        None => None,
    }
}

/// A required boolean field of an object.
pub open spec fn spec_bool_field(e: Seq<(Seq<char>, JsonV)>, key: Seq<char>) -> Option<bool> {
    match field_of(e, key) {
        Some(v) => spec_bool_val(v),
        None => None,
    }
}

/// A required number field of an object, kept as decimal text.
pub open spec fn spec_num_field(e: Seq<(Seq<char>, JsonV)>, key: Seq<char>) -> Option<Seq<char>> {
    match field_of(e, key) {
        Some(v) => spec_num_val(v),
        None => None,
    }
}

/// A required unsigned-integer field of an object.
pub open spec fn spec_u32_field(e: Seq<(Seq<char>, JsonV)>, key: Seq<char>) -> Option<u32> {
    match field_of(e, key) {
        Some(v) => spec_u32_val(v),
        None => None,
    }
}

/// Read a required boolean field of an object's entries.
pub fn get_bool(entries: &Vec<(String, JsonValue)>, key: &str) -> (r: Result<bool, FetchError>)
    ensures
        match r {
            Ok(b) => spec_bool_field(obj_entries_model(entries@), key@) == Some(b),
            Err(e) => spec_bool_field(obj_entries_model(entries@), key@) is None && e is Schema,
        },
{
    let k = key.to_owned();
    match obj_get(entries, &k) {
        Some(x) => match x {
            JsonValue::Bool(b) => Ok(*b),
            _ => Err(FetchError::schema("expected a boolean field")),
        },
        None => Err(FetchError::schema("missing required boolean field")),
    }
}

/// Read a required string field of an object's entries.
pub fn get_str(entries: &Vec<(String, JsonValue)>, key: &str) -> (r: Result<String, FetchError>)
    ensures
        match r {
            Ok(s) => spec_str_field(obj_entries_model(entries@), key@) == Some(s@),
            Err(e) => spec_str_field(obj_entries_model(entries@), key@) is None && e is Schema,
        },
{
    let k = key.to_owned();
    match obj_get(entries, &k) {
        Some(x) => match x {
            JsonValue::Str(s) => Ok(s.clone()),
            _ => Err(FetchError::schema("expected a string field")),
        },
        None => Err(FetchError::schema("missing required string field")),
    }
}

/// Read a required number field of an object's entries, as decimal text.
pub fn get_num(entries: &Vec<(String, JsonValue)>, key: &str) -> (r: Result<String, FetchError>)
    ensures
        match r {
            Ok(s) => spec_num_field(obj_entries_model(entries@), key@) == Some(s@),
            Err(e) => spec_num_field(obj_entries_model(entries@), key@) is None && e is Schema,
        },
{
    let k = key.to_owned();
    match obj_get(entries, &k) {
        Some(x) => match x {
            JsonValue::Num(s) => Ok(s.clone()),
            _ => Err(FetchError::schema("expected a number field")),
        },
        None => Err(FetchError::schema("missing required number field")),
    }
}

/// Read a required unsigned-integer field of an object's entries. A
/// negative, fractional, or out-of-range number is rejected.
pub fn get_u32(entries: &Vec<(String, JsonValue)>, key: &str) -> (r: Result<u32, FetchError>)
    ensures
        match r {
            Ok(n) => spec_u32_field(obj_entries_model(entries@), key@) == Some(n),
            Err(e) => spec_u32_field(obj_entries_model(entries@), key@) is None && e is Schema,
        },
{
    let k = key.to_owned();
    match obj_get(entries, &k) {
        Some(x) => match x {
            JsonValue::Num(s) => match parse_u32(s.as_str()) {
                Some(n) => Ok(n),
                None => Err(FetchError::schema("expected an unsigned integer field")),
            },
            _ => Err(FetchError::schema("expected a number field")),
        },
        None => Err(FetchError::schema("missing required integer field")),
    }
}

/// Read a required field that must itself be decoded further.
pub fn get_field<'a>(entries: &'a Vec<(String, JsonValue)>, key: &str) -> (r: Result<
    &'a JsonValue,
    FetchError,
>)
    ensures
        match r {
            Ok(x) => field_of(obj_entries_model(entries@), key@) == Some(x.model()),
            Err(e) => field_of(obj_entries_model(entries@), key@) is None && e is Schema,
        },
{
    let k = key.to_owned();
    match obj_get(entries, &k) {
        Some(x) => Ok(x),
        None => Err(FetchError::schema("missing required field")),
    }
}

/// An ordered list of strings: every element of the array must be a
/// string.
pub open spec fn spec_str_items(items: Seq<JsonV>) -> Option<Seq<Seq<char>>>
    decreases items.len(),
{
    if items.len() == 0 {
        Some(Seq::empty())
    } else {
        match (spec_str_items(items.drop_last()), spec_str_val(items.last())) {
            (Some(rest), Some(s)) => Some(rest.push(s)),
            _ => None,
        }
    }
}

/// An ordered list of strings read from a JSON array node.
pub open spec fn spec_str_arr(v: JsonV) -> Option<Seq<Seq<char>>> {
    match v {
        JsonV::Arr(items) => spec_str_items(items),
        _ => None,
    }
}

proof fn lemma_str_items_bad(items: Seq<JsonV>, j: int)
    requires
        0 <= j < items.len(),
        spec_str_val(items[j]) is None,
    ensures
        spec_str_items(items) is None,
    decreases items.len(),
{
    if j < items.len() - 1 {
        lemma_str_items_bad(items.drop_last(), j);
    }
}

/// Decode a JSON array of strings into a vector of strings.
pub fn decode_str_arr(v: &JsonValue) -> (r: Result<Vec<String>, FetchError>)
    ensures
        match r {
            Ok(x) => spec_str_arr(v.model()) == Some(x.deep_view()),
            Err(e) => spec_str_arr(v.model()) is None && e is Schema,
        },
{
    let items = match v {
        JsonValue::Arr(items) => items,
        _ => {
            return Err(FetchError::schema("expected an array of strings"));
        },
    };
    proof {
        lemma_arr_model(*items);
    }
    let ghost m = Seq::new(items@.len(), |i: int| items@[i].model());
    let mut out: Vec<String> = Vec::new();
    let mut i: usize = 0;
    while i < items.len()
        invariant
            i <= items.len(),
            m == Seq::new(items@.len(), |k: int| items@[k].model()),
            v.model() == JsonV::Arr(m),
            spec_str_items(m.take(i as int)) == Some(out.deep_view()),
        decreases items.len() - i,
    {
        let s = match &items[i] {
            JsonValue::Str(s) => s.clone(),
            _ => {
                proof {
                    lemma_str_items_bad(m, i as int);
                }
                return Err(FetchError::schema("expected a string element"));
            },
        };
        out.push(s);
        proof {
            assert(m.take(i + 1).drop_last() =~= m.take(i as int));
            assert(m.take(i + 1).last() == m[i as int]);
            assert(out.deep_view() =~= spec_str_items(m.take(i as int)).unwrap().push(
                items@[i as int]->Str_0@,
            ));
        }
        i += 1;
    }
    proof {
        assert(m.take(items@.len() as int) =~= m);
    }
    Ok(out)
}

/// A mapping whose values are strings: every value of the object must be
/// a string. An empty object gives the empty mapping.
pub open spec fn spec_str_entries(e: Seq<(Seq<char>, JsonV)>) -> Option<
    Seq<(Seq<char>, Seq<char>)>,
>
    decreases e.len(),
{
    if e.len() == 0 {
        Some(Seq::empty())
    } else {
        match (spec_str_entries(e.drop_last()), spec_str_val(e.last().1)) {
            (Some(rest), Some(s)) => Some(rest.push((e.last().0, s))),
            _ => None,
        }
    }
}

/// A string-valued mapping read from a JSON object node.
pub open spec fn spec_str_map(v: JsonV) -> Option<Seq<(Seq<char>, Seq<char>)>> {
    match v {
        JsonV::Obj(e) => spec_str_entries(e),
        _ => None,
    }
}

proof fn lemma_str_entries_bad(e: Seq<(Seq<char>, JsonV)>, j: int)
    requires
        0 <= j < e.len(),
        spec_str_val(e[j].1) is None,
    ensures
        spec_str_entries(e) is None,
    decreases e.len(),
{
    if j < e.len() - 1 {
        lemma_str_entries_bad(e.drop_last(), j);
    }
}

/// Decode a JSON object of string values into a list of key/value pairs,
/// in the object's own order.
pub fn decode_str_map(v: &JsonValue) -> (r: Result<Vec<(String, String)>, FetchError>)
    ensures
        match r {
            Ok(x) => spec_str_map(v.model()) == Some(x.deep_view()),
            Err(e) => spec_str_map(v.model()) is None && e is Schema,
        },
{
    let entries = match v {
        JsonValue::Obj(entries) => entries,
        _ => {
            return Err(FetchError::schema("expected an object of strings"));
        },
    };
    proof {
        lemma_obj_model(*entries);
    }
    let ghost m = obj_entries_model(entries@);
    let mut out: Vec<(String, String)> = Vec::new();
    let mut i: usize = 0;
    while i < entries.len()
        invariant
            i <= entries.len(),
            m == obj_entries_model(entries@),
            v.model() == JsonV::Obj(m),
            spec_str_entries(m.take(i as int)) == Some(out.deep_view()),
        decreases entries.len() - i,
    {
        let pair = &entries[i];
        let s = match &pair.1 {
            JsonValue::Str(s) => s.clone(),
            _ => {
                proof {
                    lemma_str_entries_bad(m, i as int);
                }
                return Err(FetchError::schema("expected a string value"));
            },
        };
        out.push((pair.0.clone(), s));
        proof {
            assert(m.take(i + 1).drop_last() =~= m.take(i as int));
            assert(m.take(i + 1).last() == m[i as int]);
            assert(out.deep_view() =~= spec_str_entries(m.take(i as int)).unwrap().push(
                (entries@[i as int].0@, entries@[i as int].1->Str_0@),
            ));
        }
        i += 1;
    }
    proof {
        assert(m.take(entries@.len() as int) =~= m);
    }
    Ok(out)
}

/// A mapping whose values are numbers kept as decimal text.
pub open spec fn spec_num_entries(e: Seq<(Seq<char>, JsonV)>) -> Option<
    Seq<(Seq<char>, Seq<char>)>,
>
    decreases e.len(),
{
    if e.len() == 0 {
        Some(Seq::empty())
    } else {
        match (spec_num_entries(e.drop_last()), spec_num_val(e.last().1)) {
            (Some(rest), Some(s)) => Some(rest.push((e.last().0, s))),
            _ => None,
        }
    }
}

/// A number-valued mapping read from a JSON object node.
pub open spec fn spec_num_map(v: JsonV) -> Option<Seq<(Seq<char>, Seq<char>)>> {
    match v {
        JsonV::Obj(e) => spec_num_entries(e),
        _ => None,
    }
}

proof fn lemma_num_entries_bad(e: Seq<(Seq<char>, JsonV)>, j: int)
    requires
        0 <= j < e.len(),
        spec_num_val(e[j].1) is None,
    ensures
        spec_num_entries(e) is None,
    decreases e.len(),
{
    if j < e.len() - 1 {
        lemma_num_entries_bad(e.drop_last(), j);
    }
}

/// Decode a JSON object of numbers into a list of key/decimal-text pairs,
/// in the object's own order.
pub fn decode_num_map(v: &JsonValue) -> (r: Result<Vec<(String, String)>, FetchError>)
    ensures
        match r {
            Ok(x) => spec_num_map(v.model()) == Some(x.deep_view()),
            Err(e) => spec_num_map(v.model()) is None && e is Schema,
        },
{
    let entries = match v {
        JsonValue::Obj(entries) => entries,
        _ => {
            return Err(FetchError::schema("expected an object of numbers"));
        },
    };
    proof {
        lemma_obj_model(*entries);
    }
    let ghost m = obj_entries_model(entries@);
    let mut out: Vec<(String, String)> = Vec::new();
    let mut i: usize = 0;
    while i < entries.len()
        invariant
            i <= entries.len(),
            m == obj_entries_model(entries@),
            v.model() == JsonV::Obj(m),
            spec_num_entries(m.take(i as int)) == Some(out.deep_view()),
        decreases entries.len() - i,
    {
        let pair = &entries[i];
        let s = match &pair.1 {
            JsonValue::Num(s) => s.clone(),
            _ => {
                proof {
                    lemma_num_entries_bad(m, i as int);
                }
                return Err(FetchError::schema("expected a number value"));
            },
        };
        out.push((pair.0.clone(), s));
        proof {
            assert(m.take(i + 1).drop_last() =~= m.take(i as int));
            assert(m.take(i + 1).last() == m[i as int]);
            assert(out.deep_view() =~= spec_num_entries(m.take(i as int)).unwrap().push(
                (entries@[i as int].0@, entries@[i as int].1->Num_0@),
            ));
        }
        i += 1;
    }
    proof {
        assert(m.take(entries@.len() as int) =~= m);
    }
    Ok(out)
}

/// A mapping whose values are unsigned integer bounds.
pub open spec fn spec_u32_entries(e: Seq<(Seq<char>, JsonV)>) -> Option<Seq<(Seq<char>, u32)>>
    decreases e.len(),
{
    if e.len() == 0 {
        Some(Seq::empty())
    } else {
        match (spec_u32_entries(e.drop_last()), spec_u32_val(e.last().1)) {
            (Some(rest), Some(n)) => Some(rest.push((e.last().0, n))),
            _ => None,
        }
    }
}

/// An unsigned-integer-valued mapping read from a JSON object node.
pub open spec fn spec_u32_map(v: JsonV) -> Option<Seq<(Seq<char>, u32)>> {
    match v {
        JsonV::Obj(e) => spec_u32_entries(e),
        _ => None,
    }
}

proof fn lemma_u32_entries_bad(e: Seq<(Seq<char>, JsonV)>, j: int)
    requires
        0 <= j < e.len(),
        spec_u32_val(e[j].1) is None,
    ensures
        spec_u32_entries(e) is None,
    decreases e.len(),
{
    if j < e.len() - 1 {
        lemma_u32_entries_bad(e.drop_last(), j);
    }
}

/// Decode a JSON object of non-negative integer bounds into a list of
/// key/value pairs, in the object's own order. A negative, fractional, or
/// out-of-range number is rejected.
pub fn decode_u32_map(v: &JsonValue) -> (r: Result<Vec<(String, u32)>, FetchError>)
    ensures
        match r {
            Ok(x) => spec_u32_map(v.model()) == Some(x.deep_view()),
            Err(e) => spec_u32_map(v.model()) is None && e is Schema,
        },
{
    let entries = match v {
        JsonValue::Obj(entries) => entries,
        _ => {
            return Err(FetchError::schema("expected an object of integers"));
        },
    };
    proof {
        lemma_obj_model(*entries);
    }
    let ghost m = obj_entries_model(entries@);
    let mut out: Vec<(String, u32)> = Vec::new();
    let mut i: usize = 0;
    while i < entries.len()
        invariant
            i <= entries.len(),
            m == obj_entries_model(entries@),
            v.model() == JsonV::Obj(m),
            spec_u32_entries(m.take(i as int)) == Some(out.deep_view()),
        decreases entries.len() - i,
    {
        let pair = &entries[i];
        let n = match &pair.1 {
            JsonValue::Num(s) => match parse_u32(s.as_str()) {
                Some(n) => n,
                None => {
                    proof {
                        lemma_u32_entries_bad(m, i as int);
                    }
                    return Err(FetchError::schema("expected an unsigned integer value"));
                },
            },
            _ => {
                proof {
                    lemma_u32_entries_bad(m, i as int);
                }
                return Err(FetchError::schema("expected a number value"));
            },
        };
        out.push((pair.0.clone(), n));
        proof {
            assert(m.take(i + 1).drop_last() =~= m.take(i as int));
            assert(m.take(i + 1).last() == m[i as int]);
            assert(out.deep_view() =~= spec_u32_entries(m.take(i as int)).unwrap().push(
                (entries@[i as int].0@, n),
            ));
        }
        i += 1;
    }
    proof {
        assert(m.take(entries@.len() as int) =~= m);
    }
    Ok(out)
}

/// The canonical JSON items of an ordered list of strings.
pub open spec fn str_items_to_json(m: Seq<Seq<char>>) -> Seq<JsonV> {
    Seq::new(m.len(), |i: int| JsonV::Str(m[i]))
}

/// Reading an encoded list of strings back gives the list itself.
pub proof fn lemma_str_items_round_trip(m: Seq<Seq<char>>)
    ensures
        spec_str_items(str_items_to_json(m)) == Some(m),
    decreases m.len(),
{
    let e = str_items_to_json(m);
    if m.len() == 0 {
        assert(e =~= Seq::<JsonV>::empty());
    } else {
        lemma_str_items_round_trip(m.drop_last());
        assert(e.drop_last() =~= str_items_to_json(m.drop_last()));
        assert(e.last() == JsonV::Str(m.last()));
        assert(spec_str_items(e)->Some_0 =~= m);
    }
}

/// The canonical JSON entries of a string-valued mapping.
pub open spec fn str_entries_to_json(m: Seq<(Seq<char>, Seq<char>)>) -> Seq<(Seq<char>, JsonV)> {
    Seq::new(m.len(), |i: int| (m[i].0, JsonV::Str(m[i].1)))
}

/// Reading an encoded string-valued mapping back gives the mapping
/// itself.
pub proof fn lemma_str_entries_round_trip(m: Seq<(Seq<char>, Seq<char>)>)
    ensures
        spec_str_entries(str_entries_to_json(m)) == Some(m),
    decreases m.len(),
{
    let e = str_entries_to_json(m);
    if m.len() == 0 {
        assert(e =~= Seq::<(Seq<char>, JsonV)>::empty());
    } else {
        lemma_str_entries_round_trip(m.drop_last());
        assert(e.drop_last() =~= str_entries_to_json(m.drop_last()));
        assert(e.last() == (m.last().0, JsonV::Str(m.last().1)));
        assert(spec_str_entries(e)->Some_0 =~= m);
    }
}

/// The canonical JSON entries of a number-valued mapping whose values are
/// decimal texts.
pub open spec fn num_entries_to_json(m: Seq<(Seq<char>, Seq<char>)>) -> Seq<(Seq<char>, JsonV)> {
    Seq::new(m.len(), |i: int| (m[i].0, JsonV::Num(m[i].1)))
}

/// Reading an encoded number-valued mapping back gives the mapping
/// itself.
pub proof fn lemma_num_entries_round_trip(m: Seq<(Seq<char>, Seq<char>)>)
    ensures
        spec_num_entries(num_entries_to_json(m)) == Some(m),
    decreases m.len(),
{
    let e = num_entries_to_json(m);
    if m.len() == 0 {
        assert(e =~= Seq::<(Seq<char>, JsonV)>::empty());
    } else {
        lemma_num_entries_round_trip(m.drop_last());
        assert(e.drop_last() =~= num_entries_to_json(m.drop_last()));
        assert(e.last() == (m.last().0, JsonV::Num(m.last().1)));
        assert(spec_num_entries(e)->Some_0 =~= m);
    }
}

/// Encode an ordered list of strings as a JSON array node.
pub fn encode_str_items(items: &Vec<String>) -> (r: JsonValue)
    ensures
        r.model() == JsonV::Arr(str_items_to_json(items.deep_view())),
{
    let ghost target = str_items_to_json(items.deep_view());
    let mut out: Vec<JsonValue> = Vec::new();
    let mut i: usize = 0;
    while i < items.len()
        invariant
            i <= items.len(),
            target == str_items_to_json(items.deep_view()),
            out@.len() == i,
            forall|j: int| 0 <= j < i ==> #[trigger] out@[j].model() == target[j],
        decreases items.len() - i,
    {
        out.push(JsonValue::Str(items[i].clone()));
        i += 1;
    }
    proof {
        lemma_arr_model(out);
        assert(Seq::new(out@.len(), |j: int| out@[j].model()) =~= target);
    }
    JsonValue::Arr(out)
}

/// Encode a string-valued mapping as a JSON object node.
pub fn encode_str_entries(m: &Vec<(String, String)>) -> (r: JsonValue)
    ensures
        r.model() == JsonV::Obj(str_entries_to_json(m.deep_view())),
{
    let ghost target = str_entries_to_json(m.deep_view());
    let mut out: Vec<(String, JsonValue)> = Vec::new();
    let mut i: usize = 0;
    while i < m.len()
        invariant
            i <= m.len(),
            target == str_entries_to_json(m.deep_view()),
            obj_entries_model(out@) == target.take(i as int),
        decreases m.len() - i,
    {
        let pair = &m[i];
        let ghost prev = out@;
        out.push((pair.0.clone(), JsonValue::Str(pair.1.clone())));
        proof {
            assert(target.len() == m@.len());
            assert(obj_entries_model(prev).len() == prev.len());
            assert(prev.len() == i as int);
            assert(m.deep_view()[i as int] == (m@[i as int].0@, m@[i as int].1@));
            assert forall|j: int| 0 <= j < i + 1 implies obj_entries_model(out@)[j]
                == target.take(i + 1)[j] by {
                if j < i as int {
                    assert(out@[j] == prev[j]);
                    assert(obj_entries_model(prev)[j] == target.take(i as int)[j]);
                }
            }
            assert(obj_entries_model(out@).len() == i + 1);
            assert(target.take(i + 1).len() == i + 1);
            assert(obj_entries_model(out@) =~= target.take(i + 1));
        }
        i += 1;
    }
    proof {
        assert(target.take(m@.len() as int) =~= target);
        lemma_obj_model(out);
    }
    JsonValue::Obj(out)
}

/// Encode a number-valued mapping, whose values are decimal texts, as a
/// JSON object node.
pub fn encode_num_entries(m: &Vec<(String, String)>) -> (r: JsonValue)
    ensures
        r.model() == JsonV::Obj(num_entries_to_json(m.deep_view())),
{
    let ghost target = num_entries_to_json(m.deep_view());
    let mut out: Vec<(String, JsonValue)> = Vec::new();
    let mut i: usize = 0;
    while i < m.len()
        invariant
            i <= m.len(),
            target == num_entries_to_json(m.deep_view()),
            obj_entries_model(out@) == target.take(i as int),
        decreases m.len() - i,
    {
        let pair = &m[i];
        let ghost prev = out@;
        out.push((pair.0.clone(), JsonValue::Num(pair.1.clone())));
        proof {
            assert(target.len() == m@.len());
            assert(obj_entries_model(prev).len() == prev.len());
            assert(prev.len() == i as int);
            assert(m.deep_view()[i as int] == (m@[i as int].0@, m@[i as int].1@));
            assert forall|j: int| 0 <= j < i + 1 implies obj_entries_model(out@)[j]
                == target.take(i + 1)[j] by {
                if j < i as int {
                    assert(out@[j] == prev[j]);
                    assert(obj_entries_model(prev)[j] == target.take(i as int)[j]);
                }
            }
            assert(obj_entries_model(out@).len() == i + 1);
            assert(target.take(i + 1).len() == i + 1);
            assert(obj_entries_model(out@) =~= target.take(i + 1));
        }
        i += 1;
    }
    proof {
        assert(target.take(m@.len() as int) =~= target);
        lemma_obj_model(out);
    }
    JsonValue::Obj(out)
}

/// Encode an unsigned-integer-valued mapping as a JSON object node.
pub fn encode_u32_entries(m: &Vec<(String, u32)>) -> (r: JsonValue)
    ensures
        r.model() == JsonV::Obj(u32_entries_to_json(m.deep_view())),
{
    let ghost target = u32_entries_to_json(m.deep_view());
    let mut out: Vec<(String, JsonValue)> = Vec::new();
    let mut i: usize = 0;
    while i < m.len()
        invariant
            i <= m.len(),
            target == u32_entries_to_json(m.deep_view()),
            obj_entries_model(out@) == target.take(i as int),
        decreases m.len() - i,
    {
        let pair = &m[i];
        let ghost prev = out@;
        out.push((pair.0.clone(), JsonValue::Num(u32_to_dec(pair.1))));
        proof {
            assert(target.len() == m@.len());
            assert(obj_entries_model(prev).len() == prev.len());
            assert(prev.len() == i as int);
            assert(m.deep_view()[i as int] == (m@[i as int].0@, m@[i as int].1));
            assert forall|j: int| 0 <= j < i + 1 implies obj_entries_model(out@)[j]
                == target.take(i + 1)[j] by {
                if j < i as int {
                    assert(out@[j] == prev[j]);
                    assert(obj_entries_model(prev)[j] == target.take(i as int)[j]);
                }
            }
            assert(obj_entries_model(out@).len() == i + 1);
            assert(target.take(i + 1).len() == i + 1);
            assert(obj_entries_model(out@) =~= target.take(i + 1));
        }
        i += 1;
    }
    proof {
        assert(target.take(m@.len() as int) =~= target);
        lemma_obj_model(out);
    }
    JsonValue::Obj(out)
}

/// The canonical JSON entries of an unsigned-integer-valued mapping.
pub open spec fn u32_entries_to_json(m: Seq<(Seq<char>, u32)>) -> Seq<(Seq<char>, JsonV)> {
    Seq::new(m.len(), |i: int| (m[i].0, JsonV::Num(dec_str(m[i].1 as nat))))
}

/// Reading an encoded unsigned-integer-valued mapping back gives the
/// mapping itself.
pub proof fn lemma_u32_entries_round_trip(m: Seq<(Seq<char>, u32)>)
    ensures
        spec_u32_entries(u32_entries_to_json(m)) == Some(m),
    decreases m.len(),
{
    let e = u32_entries_to_json(m);
    if m.len() == 0 {
        assert(e =~= Seq::<(Seq<char>, JsonV)>::empty());
    } else {
        lemma_u32_entries_round_trip(m.drop_last());
        lemma_u32_dec_str(m.last().1);
        assert(e.drop_last() =~= u32_entries_to_json(m.drop_last()));
        assert(e.last() == (m.last().0, JsonV::Num(dec_str(m.last().1 as nat))));
        assert(spec_u32_entries(e)->Some_0 =~= m);
    }
}

} // verus!
