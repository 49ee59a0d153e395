//! A structural JSON value and its mathematical shape.
//!
//! Inbound payloads have no schema guarantees, so they are held as a dynamic
//! value with optional-field extraction at every access point. Numbers are
//! kept only when they fit in `i64`; any other number is read as `Null`,
//! which answers every optional-field access with nothing, exactly as a
//! number accessed as a string or an integer out of range would.

use vstd::prelude::*;

use crate::text::str_lt;

verus! {

/// A JSON value as the protocol logic sees it.
pub enum JsonValue {
    Null,
    Bool(bool),
    Int(i64),
    Str(String),
    Arr(Vec<JsonValue>),
    Obj(Vec<(String, JsonValue)>),
}

/// The mathematical shape of a `JsonValue`.
pub enum JsonView {
    Null,
    Bool(bool),
    Int(i64),
    Str(Seq<char>),
    Arr(Seq<JsonView>),
    Obj(Seq<(Seq<char>, JsonView)>),
}

/// The shape of a concrete value.
pub open spec fn json_rep(v: JsonValue) -> JsonView
    decreases v,
{
    match v {
        JsonValue::Null => JsonView::Null,
        JsonValue::Bool(b) => JsonView::Bool(b),
        JsonValue::Int(i) => JsonView::Int(i),
        JsonValue::Str(s) => JsonView::Str(s@),
        JsonValue::Arr(items) => JsonView::Arr(
            Seq::new(
                items@.len(),
                |i: int|
                    if 0 <= i < items@.len() {
                        json_rep(items@[i])
                    } else {
                        JsonView::Null
                    },
            ),
        ),
        JsonValue::Obj(entries) => JsonView::Obj(
            Seq::new(
                entries@.len(),
                |i: int|
                    if 0 <= i < entries@.len() {
                        (entries@[i].0@, json_rep(entries@[i].1))
                    } else {
                        (Seq::empty(), JsonView::Null)
                    },
            ),
        ),
    }
}

impl View for JsonValue {
    type V = JsonView;

    open spec fn view(&self) -> JsonView {
        json_rep(*self)
    }
}

/// The first entry with the given key, as `serde_json`'s map lookup finds it.
pub open spec fn obj_lookup(entries: Seq<(Seq<char>, JsonView)>, key: Seq<char>) -> Option<
    JsonView,
>
    decreases entries.len(),
{
    if entries.len() == 0 {
        None
    } else if entries[0].0 == key {
        Some(entries[0].1)
    } else {
        obj_lookup(entries.skip(1), key)
    }
}

/// Field access: an object's entry under the key, nothing for any other shape.
pub open spec fn json_get(v: JsonView, key: Seq<char>) -> Option<JsonView> {
    match v {
        JsonView::Obj(entries) => obj_lookup(entries, key),
        _ => None,
    }
}

proof fn lemma_obj_lookup_step(entries: Seq<(Seq<char>, JsonView)>, key: Seq<char>, i: int)
    requires
        0 <= i < entries.len(),
        entries[i].0 != key,
    ensures
        obj_lookup(entries.skip(i), key) == obj_lookup(entries.skip(i + 1), key),
{
    assert(entries.skip(i).len() > 0);
    assert(entries.skip(i)[0] == entries[i]);
    assert(entries.skip(i).skip(1) =~= entries.skip(i + 1));
}

impl JsonValue {
    /// The value under `key` when this is an object that has one.
    pub fn get<'a>(&'a self, key: &str) -> (r: Option<&'a JsonValue>)
        ensures
            match r {
                Some(x) => json_get(self@, key@) == Some(x@),
                None => json_get(self@, key@) is None,
            },
    {
        match self {
            JsonValue::Obj(entries) => {
                let ghost whole: JsonView = self@;
                let ghost es: Seq<(Seq<char>, JsonView)> = match whole {
                    JsonView::Obj(inner) => inner,
                    _ => Seq::empty(),
                };
                proof {
                    assert(whole is Obj);
                    assert(es.len() == entries@.len());
                    assert(es.skip(0) =~= es);
                }
                let n = entries.len();
                for i in 0..n
                    invariant
                        whole == self@,
                        whole == JsonView::Obj(es),
                        n == entries@.len(),
                        es.len() == entries@.len(),
                        forall|j: int|
                            0 <= j < es.len() ==> es[j] == (
                                entries@[j].0@,
                                json_rep(entries@[j].1),
                            ),
                        json_get(whole, key@) == obj_lookup(es.skip(i as int), key@),
                {
                    if crate::text::str_eq(entries[i].0.as_str(), key) {
                        proof {
                            assert(es.skip(i as int)[0] == es[i as int]);
                            assert(obj_lookup(es.skip(i as int), key@) == Some(es[i as int].1));
                        }
                        return Some(&entries[i].1);
                    }
                    proof {
                        assert(es[i as int].0 == entries@[i as int].0@);
                        lemma_obj_lookup_step(es, key@, i as int);
                    }
                }
                proof {
                    assert(es.skip(n as int) =~= Seq::empty());
                }
                None
            },
            _ => None,
        }
    }
}

/// The shapes of a sequence of values, element by element.
pub open spec fn reps_of(items: Seq<JsonValue>) -> Seq<JsonView> {
    Seq::new(
        items.len(),
        |i: int|
            if 0 <= i < items.len() {
                json_rep(items[i])
            } else {
                JsonView::Null
            },
    )
}

/// An array's shape is the element-wise shape of its items.
pub proof fn lemma_arr_reps(items: Vec<JsonValue>)
    ensures
        json_rep(JsonValue::Arr(items)) == JsonView::Arr(reps_of(items@)),
{
    let inner = match json_rep(JsonValue::Arr(items)) {
        JsonView::Arr(x) => x,
        _ => Seq::empty(),
    };
    assert(inner =~= reps_of(items@));
}

/// The shape of an object value, entry by entry.
pub proof fn lemma_obj_rep(entries: Vec<(String, JsonValue)>)
    ensures
        json_rep(JsonValue::Obj(entries)) is Obj,
        json_rep(JsonValue::Obj(entries))->Obj_0.len() == entries@.len(),
        forall|i: int|
            0 <= i < entries@.len() ==> json_rep(JsonValue::Obj(entries))->Obj_0[i] == (
                (#[trigger] entries@[i]).0@,
                json_rep(entries@[i].1),
            ),
{
}

/// The shape of an array value, element by element.
pub proof fn lemma_arr_rep(items: Vec<JsonValue>)
    ensures
        json_rep(JsonValue::Arr(items)) is Arr,
        json_rep(JsonValue::Arr(items))->Arr_0.len() == items@.len(),
        forall|i: int|
            0 <= i < items@.len() ==> json_rep(JsonValue::Arr(items))->Arr_0[i] == json_rep(
                #[trigger] items@[i],
            ),
{
}

impl JsonValue {
    /// A structurally equal copy.
    #[verifier::loop_isolation(false)]
    pub fn deep_copy(&self) -> (r: JsonValue)
        ensures
            r@ == self@,
        decreases self,
    {
        match self {
            JsonValue::Null => JsonValue::Null,
            JsonValue::Bool(b) => JsonValue::Bool(*b),
            JsonValue::Int(i) => JsonValue::Int(*i),
            JsonValue::Str(s) => JsonValue::Str(s.clone()),
            JsonValue::Arr(items) => {
                let ghost iv: Seq<JsonView> = match self@ {
                    JsonView::Arr(inner) => inner,
                    _ => Seq::empty(),
                };
                proof {
                    assert(self@ is Arr);
                    assert(iv.len() == items@.len());
                }
                let mut out: Vec<JsonValue> = Vec::new();
                let n = items.len();
                for i in 0..n
                    invariant
                        self@ == JsonView::Arr(iv),
                        n == items@.len(),
                        iv.len() == n,
                        forall|j: int| 0 <= j < n ==> iv[j] == json_rep(#[trigger] items@[j]),
                        out@.len() == i,
                        forall|j: int| 0 <= j < i ==> json_rep(#[trigger] out@[j]) == iv[j],
                    decreases n - i,
                {
                    proof {
                        assert(decreases_to!(*self => self->Arr_0));
                        assert(decreases_to!(*items => items@));
                        assert(decreases_to!(items@ => items@[i as int]));
                    }
                    let w = items[i].deep_copy();
                    out.push(w);
                }
                let r = JsonValue::Arr(out);
                proof {
                    let ghost rv: Seq<JsonView> = match r@ {
                        JsonView::Arr(inner) => inner,
                        _ => Seq::empty(),
                    };
                    assert(rv =~= iv);
                }
                r
            },
            JsonValue::Obj(entries) => {
                let ghost ev: Seq<(Seq<char>, JsonView)> = match self@ {
                    JsonView::Obj(inner) => inner,
                    _ => Seq::empty(),
                };
                proof {
                    assert(self@ is Obj);
                    assert(ev.len() == entries@.len());
                }
                let mut out: Vec<(String, JsonValue)> = Vec::new();
                let n = entries.len();
                for i in 0..n
                    invariant
                        self@ == JsonView::Obj(ev),
                        n == entries@.len(),
                        ev.len() == n,
                        forall|j: int|
                            0 <= j < n ==> #[trigger] ev[j] == (
                                entries@[j].0@,
                                json_rep(entries@[j].1),
                            ),
                        out@.len() == i,
                        forall|j: int|
                            0 <= j < i ==> ((#[trigger] out@[j]).0@, json_rep(out@[j].1)) == ev[j],
                    decreases n - i,
                {
                    proof {
                        assert(decreases_to!(*self => self->Obj_0));
                        assert(decreases_to!(*entries => entries@));
                        assert(decreases_to!(entries@ => entries@[i as int]));
                        assert(decreases_to!(entries@[i as int] => entries@[i as int].1));
                    }
                    let w = entries[i].1.deep_copy();
                    let k = entries[i].0.clone();
                    out.push((k, w));
                }
                let r = JsonValue::Obj(out);
                proof {
                    let ghost rv: Seq<(Seq<char>, JsonView)> = match r@ {
                        JsonView::Obj(inner) => inner,
                        _ => Seq::empty(),
                    };
                    assert(rv =~= ev);
                }
                r
            },
        }
    }
}

#[verifier::external_type_specification]
#[verifier::external_body]
pub struct ExSerdeValue(serde_json::Value);

/// The shape a `serde_json::Value` is read as: each variant maps to the
/// matching `JsonView` variant, a number only when `as_i64` accepts it (any
/// other number reads as `Null`), and an object's entries come in the order
/// its map iterates them, which is ascending key order.
pub uninterp spec fn decoded(v: serde_json::Value) -> JsonView;

/// What parsing a string as JSON yields: nothing when the text is not valid
/// JSON, otherwise the decoded shape of the parsed value. A function of the
/// text alone.
pub uninterp spec fn parsed_json(s: Seq<char>) -> Option<JsonView>;

/// Relies on serde_json::from_str::<serde_json::Value>: whether a string is
/// valid JSON, and the value it denotes, depend on the string alone.
#[verifier::external_body]
fn parse_value(s: &str) -> (r: Option<serde_json::Value>)
    ensures
        match r {
            Some(v) => parsed_json(s@) == Some(decoded(v)),
            None => parsed_json(s@) is None,
        },
{
    serde_json::from_str::<serde_json::Value>(s).ok()
}

/// Relies on the variants of serde_json::Value, read one for one into the
/// matching variant here; a number is kept only when `as_i64` accepts it.
#[verifier::external_body]
fn value_to_json(v: &serde_json::Value) -> (r: JsonValue)
    ensures
        r@ == decoded(*v),
{
    match v {
        serde_json::Value::Null => JsonValue::Null,
        serde_json::Value::Bool(b) => JsonValue::Bool(*b),
        serde_json::Value::Number(n) => match n.as_i64() {
            Some(i) => JsonValue::Int(i),
            None => JsonValue::Null,
        },
        serde_json::Value::String(s) => JsonValue::Str(s.clone()),
        serde_json::Value::Array(a) => JsonValue::Arr(a.iter().map(value_to_json).collect()),
        serde_json::Value::Object(m) => JsonValue::Obj(
            m.iter().map(|(k, x)| (k.clone(), value_to_json(x))).collect(),
        ),
    }
}

/// Parse a string as JSON, keeping the structural shape.
pub fn parse_json(s: &str) -> (r: Option<JsonValue>)
    ensures
        match r {
            Some(v) => parsed_json(s@) == Some(v@),
            None => parsed_json(s@) is None,
        },
{
    match parse_value(s) {
        Some(v) => Some(value_to_json(&v)),
        None => None,
    }
}

/// An object's keys in strictly ascending order — the one order a
/// map-backed JSON object can hold.
pub open spec fn keys_ordered(entries: Seq<(Seq<char>, JsonView)>) -> bool {
    forall|i: int, j: int| 0 <= i < j < entries.len() ==> str_lt(entries[i].0, entries[j].0)
}

/// Every object in the value keeps its keys strictly sorted, so the value
/// has the one shape the encoder accepts.
pub open spec fn sorted_json(v: JsonView) -> bool
    decreases v, 1int,
{
    match v {
        JsonView::Arr(items) => sorted_items(items),
        JsonView::Obj(entries) => keys_ordered(entries) && sorted_members(entries),
        _ => true,
    }
}

/// `sorted_json` of every element.
pub open spec fn sorted_items(items: Seq<JsonView>) -> bool
    decreases items, 0int,
{
    if items.len() == 0 {
        true
    } else {
        sorted_json(items[0]) && sorted_items(items.skip(1))
    }
}

/// `sorted_json` of every entry's value.
pub open spec fn sorted_members(entries: Seq<(Seq<char>, JsonView)>) -> bool
    decreases entries, 0int,
{
    if entries.len() == 0 {
        true
    } else {
        sorted_json(entries[0].1) && sorted_members(entries.skip(1))
    }
}

/// Each element of a sorted sequence is itself sorted.
pub proof fn lemma_sorted_items_index(items: Seq<JsonView>, i: int)
    requires
        sorted_items(items),
        0 <= i < items.len(),
    ensures
        sorted_json(items[i]),
    decreases i,
{
    if i > 0 {
        assert(items.skip(1)[i - 1] == items[i]);
        lemma_sorted_items_index(items.skip(1), i - 1);
    }
}

/// Each entry's value in a sorted entry sequence is itself sorted.
pub proof fn lemma_sorted_members_index(entries: Seq<(Seq<char>, JsonView)>, i: int)
    requires
        sorted_members(entries),
        0 <= i < entries.len(),
    ensures
        sorted_json(entries[i].1),
    decreases i,
{
    if i > 0 {
        assert(entries.skip(1)[i - 1] == entries[i]);
        lemma_sorted_members_index(entries.skip(1), i - 1);
    }
}

/// A sequence of sorted elements is sorted.
pub proof fn lemma_sorted_items_intro(items: Seq<JsonView>)
    requires
        forall|i: int| 0 <= i < items.len() ==> sorted_json(#[trigger] items[i]),
    ensures
        sorted_items(items),
    decreases items.len(),
{
    if items.len() > 0 {
        assert forall|i: int| 0 <= i < items.skip(1).len() implies sorted_json(
            #[trigger] items.skip(1)[i],
        ) by {
            assert(items.skip(1)[i] == items[i + 1]);
        }
        lemma_sorted_items_intro(items.skip(1));
    }
}

/// A sequence of entries with sorted values is sorted.
pub proof fn lemma_sorted_members_intro(entries: Seq<(Seq<char>, JsonView)>)
    requires
        forall|i: int| 0 <= i < entries.len() ==> sorted_json((#[trigger] entries[i]).1),
    ensures
        sorted_members(entries),
    decreases entries.len(),
{
    if entries.len() > 0 {
        assert forall|i: int| 0 <= i < entries.skip(1).len() implies sorted_json(
            (#[trigger] entries.skip(1)[i]).1,
        ) by {
            assert(entries.skip(1)[i] == entries[i + 1]);
        }
        lemma_sorted_members_intro(entries.skip(1));
    }
}

/// Relies on serde_json::Value::Null.
#[verifier::external_body]
fn v_null() -> (r: serde_json::Value)
    ensures
        decoded(r) == JsonView::Null,
{
    serde_json::Value::Null
}

/// Relies on serde_json::Value::Bool.
#[verifier::external_body]
fn v_bool(b: bool) -> (r: serde_json::Value)
    ensures
        decoded(r) == JsonView::Bool(b),
{
    serde_json::Value::Bool(b)
}

/// Relies on serde_json::Number::from for `i64`, whose `as_i64` gives the
/// number back.
#[verifier::external_body]
fn v_int(i: i64) -> (r: serde_json::Value)
    ensures
        decoded(r) == JsonView::Int(i),
{
    serde_json::Value::Number(serde_json::Number::from(i))
}

/// Relies on serde_json::Value::String.
#[verifier::external_body]
fn v_str(s: &str) -> (r: serde_json::Value)
    ensures
        decoded(r) == JsonView::Str(s@),
{
    serde_json::Value::String(s.to_owned())
}

/// Relies on serde_json::Value::Array holding exactly the given elements in
/// order.
#[verifier::external_body]
fn v_arr(items: Vec<serde_json::Value>) -> (r: serde_json::Value)
    ensures
        decoded(r) == JsonView::Arr(
            Seq::new(items@.len(), |i: int| decoded(items@[i])),
        ),
{
    serde_json::Value::Array(items)
}

/// Relies on serde_json::Map: collecting entries whose keys come in strictly
/// ascending order builds an object holding exactly those entries in that
/// order.
#[verifier::external_body]
fn v_obj(entries: Vec<(String, serde_json::Value)>) -> (r: serde_json::Value)
    requires
        forall|i: int, j: int|
            0 <= i < j < entries@.len() ==> str_lt(entries@[i].0@, entries@[j].0@),
    ensures
        decoded(r) == JsonView::Obj(
            Seq::new(entries@.len(), |i: int| (entries@[i].0@, decoded(entries@[i].1))),
        ),
{
    serde_json::Value::Object(entries.into_iter().collect())
}

/// Relies on serde_json::to_string for a `Value`: it cannot fail, its output
/// holds no raw control character (so no newline), and parsing the output
/// back gives an equal value.
#[verifier::external_body]
fn value_to_line(v: &serde_json::Value) -> (r: String)
    ensures
        parsed_json(r@) == Some(decoded(*v)),
        forall|i: int| 0 <= i < r@.len() ==> r@[i] != '\n',
{
    serde_json::to_string(v).unwrap_or_default()
}

/// Mirror the value into a `serde_json::Value` of the same shape.
#[verifier::loop_isolation(false)]
fn to_value(v: &JsonValue) -> (r: serde_json::Value)
    requires
        sorted_json(v@),
    ensures
        decoded(r) == v@,
    decreases v,
{
    match v {
        JsonValue::Null => v_null(),
        JsonValue::Bool(b) => v_bool(*b),
        JsonValue::Int(i) => v_int(*i),
        JsonValue::Str(s) => v_str(s.as_str()),
        JsonValue::Arr(items) => {
            let ghost iv: Seq<JsonView> = match v@ {
                JsonView::Arr(inner) => inner,
                _ => Seq::empty(),
            };
            proof {
                assert(v@ is Arr);
                assert(iv.len() == items@.len());
            }
            let mut out: Vec<serde_json::Value> = Vec::new();
            let n = items.len();
            for i in 0..n
                invariant
                    v@ == JsonView::Arr(iv),
                    sorted_json(v@),
                    n == items@.len(),
                    iv.len() == n,
                    forall|j: int| 0 <= j < n ==> iv[j] == json_rep(#[trigger] items@[j]),
                    out@.len() == i,
                    forall|j: int| 0 <= j < i ==> decoded(#[trigger] out@[j]) == iv[j],
                decreases n - i,
            {
                proof {
                    assert(decreases_to!(*v => v->Arr_0));
                    assert(decreases_to!(*items => items@));
                    assert(decreases_to!(items@ => items@[i as int]));
                    assert(items@[i as int]@ == iv[i as int]);
                    assert(sorted_items(iv));
                    lemma_sorted_items_index(iv, i as int);
                }
                let w = to_value(&items[i]);
                out.push(w);
            }
            let r = v_arr(out);
            proof {
                assert(Seq::new(out@.len(), |i: int| decoded(out@[i])) =~= iv);
            }
            r
        },
        JsonValue::Obj(entries) => {
            let ghost ev: Seq<(Seq<char>, JsonView)> = match v@ {
                JsonView::Obj(inner) => inner,
                _ => Seq::empty(),
            };
            proof {
                assert(v@ is Obj);
                assert(ev.len() == entries@.len());
            }
            let mut out: Vec<(String, serde_json::Value)> = Vec::new();
            let n = entries.len();
            for i in 0..n
                invariant
                    v@ == JsonView::Obj(ev),
                    sorted_json(v@),
                    n == entries@.len(),
                    ev.len() == n,
                    forall|j: int|
                        0 <= j < n ==> #[trigger] ev[j] == (
                            entries@[j].0@,
                            json_rep(entries@[j].1),
                        ),
                    out@.len() == i,
                    forall|j: int|
                        0 <= j < i ==> ((#[trigger] out@[j]).0@, decoded(out@[j].1)) == ev[j],
                decreases n - i,
            {
                proof {
                    assert(decreases_to!(*v => v->Obj_0));
                    assert(decreases_to!(*entries => entries@));
                    assert(decreases_to!(entries@ => entries@[i as int]));
                    assert(decreases_to!(entries@[i as int] => entries@[i as int].1));
                    assert(entries@[i as int].1@ == ev[i as int].1);
                    assert(sorted_members(ev));
                    lemma_sorted_members_index(ev, i as int);
                }
                let w = to_value(&entries[i].1);
                let k = entries[i].0.clone();
                out.push((k, w));
            }
            proof {
                assert forall|a: int, b: int|
                    0 <= a < b < out@.len() implies str_lt(out@[a].0@, out@[b].0@) by {
                    assert(out@[a].0@ == ev[a].0);
                    assert(out@[b].0@ == ev[b].0);
                }
            }
            let r = v_obj(out);
            proof {
                assert(Seq::new(
                    out@.len(),
                    |i: int| (out@[i].0@, decoded(out@[i].1)),
                ) =~= ev);
            }
            r
        },
    }
}

/// Encode the value as one line of JSON.
///
/// The line holds no raw newline, and parsing it back yields the value
/// unchanged.
pub fn json_line(v: &JsonValue) -> (r: String)
    requires
        sorted_json(v@),
    ensures
        parsed_json(r@) == Some(v@),
        forall|i: int| 0 <= i < r@.len() ==> r@[i] != '\n',
{
    let w = to_value(v);
    value_to_line(&w)
}

} // verus!
