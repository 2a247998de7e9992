//! JSON values.
use crate::text;
use serde_json::Value;
use vstd::prelude::*;
use vstd::string::*;

verus! {

/// A JSON value. A number is given by the bits of the double-precision value that `serde_json` gives
/// for it, if it gives one, and an object by its members in order.
pub enum Json {
    Null,
    Bool(bool),
    Number(Option<u64>),
    Text(String),
    List(Vec<Json>),
    Object(Vec<(String, Json)>),
}

/// The model of a JSON value.
pub enum JsonView {
    Null,
    Bool(bool),
    Number(Option<u64>),
    Text(Seq<char>),
    List(Seq<JsonView>),
    Object(Seq<(Seq<char>, JsonView)>),
}

impl Json {
    /// What the value holds.
    pub open spec fn model(self) -> JsonView
        decreases self,
    {
        match self {
            Json::Null => JsonView::Null,
            Json::Bool(b) => JsonView::Bool(b),
            Json::Number(n) => JsonView::Number(n),
            Json::Text(t) => JsonView::Text(t@),
            Json::List(v) => JsonView::List(
                Seq::new(
                    v@.len(),
                    |i: int|
                        if 0 <= i < v@.len() {
                            v@[i].model()
                        } else {
                            JsonView::Null
                        },
                ),
            ),
            Json::Object(v) => JsonView::Object(
                Seq::new(
                    v@.len(),
                    |i: int|
                        if 0 <= i < v@.len() {
                            (v@[i].0@, v@[i].1.model())
                        } else {
                            (seq![], JsonView::Null)
                        },
                ),
            ),
        }
    }
}

impl View for Json {
    type V = JsonView;

    open spec fn view(&self) -> JsonView {
        self.model()
    }
}

/// The values of `serde_json`.
#[verifier::external_type_specification]
#[verifier::external_body]
pub struct ExValue(serde_json::Value);

/// What a value of `serde_json` holds.
pub uninterp spec fn held(v: Value) -> JsonView;

/// What `serde_json::from_str` makes of a text: a value, or the message of its error.
pub uninterp spec fn json_parse(s: Seq<char>) -> Result<JsonView, Seq<char>>;

/// `serde_json::from_str` for a value, with the error as its message. The outcome is a function of
/// the text.
#[verifier::external_body]
fn read_value(s: &str) -> (r: Result<Value, String>)
    ensures
        json_parse(s@) == match r {
            Ok(v) => Ok(held(v)),
            Err(e) => Err(e@),
        },
{
    serde_json::from_str::<Value>(s).map_err(|e| e.to_string())
}

/// The variants of `serde_json::Value`, and `serde_json::Number::as_f64` for the number of one: the
/// value that comes back is the one that is held.
#[verifier::external_body]
fn taken_out(v: Value) -> (r: Json)
    ensures
        r@ == held(v),
{
    match v {
        Value::Null => Json::Null,
        Value::Bool(b) => Json::Bool(b),
        Value::Number(n) => Json::Number(n.as_f64().map(|x| x.to_bits())),
        Value::String(s) => Json::Text(s),
        Value::Array(a) => Json::List(a.into_iter().map(taken_out).collect()),
        Value::Object(o) => Json::Object(o.into_iter().map(|(k, w)| (k, taken_out(w))).collect()),
    }
}

/// The value that a text denotes, or the message of the error that it holds.
pub fn parse(s: &str) -> (r: Result<Json, String>)
    ensures
        match r {
            Ok(j) => json_parse(s@) == Ok::<JsonView, Seq<char>>(j@),
            Err(e) => json_parse(s@) == Err::<JsonView, Seq<char>>(e@),
        },
{
    match read_value(s) {
        Ok(v) => Ok(taken_out(v)),
        Err(e) => Err(e),
    }
}

/// The value of the first member with this name.
pub open spec fn member(o: Seq<(Seq<char>, JsonView)>, key: Seq<char>) -> Option<JsonView>
    decreases o.len(),
{
    if o.len() == 0 {
        None
    } else if o[0].0 == key {
        Some(o[0].1)
    } else {
        member(o.skip(1), key)
    }
}

/// The member of an object; other values have none.
pub open spec fn field(j: JsonView, key: Seq<char>) -> Option<JsonView> {
    match j {
        JsonView::Object(o) => member(o, key),
        _ => None,
    }
}

impl Json {
    /// The member of an object; other values have none.
    pub fn get(&self, key: &str) -> (r: Option<&Json>)
        ensures
            match r {
                Some(j) => field(self@, key@) == Some(j@),
                None => field(self@, key@) is None,
            },
    {
        match self {
            Json::Object(v) => {
                let ghost o = self@->Object_0;
                let mut i: usize = 0;
                assert(o.skip(0) =~= o);
                while i < v.len()
                    invariant
                        i <= v@.len(),
                        self@ == JsonView::Object(o),
                        o.len() == v@.len(),
                        forall|k: int| 0 <= k < v@.len() ==> #[trigger] o[k] == (v@[k].0@, v@[k].1@),
                        member(o.skip(i as int), key@) == member(o, key@),
                    decreases v@.len() - i,
                {
                    assert(o.skip(i as int)[0] == o[i as int]);
                    if text::same(v[i].0.as_str(), key) {
                        return Some(&v[i].1);
                    }
                    assert(o.skip(i as int).skip(1) =~= o.skip(i + 1));
                    i = i + 1;
                }
                None
            },
            _ => None,
        }
    }
}

/// A member is found by its name, whatever stands before and behind it; of two with one name the
/// first is found, and a name that no member has is not found.
pub proof fn the_first_member_with_a_name_is_found(
    a: Seq<(Seq<char>, JsonView)>,
    key: Seq<char>,
    v: JsonView,
    b: Seq<(Seq<char>, JsonView)>,
)
    requires
        forall|i: int| 0 <= i < a.len() ==> (#[trigger] a[i]).0 != key,
    ensures
        field(JsonView::Object(a + seq![(key, v)] + b), key) == Some(v),
        field(JsonView::Object(a), key) is None,
    decreases a.len(),
{
    let o = a + seq![(key, v)] + b;
    if a.len() == 0 {
        assert(o[0] == (key, v));
    } else {
        assert(o[0] == a[0]);
        assert(a[0].0 != key);
        let t = a.skip(1);
        assert(o.skip(1) =~= t + seq![(key, v)] + b);
        assert forall|i: int| 0 <= i < t.len() implies (#[trigger] t[i]).0 != key by {
            assert(t[i] == a[i + 1]);
        }
        the_first_member_with_a_name_is_found(t, key, v, b);
    }
}

/// Only an object has members.
pub proof fn only_an_object_has_members(j: JsonView, key: Seq<char>)
    requires
        !(j is Object),
    ensures
        field(j, key) is None,
{
}

} // verus!
