//! The file of the voices that belong to an installation.
use crate::error::{ApiError, ErrorKind};
use crate::json;
use crate::json::Json;
use crate::text;
use vstd::prelude::*;
use vstd::string::*;

verus! {

/// A voice of the file. The codes are given by the bits of their double-precision values.
pub struct BasePreset {
    pub id: String,
    pub description: String,
    pub transcript: Option<String>,
    pub codes: Vec<u64>,
}

/// The model of a voice of the file.
pub struct PresetView {
    pub id: Seq<char>,
    pub description: Seq<char>,
    pub transcript: Option<Seq<char>>,
    pub codes: Seq<u64>,
}

impl View for BasePreset {
    type V = PresetView;

    open spec fn view(&self) -> PresetView {
        PresetView {
            id: self.id@,
            description: self.description@,
            transcript: text::opt_text(self.transcript),
            codes: self.codes@,
        }
    }
}

/// The numbers of a list; what is no number is left out.
pub open spec fn numbers(l: Seq<json::JsonView>) -> Seq<u64>
    decreases l.len(),
{
    if l.len() == 0 {
        seq![]
    } else {
        let head = numbers(l.drop_last());
        match l.last() {
            json::JsonView::Number(Some(b)) => head.push(b),
            _ => head,
        }
    }
}

/// The text of a member, if it is a text.
pub open spec fn text_field(j: json::JsonView, key: Seq<char>) -> Option<Seq<char>> {
    match json::field(j, key) {
        Some(json::JsonView::Text(t)) => Some(t),
        _ => None,
    }
}

/// The voice that a member of `presets` describes. It is described by its identifier where there
/// is no description.
pub open spec fn preset_of(id: Seq<char>, entry: json::JsonView) -> PresetView {
    PresetView {
        id,
        description: match text_field(entry, "description"@) {
            Some(t) => t,
            None => id,
        },
        transcript: text_field(entry, "text"@),
        codes: match json::field(entry, "codes"@) {
            Some(json::JsonView::List(l)) => numbers(l),
            _ => seq![],
        },
    }
}

/// The voices of a file: the members of its member `presets`.
pub open spec fn presets_of(file: json::JsonView) -> Seq<PresetView> {
    match json::field(file, "presets"@) {
        Some(json::JsonView::Object(o)) => o.map_values(
            |p: (Seq<char>, json::JsonView)| preset_of(p.0, p.1),
        ),
        _ => seq![],
    }
}

fn number_codes(l: &Vec<Json>) -> (r: Vec<u64>)
    ensures
        r@ == numbers(Seq::new(l@.len(), |i: int| l@[i]@)),
{
    let ghost all = Seq::new(l@.len(), |i: int| l@[i]@);
    let mut r: Vec<u64> = Vec::new();
    let mut i: usize = 0;
    assert(all.take(0) =~= seq![]);
    while i < l.len()
        invariant
            i <= l@.len(),
            all == Seq::new(l@.len(), |k: int| l@[k]@),
            r@ == numbers(all.take(i as int)),
        decreases l@.len() - i,
    {
        assert(all.take(i + 1).drop_last() =~= all.take(i as int));
        assert(all.take(i + 1).last() == l@[i as int]@);
        match &l[i] {
            Json::Number(n) => {
                match n {
                    Some(b) => r.push(*b),
                    None => {},
                }
            },
            _ => {},
        }
        i = i + 1;
    }
    assert(all.take(l@.len() as int) =~= all);
    r
}

fn text_of(j: &Json, key: &str) -> (r: Option<String>)
    ensures
        text::opt_text(r) == text_field(j@, key@),
{
    match j.get(key) {
        Some(f) => {
            match f {
                Json::Text(t) => Some(t.clone()),
                _ => None,
            }
        },
        None => None,
    }
}

fn read_preset(id: &String, entry: &Json) -> (r: BasePreset)
    ensures
        r@ == preset_of(id@, entry@),
{
    let description = match text_of(entry, "description") {
        Some(t) => t,
        None => id.clone(),
    };
    let transcript = text_of(entry, "text");
    let codes = match entry.get("codes") {
        Some(f) => {
            match f {
                Json::List(l) => {
                    assert(f@->List_0 =~= Seq::new(l@.len(), |i: int| l@[i]@));
                    number_codes(l)
                },
                _ => Vec::new(),
            }
        },
        None => Vec::new(),
    };
    BasePreset { id: id.clone(), description, transcript, codes }
}

/// The voices of a file.
pub fn read_presets(file: &Json) -> (r: Vec<BasePreset>)
    ensures
        r@.map_values(|p: BasePreset| p@) == presets_of(file@),
{
    let mut r: Vec<BasePreset> = Vec::new();
    match file.get("presets") {
        Some(f) => {
            match f {
                Json::Object(v) => {
                    let ghost o = f@->Object_0;
                    let ghost want = presets_of(file@);
                    assert(forall|k: int|
                        0 <= k < v@.len() ==> #[trigger] o[k] == (v@[k].0@, v@[k].1@));
                    let mut i: usize = 0;
                    while i < v.len()
                        invariant
                            i <= v@.len(),
                            o.len() == v@.len(),
                            want.len() == o.len(),
                            forall|k: int|
                                0 <= k < v@.len() ==> #[trigger] o[k] == (v@[k].0@, v@[k].1@),
                            forall|k: int|
                                0 <= k < o.len() ==> #[trigger] want[k] == preset_of(o[k].0, o[k].1),
                            r@.len() == i,
                            forall|k: int| 0 <= k < i ==> (#[trigger] r@[k])@ == want[k],
                        decreases v@.len() - i,
                    {
                        let p = read_preset(&v[i].0, &v[i].1);
                        assert(o[i as int] == (v@[i as int].0@, v@[i as int].1@));
                        r.push(p);
                        i = i + 1;
                    }
                    assert(r@.map_values(|p: BasePreset| p@) =~= want);
                },
                _ => {
                    assert(r@.map_values(|p: BasePreset| p@) =~= presets_of(file@));
                },
            }
        },
        None => {
            assert(r@.map_values(|p: BasePreset| p@) =~= presets_of(file@));
        },
    }
    r
}

/// The voices of the file with this text, or none if there is no file. A text that is no JSON is
/// refused.
pub fn load_base_voices(raw: Option<&str>) -> (r: Result<Vec<BasePreset>, ApiError>)
    ensures
        match raw {
            None => r matches Ok(v) && v@.len() == 0,
            Some(s) => match json::json_parse(s@) {
                Ok(file) => r matches Ok(v) && v@.map_values(|p: BasePreset| p@) == presets_of(
                    file,
                ),
                Err(m) => r matches Err(e) && e.says(
                    ErrorKind::Internal,
                    "invalid base voices json: "@ + m,
                ),
            },
        },
{
    match raw {
        None => Ok(Vec::new()),
        Some(s) => {
            match json::parse(s) {
                Ok(file) => Ok(read_presets(&file)),
                Err(m) => Err(
                    ApiError::Internal(text::concat2("invalid base voices json: ", m.as_str())),
                ),
            }
        },
    }
}

/// The numbers of a list are kept in their order, each with its bits; what is no number is left out.
pub proof fn numbers_are_kept_in_order(a: Seq<json::JsonView>, b: Seq<json::JsonView>, bits: u64)
    ensures
        numbers(a + b) == numbers(a) + numbers(b),
        numbers(seq![json::JsonView::Number(Some(bits))]) == seq![bits],
        forall|j: json::JsonView|
            !(j matches json::JsonView::Number(Some(_))) ==> (#[trigger] numbers(seq![j])).len()
                == 0,
    decreases b.len(),
{
    reveal_with_fuel(numbers, 2);
    let one = seq![json::JsonView::Number(Some(bits))];
    assert(one.drop_last() =~= seq![]);
    assert(numbers(one) =~= seq![bits]);
    assert forall|j: json::JsonView| !(j matches json::JsonView::Number(Some(_))) implies (
    #[trigger] numbers(seq![j])).len() == 0 by {
        assert(seq![j].drop_last() =~= seq![]);
    }
    if b.len() == 0 {
        assert(a + b =~= a);
        assert(numbers(a) =~= numbers(a) + numbers(b));
    } else {
        assert((a + b).drop_last() =~= a + b.drop_last());
        assert((a + b).last() == b.last());
        numbers_are_kept_in_order(a, b.drop_last(), bits);
        assert(numbers(a + b) =~= numbers(a) + numbers(b));
    }
}

/// A voice of a file has the description, the text and the codes that its members give; without a
/// description it is described by its identifier, without a text it has no transcript, and without
/// codes it has none.
pub proof fn a_voice_has_what_its_members_give(
    id: Seq<char>,
    entry: json::JsonView,
    t: Seq<char>,
    l: Seq<json::JsonView>,
)
    ensures
        preset_of(id, entry).id == id,
        json::field(entry, "description"@) == Some(json::JsonView::Text(t)) ==> preset_of(
            id,
            entry,
        ).description == t,
        !(json::field(entry, "description"@) matches Some(json::JsonView::Text(_))) ==> preset_of(
            id,
            entry,
        ).description == id,
        json::field(entry, "text"@) == Some(json::JsonView::Text(t)) ==> preset_of(
            id,
            entry,
        ).transcript == Some(t),
        !(json::field(entry, "text"@) matches Some(json::JsonView::Text(_))) ==> preset_of(
            id,
            entry,
        ).transcript is None,
        json::field(entry, "codes"@) == Some(json::JsonView::List(l)) ==> preset_of(id, entry).codes
            == numbers(l),
        !(json::field(entry, "codes"@) matches Some(json::JsonView::List(_))) ==> preset_of(
            id,
            entry,
        ).codes.len() == 0,
{
}

/// Every member of `presets` is a voice, in their order and under their names, and a file without
/// such an object has none.
pub proof fn every_member_is_a_voice(
    file: json::JsonView,
    o: Seq<(Seq<char>, json::JsonView)>,
    i: int,
)
    ensures
        json::field(file, "presets"@) == Some(json::JsonView::Object(o)) ==> presets_of(file).len()
            == o.len(),
        json::field(file, "presets"@) == Some(json::JsonView::Object(o)) && 0 <= i < o.len()
            ==> presets_of(file)[i] == preset_of(o[i].0, o[i].1),
        !(json::field(file, "presets"@) matches Some(json::JsonView::Object(_))) ==> presets_of(
            file,
        ).len() == 0,
{
}

} // verus!
