use print_util::base_voices::{load_base_voices, read_presets};
use print_util::error::ApiError;
use print_util::json::{parse, Json};
use print_util::patterns::validate_voice_id;
use print_util::store::VoiceStore;
use print_util::voice::{
    BaseVoice, CustomVoiceEntry, CustomVoiceFile, Embedding, NewVoiceInput, VoiceSource,
};
use print_util::voice_form::{field_of, is_yes_word, unreadable, VoiceField, VoiceForm};

fn filled(value: f32) -> Embedding {
    Embedding::from_bits(vec![value.to_bits(); 128]).expect("128 values")
}

fn base(id: &str) -> BaseVoice {
    BaseVoice {
        id: id.to_string(),
        description: format!("About {id}"),
        embedding: filled(0.1),
        transcript: Some("a".to_string()),
    }
}

fn entry(id: &str) -> CustomVoiceEntry {
    CustomVoiceEntry {
        id: id.to_string(),
        description: format!("Custom {id}"),
        transcript: "xin chao".to_string(),
        embedding: filled(0.4),
    }
}

fn new_voice(id: &str, set_default: bool) -> NewVoiceInput {
    NewVoiceInput {
        id: id.to_string(),
        description: "New".to_string(),
        transcript: "t".to_string(),
        embedding: filled(0.5),
        set_default,
    }
}

fn ids(store: &VoiceStore) -> Vec<String> {
    store.list().into_iter().map(|i| i.id).collect()
}

#[test]
fn voice_store_merge_and_delete_default() {
    let codes = |v: f32| {
        let one = f64::from(v).to_string();
        vec![one.as_str(); 128].join(",")
    };
    let raw = format!(
        r#"{{"default_voice": "base_a", "presets": {{
            "base_a": {{"description": "Base A", "text": "a", "codes": [{}]}},
            "base_b": {{"description": "Base B", "text": "b", "codes": [{}]}}}}}}"#,
        codes(0.1),
        codes(0.2)
    );
    let mut base = Vec::new();
    for p in load_base_voices(Some(&raw)).expect("write base") {
        let bits = p.codes.iter().map(|b| (f64::from_bits(*b) as f32).to_bits()).collect();
        base.push(BaseVoice {
            id: p.id,
            description: p.description,
            embedding: Embedding::from_bits(bits).expect("128 codes"),
            transcript: p.transcript,
        });
    }
    let custom = CustomVoiceFile {
        default_voice: Some("custom_a".to_string()),
        voices: vec![CustomVoiceEntry {
            id: "custom_a".to_string(),
            description: "Custom A".to_string(),
            transcript: "xin chao".to_string(),
            embedding: filled(0.4),
        }],
    };

    let mut store = VoiceStore::load(&base, &custom);
    assert_eq!(store.default_voice(), "custom_a");
    assert_eq!(store.list().len(), 3);
    store.delete_custom_voice("custom_a").expect("delete custom");
    assert_ne!(store.default_voice(), "custom_a");
    assert_eq!(store.default_voice(), "base_a");
    assert_eq!(*store.resolve_voice(Some("base_b")).unwrap().embedding.values(), vec![
        0.2_f32.to_bits();
        128
    ]);
}

#[test]
fn a_store_without_base_voices_has_a_fallback() {
    let none = CustomVoiceFile { default_voice: None, voices: vec![] };
    let store = VoiceStore::load(&vec![], &none);
    assert_eq!(store.default_voice(), "default_voice");
    let v = store.resolve_voice(None).unwrap();
    assert_eq!(v.description, "Fallback default voice");
    assert_eq!(v.transcript.as_deref(), Some("xin chao"));
    assert_eq!(v.source, VoiceSource::Base);
    assert_eq!(*v.embedding.values(), vec![0_u32; 128]);
    let empty = VoiceStore::empty();
    assert_eq!(empty.list().len(), 0);
    let e = empty.resolve_voice(None).unwrap_err();
    assert_eq!(e.message(), "voice 'default_voice' not found");
    assert_eq!(e.code(), "bad_request");
}

#[test]
fn custom_voices_do_not_replace_base_voices() {
    let file = CustomVoiceFile {
        default_voice: Some("nobody".to_string()),
        voices: vec![entry("b"), entry("z"), entry("z")],
    };
    let store = VoiceStore::load(&vec![base("b"), base("a")], &file);
    assert_eq!(ids(&store), vec!["a", "b", "z"]);
    assert_eq!(store.default_voice(), "a");
    assert_eq!(store.resolve_voice(Some("b")).unwrap().source, VoiceSource::Base);
    assert_eq!(store.resolve_voice(Some("b")).unwrap().description, "About b");
    let flags: Vec<bool> = store.list().into_iter().map(|i| i.is_default).collect();
    assert_eq!(flags, vec![true, false, false]);
    assert_eq!(store.resolve_voice(Some("y")).unwrap_err().message(), "voice 'y' not found");
}

#[test]
fn adding_and_deleting_voices() {
    let none = CustomVoiceFile { default_voice: None, voices: vec![] };
    let mut store = VoiceStore::load(&vec![base("m")], &none);
    store.add_custom_voice(new_voice("a", true)).unwrap();
    assert_eq!(store.default_voice(), "a");
    store.add_custom_voice(new_voice("n", false)).unwrap();
    assert_eq!(ids(&store), vec!["a", "m", "n"]);
    let e = store.add_custom_voice(new_voice("m", true)).unwrap_err();
    assert_eq!((e.code(), e.status()), ("conflict", 409));
    assert_eq!(e.message(), "voice 'm' already exists");
    assert_eq!(store.default_voice(), "a");
    let e = store.delete_custom_voice("m").unwrap_err();
    assert_eq!((e.code(), e.status()), ("not_found", 404));
    assert_eq!(e.message(), "custom voice 'm' not found");
    assert_eq!(store.delete_custom_voice("q").unwrap_err().message(), "custom voice 'q' not found");
    store.delete_custom_voice("a").unwrap();
    assert_eq!(store.default_voice(), "m");
    assert_eq!(ids(&store), vec!["m", "n"]);
}

#[test]
fn loading_what_was_written() {
    let base_voices = vec![base("m")];
    let none = CustomVoiceFile { default_voice: None, voices: vec![] };
    let mut store = VoiceStore::load(&base_voices, &none);
    store.add_custom_voice(new_voice("x", false)).unwrap();
    store.add_custom_voice(new_voice("c", true)).unwrap();
    let file = store.custom_file();
    assert_eq!(file.default_voice.as_deref(), Some("c"));
    let names: Vec<&str> = file.voices.iter().map(|v| v.id.as_str()).collect();
    assert_eq!(names, vec!["c", "x"]);
    let again = VoiceStore::load(&base_voices, &file);
    assert_eq!(ids(&again), ids(&store));
    assert_eq!(again.default_voice(), "c");
    let v = again.resolve_voice(Some("x")).unwrap();
    assert_eq!((v.description.as_str(), v.transcript.as_deref()), ("New", Some("t")));
    assert_eq!(*v.embedding.values(), vec![0.5_f32.to_bits(); 128]);
}

#[test]
fn identifiers_of_voices() {
    for id in ["a", "9", "A.b_c-d", &"x".repeat(64)] {
        assert!(validate_voice_id(id).is_ok());
    }
    for id in ["", ".a", "-a", "_a", "a b", "à", "a\n", &"x".repeat(65)] {
        let e = validate_voice_id(id).unwrap_err();
        assert_eq!(e.code(), "bad_request");
        assert_eq!(e.message(), format!("invalid voice id '{id}'"));
    }
}

#[test]
fn presets_of_a_file() {
    assert!(load_base_voices(None).unwrap().is_empty());
    let raw = r#"{"presets": {
        "b": {"codes": [1, 0.5, "x", null, -2]},
        "a": {"description": "D", "text": 7, "codes": 3},
        "c": 5}}"#;
    let p = load_base_voices(Some(raw)).unwrap();
    let names: Vec<&str> = p.iter().map(|v| v.id.as_str()).collect();
    assert_eq!(names, vec!["a", "b", "c"]);
    assert_eq!((p[0].description.as_str(), p[0].transcript.is_none()), ("D", true));
    assert_eq!(p[0].codes.len(), 0);
    assert_eq!(p[1].description, "b");
    let codes: Vec<f64> = p[1].codes.iter().map(|b| f64::from_bits(*b)).collect();
    assert_eq!(codes, vec![1.0, 0.5, -2.0]);
    assert_eq!(p[2].description, "c");
    assert!(load_base_voices(Some("[]")).unwrap().is_empty());
    let e = load_base_voices(Some("{")).err().unwrap();
    assert_eq!(e.code(), "internal_error");
    assert!(e.message().starts_with("invalid base voices json: EOF"));
}

#[test]
fn json_values() {
    let j = parse(r#"{"k": [true, null, "s", 2.5], "k2": {}}"#).unwrap();
    match j.get("k") {
        Some(Json::List(v)) => {
            assert!(matches!(v[0], Json::Bool(true)));
            assert!(matches!(v[1], Json::Null));
            assert!(matches!(&v[2], Json::Text(t) if t == "s"));
            assert!(matches!(v[3], Json::Number(Some(b)) if f64::from_bits(b) == 2.5));
        }
        _ => panic!("no list"),
    }
    assert!(matches!(j.get("k2"), Some(Json::Object(o)) if o.is_empty()));
    assert!(j.get("k3").is_none());
    assert!(Json::Null.get("k").is_none());
    assert!(read_presets(&Json::Null).is_empty());
}

fn message(e: ApiError) -> String {
    assert_eq!(e.code(), "bad_request");
    e.message()
}

#[test]
fn fields_of_the_voice_form() {
    assert_eq!(field_of("name"), VoiceField::Name);
    assert_eq!(field_of("transcript"), VoiceField::Transcript);
    assert_eq!(field_of("description"), VoiceField::Description);
    assert_eq!(field_of("set_default"), VoiceField::SetDefault);
    assert_eq!(field_of("sample"), VoiceField::Sample);
    assert_eq!(field_of("Name"), VoiceField::Other);
    assert_eq!(message(unreadable(VoiceField::Name, "e")), "failed to read name: e");
    assert_eq!(message(unreadable(VoiceField::Transcript, "e")), "failed to read transcript: e");
    assert_eq!(message(unreadable(VoiceField::Description, "e")), "failed to read description: e");
    assert_eq!(message(unreadable(VoiceField::SetDefault, "e")), "failed to read set_default: e");
    assert_eq!(message(unreadable(VoiceField::Sample, "e")), "failed to read sample audio: e");
    assert_eq!(message(unreadable(VoiceField::Other, "e")), "invalid multipart payload: e");
    assert!(is_yes_word("1") && is_yes_word("true") && is_yes_word("yes"));
    assert!(!is_yes_word("YES") && !is_yes_word("no") && !is_yes_word(""));
}

#[test]
fn a_complete_voice_form() {
    let mut f = VoiceForm::new();
    f.take_text(VoiceField::Name, " v1 ");
    f.take_text(VoiceField::Transcript, "\txin chao\n");
    f.take_text(VoiceField::SetDefault, " YES ");
    f.take_text(VoiceField::Other, "x");
    f.take_sample(Some("s.wav".to_string()), vec![1, 2]).unwrap();
    let u = f.finish().unwrap();
    assert_eq!((u.id.as_str(), u.transcript.as_str()), ("v1", "xin chao"));
    assert_eq!(u.description, "Custom voice v1");
    assert_eq!((u.sample.clone(), u.sample_name.as_deref()), (vec![1, 2], Some("s.wav")));
    assert!(u.set_default);
    let v = u.with_embedding(filled(0.25));
    assert_eq!((v.id.as_str(), v.description.as_str()), ("v1", "Custom voice v1"));
    assert_eq!((v.transcript.as_str(), v.set_default), ("xin chao", true));
    assert_eq!(*v.embedding.values(), vec![0.25_f32.to_bits(); 128]);
}

#[test]
fn voice_forms_that_are_refused() {
    let f = VoiceForm::new();
    assert_eq!(message(f.finish().err().unwrap()), "missing required field 'name'");
    let mut f = VoiceForm::new();
    f.take_text(VoiceField::Name, "?");
    assert_eq!(message(f.finish().err().unwrap()), "invalid voice id '?'");
    let mut f = VoiceForm::new();
    f.take_text(VoiceField::Name, "a");
    f.take_text(VoiceField::Transcript, "   ");
    assert_eq!(message(f.finish().err().unwrap()), "missing required field 'transcript'");
    let mut f = VoiceForm::new();
    f.take_text(VoiceField::Name, "a");
    f.take_text(VoiceField::Transcript, "t");
    f.take_text(VoiceField::Description, " d ");
    f.take_text(VoiceField::SetDefault, "0");
    let e = f.take_sample(None, vec![0; 15 * 1024 * 1024 + 1]).unwrap_err();
    assert_eq!(message(e), "sample is too large (max 15 MB)");
    assert_eq!(message(f.finish().err().unwrap()), "missing required field 'sample'");
    let mut f = VoiceForm::new();
    f.take_text(VoiceField::Name, "a");
    f.take_text(VoiceField::Transcript, "t");
    f.take_text(VoiceField::Description, " d ");
    f.take_sample(None, vec![0; 15 * 1024 * 1024]).unwrap();
    let u = f.finish().unwrap();
    assert_eq!((u.description.as_str(), u.set_default), ("d", false));
}
