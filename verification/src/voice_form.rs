//! The form by which a user adds a voice.
use crate::error;
use crate::error::{ApiError, ErrorKind};
use crate::patterns;
use crate::text;
use crate::unicode;
use crate::voice;
use crate::voice::{Embedding, NewVoiceInput};
use vstd::prelude::*;
use vstd::string::*;

verus! {

/// The most bytes of a sample.
pub const MAX_SAMPLE_BYTES: usize = 15728640;

/// The fields of the form.
#[derive(Clone, Copy, Debug, PartialEq, Eq, Structural)]
pub enum VoiceField {
    Name,
    Transcript,
    Description,
    SetDefault,
    Sample,
    Other,
}

/// The field with this name.
pub open spec fn field_named(key: Seq<char>) -> VoiceField {
    if key == "name"@ {
        VoiceField::Name
    } else if key == "transcript"@ {
        VoiceField::Transcript
    } else if key == "description"@ {
        VoiceField::Description
    } else if key == "set_default"@ {
        VoiceField::SetDefault
    } else if key == "sample"@ {
        VoiceField::Sample
    } else {
        VoiceField::Other
    }
}

/// What comes before the cause when a text field cannot be read.
pub open spec fn read_failure(field: VoiceField) -> Seq<char> {
    match field {
        VoiceField::Name => "failed to read name: "@,
        VoiceField::Transcript => "failed to read transcript: "@,
        VoiceField::Description => "failed to read description: "@,
        VoiceField::SetDefault => "failed to read set_default: "@,
        VoiceField::Sample => "failed to read sample audio: "@,
        VoiceField::Other => "invalid multipart payload: "@,
    }
}

/// The word means yes.
pub open spec fn yes_word(s: Seq<char>) -> bool {
    s == "1"@ || s == "true"@ || s == "yes"@
}

/// The text means yes, whatever its case and the white space around it.
pub open spec fn means_yes(s: Seq<char>) -> bool {
    yes_word(unicode::lowercase(text::trimmed(s)))
}

/// The form as far as it was read.
pub struct VoiceForm {
    name: Option<String>,
    transcript: Option<String>,
    sample: Option<Vec<u8>>,
    sample_name: Option<String>,
    description: Option<String>,
    set_default: bool,
}

/// The model of the form.
pub struct FormView {
    pub name: Option<Seq<char>>,
    pub transcript: Option<Seq<char>>,
    pub sample: Option<Seq<u8>>,
    pub sample_name: Option<Seq<char>>,
    pub description: Option<Seq<char>>,
    pub set_default: bool,
}

/// A complete form.
pub struct VoiceUpload {
    pub id: String,
    pub transcript: String,
    pub sample: Vec<u8>,
    pub sample_name: Option<String>,
    pub description: String,
    pub set_default: bool,
}

/// The bytes of an optional vector.
pub open spec fn opt_bytes(o: Option<Vec<u8>>) -> Option<Seq<u8>> {
    match o {
        Some(v) => Some(v@),
        None => None,
    }
}

/// The form after a text field was read.
pub open spec fn with_text(f: FormView, field: VoiceField, value: Seq<char>) -> FormView {
    let t = text::trimmed(value);
    match field {
        VoiceField::Name => FormView { name: Some(t), ..f },
        VoiceField::Transcript => FormView { transcript: Some(t), ..f },
        VoiceField::Description => FormView { description: Some(t), ..f },
        VoiceField::SetDefault => FormView { set_default: means_yes(value), ..f },
        VoiceField::Sample => f,
        VoiceField::Other => f,
    }
}

/// The field with this name.
pub fn field_of(key: &str) -> (r: VoiceField)
    ensures
        r == field_named(key@),
{
    if text::same(key, "name") {
        VoiceField::Name
    } else if text::same(key, "transcript") {
        VoiceField::Transcript
    } else if text::same(key, "description") {
        VoiceField::Description
    } else if text::same(key, "set_default") {
        VoiceField::SetDefault
    } else if text::same(key, "sample") {
        VoiceField::Sample
    } else {
        VoiceField::Other
    }
}

/// The refusal of a form of which a field, or for `Other` the frame around the fields, could not be
/// read.
pub fn unreadable(field: VoiceField, cause: &str) -> (r: ApiError)
    ensures
        r.says(ErrorKind::BadRequest, read_failure(field) + cause@),
{
    let what: &str = match field {
        VoiceField::Name => "failed to read name: ",
        VoiceField::Transcript => "failed to read transcript: ",
        VoiceField::Description => "failed to read description: ",
        VoiceField::SetDefault => "failed to read set_default: ",
        VoiceField::Sample => "failed to read sample audio: ",
        VoiceField::Other => "invalid multipart payload: ",
    };
    ApiError::BadRequest(text::concat2(what, cause))
}

/// Whether a word in lower case means yes.
pub fn is_yes_word(s: &str) -> (r: bool)
    ensures
        r == yes_word(s@),
{
    text::same(s, "1") || text::same(s, "true") || text::same(s, "yes")
}

impl View for VoiceForm {
    type V = FormView;

    closed spec fn view(&self) -> FormView {
        FormView {
            name: text::opt_text(self.name),
            transcript: text::opt_text(self.transcript),
            sample: opt_bytes(self.sample),
            sample_name: text::opt_text(self.sample_name),
            description: text::opt_text(self.description),
            set_default: self.set_default,
        }
    }
}

impl VoiceForm {
    /// The form of which nothing was read.
    pub fn new() -> (r: VoiceForm)
        ensures
            r@ == (FormView {
                name: None,
                transcript: None,
                sample: None,
                sample_name: None,
                description: None,
                set_default: false,
            }),
    {
        VoiceForm {
            name: None,
            transcript: None,
            sample: None,
            sample_name: None,
            description: None,
            set_default: false,
        }
    }

    /// Takes the text of a field. A later field with a name takes the place of an earlier one.
    pub fn take_text(&mut self, field: VoiceField, value: &str)
        ensures
            final(self)@ == with_text(old(self)@, field, value@),
            field == VoiceField::SetDefault ==> (final(self)@.set_default <==> {
                ||| unicode::lowercase(text::trimmed(value@)) == "1"@
                ||| unicode::lowercase(text::trimmed(value@)) == "true"@
                ||| unicode::lowercase(text::trimmed(value@)) == "yes"@
            }),
            field != VoiceField::SetDefault ==> final(self)@.set_default == old(self)@.set_default,
    {
        let t = text::trim(value);
        match field {
            VoiceField::Name => {
                self.name = Some(t);
            },
            VoiceField::Transcript => {
                self.transcript = Some(t);
            },
            VoiceField::Description => {
                self.description = Some(t);
            },
            VoiceField::SetDefault => {
                let lower = t.as_str().to_lowercase();
                self.set_default = is_yes_word(lower.as_str());
            },
            VoiceField::Sample => {},
            VoiceField::Other => {},
        }
    }

    /// Takes the sample, unless it is too large.
    pub fn take_sample(&mut self, file_name: Option<String>, bytes: Vec<u8>) -> (r: Result<
        (),
        ApiError,
    >)
        ensures
            match r {
                Ok(_) => bytes@.len() <= MAX_SAMPLE_BYTES && final(self)@ == (FormView {
                    sample: Some(bytes@),
                    sample_name: text::opt_text(file_name),
                    ..old(self)@
                }),
                Err(e) => bytes@.len() > MAX_SAMPLE_BYTES && final(self)@ == old(self)@ && e.says(
                    ErrorKind::BadRequest,
                    "sample is too large (max 15 MB)"@,
                ),
            },
    {
        if bytes.len() > MAX_SAMPLE_BYTES {
            return Err(error::bad_request("sample is too large (max 15 MB)"));
        }
        self.sample_name = file_name;
        self.sample = Some(bytes);
        Ok(())
    }

    /// The complete form. The name, the transcript and the sample are checked in this order.
    pub fn finish(self) -> (r: Result<VoiceUpload, ApiError>)
        ensures
            match self@.name {
                None => r matches Err(e) && e.says(
                    ErrorKind::BadRequest,
                    "missing required field 'name'"@,
                ),
                Some(id) => if !patterns::voice_id(id) {
                    r matches Err(e) && e.says(
                        ErrorKind::BadRequest,
                        "invalid voice id '"@ + id + "'"@,
                    )
                } else if self@.transcript is None || self@.transcript->0.len() == 0 {
                    r matches Err(e) && e.says(
                        ErrorKind::BadRequest,
                        "missing required field 'transcript'"@,
                    )
                } else if self@.sample is None {
                    r matches Err(e) && e.says(
                        ErrorKind::BadRequest,
                        "missing required field 'sample'"@,
                    )
                } else {
                    r matches Ok(u) && u.id@ == id && u.transcript@ == self@.transcript->0
                        && u.sample@ == self@.sample->0 && text::opt_text(u.sample_name)
                        == self@.sample_name && u.set_default == self@.set_default && u.description@
                        == match self@.description {
                        Some(d) => d,
                        None => "Custom voice "@ + id,
                    }
                },
            },
    {
        let id = match self.name {
            Some(n) => n,
            None => {
                return Err(error::bad_request("missing required field 'name'"));
            },
        };
        match patterns::validate_voice_id(id.as_str()) {
            Ok(_) => {},
            Err(e) => {
                return Err(e);
            },
        }
        let transcript = match self.transcript {
            Some(t) => t,
            None => {
                return Err(error::bad_request("missing required field 'transcript'"));
            },
        };
        if transcript.as_str().is_empty() {
            return Err(error::bad_request("missing required field 'transcript'"));
        }
        let sample = match self.sample {
            Some(s) => s,
            None => {
                return Err(error::bad_request("missing required field 'sample'"));
            },
        };
        let description = match self.description {
            Some(d) => d,
            None => text::concat2("Custom voice ", id.as_str()),
        };
        Ok(
            VoiceUpload {
                id,
                transcript,
                sample,
                sample_name: self.sample_name,
                description,
                set_default: self.set_default,
            },
        )
    }
}

impl VoiceUpload {
    /// The voice to be added, once its embedding is known.
    pub fn with_embedding(self, embedding: Embedding) -> (r: NewVoiceInput)
        ensures
            r@ == (voice::NewVoiceView {
                entry: voice::EntryView {
                    id: self.id@,
                    description: self.description@,
                    transcript: self.transcript@,
                    embedding: embedding@,
                },
                set_default: self.set_default,
            }),
    {
        NewVoiceInput {
            id: self.id,
            description: self.description,
            transcript: self.transcript,
            embedding,
            set_default: self.set_default,
        }
    }
}

/// A voice is made the default exactly if the text of the field, without the white space around it
/// and in lower case, is one of three words; any other text, such as a word that means no or the
/// empty one, takes an earlier yes back.
pub proof fn three_words_make_a_voice_the_default(f: FormView, s: Seq<char>)
    ensures
        with_text(f, VoiceField::SetDefault, s).set_default <==> {
            ||| unicode::lowercase(text::trimmed(s)) == "1"@
            ||| unicode::lowercase(text::trimmed(s)) == "true"@
            ||| unicode::lowercase(text::trimmed(s)) == "yes"@
        },
        ({
            ||| unicode::lowercase(text::trimmed(s)) == "0"@
            ||| unicode::lowercase(text::trimmed(s)) == "false"@
            ||| unicode::lowercase(text::trimmed(s)) == "no"@
            ||| unicode::lowercase(text::trimmed(s)) == ""@
        }) ==> !with_text(f, VoiceField::SetDefault, s).set_default,
        with_text(f, VoiceField::SetDefault, s) == (FormView {
            set_default: with_text(f, VoiceField::SetDefault, s).set_default,
            ..f
        }),
{
    reveal_strlit("1");
    reveal_strlit("true");
    reveal_strlit("yes");
    reveal_strlit("0");
    reveal_strlit("false");
    reveal_strlit("no");
    reveal_strlit("");
    assert("1"@.len() == 1 && "true"@.len() == 4 && "yes"@.len() == 3);
    assert("0"@.len() == 1 && "false"@.len() == 5 && "no"@.len() == 2 && ""@.len() == 0);
    assert("1"@[0] == '1' && "0"@[0] == '0');
}

/// White space around a text does not change whether it means yes.
pub proof fn white_space_does_not_change_a_yes(
    f: FormView,
    p: Seq<char>,
    v: Seq<char>,
    q: Seq<char>,
)
    requires
        text::blank(p),
        text::blank(q),
        text::bare(v),
    ensures
        with_text(f, VoiceField::SetDefault, p + v + q).set_default <==> {
            ||| unicode::lowercase(v) == "1"@
            ||| unicode::lowercase(v) == "true"@
            ||| unicode::lowercase(v) == "yes"@
        },
{
    text::trimming_keeps_what_is_inside(p, v, q);
}

/// The name, the transcript and the description are taken as they are written, with all the white
/// space inside them, and only the white space around them is dropped; nothing else of the form
/// changes.
pub proof fn texts_are_taken_as_written(f: FormView, p: Seq<char>, v: Seq<char>, q: Seq<char>)
    requires
        text::blank(p),
        text::blank(q),
        text::bare(v),
    ensures
        with_text(f, VoiceField::Name, p + v + q) == (FormView { name: Some(v), ..f }),
        with_text(f, VoiceField::Transcript, p + v + q) == (FormView { transcript: Some(v), ..f }),
        with_text(f, VoiceField::Description, p + v + q) == (FormView {
            description: Some(v),
            ..f
        }),
        with_text(f, VoiceField::Sample, p + v + q) == f,
        with_text(f, VoiceField::Other, p + v + q) == f,
{
    text::trimming_keeps_what_is_inside(p, v, q);
}

/// The form has the fields that are named here; no other name is one of them.
pub proof fn the_fields_of_the_form(key: Seq<char>)
    ensures
        field_named(key) == VoiceField::Name <==> key == "name"@,
        field_named(key) == VoiceField::Transcript <==> key == "transcript"@,
        field_named(key) == VoiceField::Description <==> key == "description"@,
        field_named(key) == VoiceField::SetDefault <==> key == "set_default"@,
        field_named(key) == VoiceField::Sample <==> key == "sample"@,
{
    reveal_strlit("name");
    reveal_strlit("transcript");
    reveal_strlit("description");
    reveal_strlit("set_default");
    reveal_strlit("sample");
    assert("name"@[0] == 'n' && "transcript"@[0] == 't' && "description"@[0] == 'd');
    assert("set_default"@[1] == 'e' && "sample"@[1] == 'a');
    assert("set_default"@[0] == 's' && "sample"@[0] == 's');
}

} // verus!
