//! The files of the speech service and where they are looked for.
use crate::place;
use crate::place::{Place, Root};
use crate::text;
use vstd::prelude::*;
use vstd::string::*;

verus! {

/// The language model.
pub const GGUF_MODEL: &'static str = "vieneu-tts-v2-turbo.gguf";

/// The decoder from speech tokens to sound.
pub const DECODER_ONNX: &'static str = "vieneu_decoder_int8.onnx";

/// The encoder from sound to an embedding.
pub const ENCODER_ONNX: &'static str = "vieneu_encoder.onnx";

/// The dictionary of pronunciations.
pub const SEA_G2P_BIN: &'static str = "sea_g2p.bin";

/// The file of custom voices.
pub const CUSTOM_VOICES: &'static str = "voices.custom.json";

/// The library that runs the decoder and the encoder.
pub const ONNX_RUNTIME: &'static str = "onnxruntime.dll";

/// The places where the directory of the speech files may be, in order. The first four exist only
/// if the user or the system names their root.
pub open spec fn tts_places(
    explicit: bool,
    local: bool,
    public: bool,
    program: bool,
) -> Seq<place::PlaceView> {
    let none = Seq::<place::PlaceView>::empty();
    (if explicit {
        seq![place::PlaceView { root: Root::Explicit, steps: seq![] }]
    } else {
        none
    }) + (if local {
        seq![place::PlaceView { root: Root::LocalAppData, steps: seq!["print-util"@, "tts"@] }]
    } else {
        none
    }) + (if public {
        seq![
            place::PlaceView {
                root: Root::Public,
                steps: seq!["Documents"@, "print-util"@, "tts"@],
            },
        ]
    } else {
        none
    }) + (if program {
        seq![place::PlaceView { root: Root::ProgramData, steps: seq!["print-util"@, "tts"@] }]
    } else {
        none
    }) + seq![
        place::PlaceView { root: Root::ExeDir, steps: seq!["tts"@] },
        place::PlaceView { root: Root::Bare, steps: seq!["tts"@] },
    ]
}

/// The places where the directory of the speech files may be, in order.
pub fn tts_candidates(explicit: bool, local: bool, public: bool, program: bool) -> (r: Vec<Place>)
    ensures
        place::places(r@) == tts_places(explicit, local, public, program),
{
    let mut r: Vec<Place> = Vec::new();
    assert(place::places(r@) =~= seq![]);
    if explicit {
        place::add_place(&mut r, place::place0(Root::Explicit));
    }
    if local {
        place::add_place(&mut r, place::place2(Root::LocalAppData, "print-util", "tts"));
    }
    if public {
        place::add_place(&mut r, place::place3(Root::Public, "Documents", "print-util", "tts"));
    }
    if program {
        place::add_place(&mut r, place::place2(Root::ProgramData, "print-util", "tts"));
    }
    place::add_place(&mut r, place::place1(Root::ExeDir, "tts"));
    place::add_place(&mut r, place::place1(Root::Bare, "tts"));
    assert(place::places(r@) =~= tts_places(explicit, local, public, program));
    r
}

/// The directory of the speech files: the first of the candidates that exists, or the one beside
/// the program if none does.
pub fn tts_dir(candidates: &Vec<Place>, present: &Vec<bool>) -> (r: Place)
    requires
        candidates@.len() == present@.len(),
    ensures
        forall|i: int| place::is_first(present@, i) ==> r@ == (#[trigger] candidates@[i])@,
        (forall|i: int| 0 <= i < present@.len() ==> !present@[i]) ==> r@ == (place::PlaceView {
            root: Root::ExeDir,
            steps: seq!["tts"@],
        }),
{
    match place::first_present(present) {
        Some(k) => {
            proof {
                assert forall|i: int| place::is_first(present@, i) implies i == k by {
                    place::first_is_unique(present@, i, k as int);
                }
            }
            candidates[k].duplicate()
        },
        None => place::place1(Root::ExeDir, "tts"),
    }
}

/// The name of the file of base voices: the newer name if there is such a file.
pub fn base_voices_name(newer_exists: bool) -> (r: &'static str)
    ensures
        r@ == if newer_exists {
            "voices.base.json"@
        } else {
            "voices.json"@
        },
{
    if newer_exists {
        "voices.base.json"
    } else {
        "voices.json"
    }
}

/// A file: how its path is shown, and whether it is there.
#[derive(Debug)]
pub struct AssetFile {
    pub path: String,
    pub present: bool,
}

/// The files of the speech service.
#[derive(Debug)]
pub struct AssetPaths {
    pub gguf_model: AssetFile,
    pub decoder_onnx: AssetFile,
    pub encoder_onnx: AssetFile,
    pub base_voices: AssetFile,
}

/// The path of a file that is not there.
pub open spec fn absent(f: AssetFile) -> Seq<Seq<char>> {
    if f.present {
        seq![]
    } else {
        seq![f.path@]
    }
}

impl AssetPaths {
    /// The paths of the files that the service cannot do without and that are not there.
    pub fn missing_core_assets(&self) -> (r: Vec<String>)
        ensures
            text::texts(r@) == absent(self.gguf_model) + absent(self.decoder_onnx) + absent(
                self.encoder_onnx,
            ) + absent(self.base_voices),
    {
        let mut r: Vec<String> = Vec::new();
        assert(text::texts(r@) =~= seq![]);
        add_absent(&mut r, &self.gguf_model);
        add_absent(&mut r, &self.decoder_onnx);
        add_absent(&mut r, &self.encoder_onnx);
        add_absent(&mut r, &self.base_voices);
        assert(text::texts(r@) =~= absent(self.gguf_model) + absent(self.decoder_onnx) + absent(
            self.encoder_onnx,
        ) + absent(self.base_voices));
        r
    }
}

/// Adds the path of a file that is not there.
fn add_absent(row: &mut Vec<String>, f: &AssetFile)
    ensures
        text::texts(final(row)@) == text::texts(old(row)@) + absent(*f),
{
    if !f.present {
        row.push(f.path.clone());
    }
    assert(text::texts(row@) =~= text::texts(old(row)@) + absent(*f));
}

/// The places where the library for the decoder and the encoder may be, in order.
pub open spec fn dylib_places(exe_known: bool) -> Seq<place::PlaceView> {
    seq![place::PlaceView { root: Root::TtsDir, steps: seq![ONNX_RUNTIME@] }] + (if exe_known {
        seq![place::PlaceView { root: Root::ExeDir, steps: seq![ONNX_RUNTIME@] }]
    } else {
        seq![]
    }) + seq![place::PlaceView { root: Root::Bare, steps: seq![ONNX_RUNTIME@] }]
}

/// The places where the library for the decoder and the encoder may be, in order; none if the user
/// has set one.
pub fn dylib_candidates(set: bool, exe_known: bool) -> (r: Vec<Place>)
    ensures
        place::places(r@) == if set {
            seq![]
        } else {
            dylib_places(exe_known)
        },
{
    let mut r: Vec<Place> = Vec::new();
    assert(place::places(r@) =~= seq![]);
    if !set {
        place::add_place(&mut r, place::place1(Root::TtsDir, ONNX_RUNTIME));
        if exe_known {
            place::add_place(&mut r, place::place1(Root::ExeDir, ONNX_RUNTIME));
        }
        place::add_place(&mut r, place::place1(Root::Bare, ONNX_RUNTIME));
        assert(place::places(r@) =~= dylib_places(exe_known));
    }
    r
}

/// There is always a place to look, and the one that the user names comes first.
pub proof fn the_named_place_comes_first(local: bool, public: bool, program: bool)
    ensures
        tts_places(true, local, public, program)[0].root == Root::Explicit,
        tts_places(false, local, public, program).len() >= 2,
{
}

/// The directory of the speech files is looked for where the user says, then below the directory of
/// the user, that for all users and that of the machine, as far as these are known, and always
/// beside the program and where it was started.
pub proof fn where_the_speech_files_are_looked_for(local: bool, public: bool, program: bool)
    ensures
        tts_places(true, local, public, program) == seq![
            place::PlaceView { root: Root::Explicit, steps: seq![] },
        ] + tts_places(false, local, public, program),
        tts_places(false, true, public, program) == seq![
            place::PlaceView { root: Root::LocalAppData, steps: seq!["print-util"@, "tts"@] },
        ] + tts_places(false, false, public, program),
        tts_places(false, false, true, program) == seq![
            place::PlaceView {
                root: Root::Public,
                steps: seq!["Documents"@, "print-util"@, "tts"@],
            },
        ] + tts_places(false, false, false, program),
        tts_places(false, false, false, true) == seq![
            place::PlaceView { root: Root::ProgramData, steps: seq!["print-util"@, "tts"@] },
        ] + tts_places(false, false, false, false),
        tts_places(false, false, false, false) == seq![
            place::PlaceView { root: Root::ExeDir, steps: seq!["tts"@] },
            place::PlaceView { root: Root::Bare, steps: seq!["tts"@] },
        ],
{
    assert(tts_places(false, false, false, false) =~= seq![
        place::PlaceView { root: Root::ExeDir, steps: seq!["tts"@] },
        place::PlaceView { root: Root::Bare, steps: seq!["tts"@] },
    ]);
    assert(tts_places(false, false, false, true) =~= seq![
        place::PlaceView { root: Root::ProgramData, steps: seq!["print-util"@, "tts"@] },
    ] + tts_places(false, false, false, false));
    assert(tts_places(false, false, true, program) =~= seq![
        place::PlaceView { root: Root::Public, steps: seq!["Documents"@, "print-util"@, "tts"@] },
    ] + tts_places(false, false, false, program));
    assert(tts_places(false, true, public, program) =~= seq![
        place::PlaceView { root: Root::LocalAppData, steps: seq!["print-util"@, "tts"@] },
    ] + tts_places(false, false, public, program));
    assert(tts_places(true, local, public, program) =~= seq![
        place::PlaceView { root: Root::Explicit, steps: seq![] },
    ] + tts_places(false, local, public, program));
}

/// The library is looked for among the speech files first and where the program was started last,
/// and between the two beside the program, if its directory is known.
pub proof fn where_the_library_is_looked_for()
    ensures
        dylib_places(false) == seq![
            place::PlaceView { root: Root::TtsDir, steps: seq!["onnxruntime.dll"@] },
            place::PlaceView { root: Root::Bare, steps: seq!["onnxruntime.dll"@] },
        ],
        dylib_places(true) == seq![
            place::PlaceView { root: Root::TtsDir, steps: seq!["onnxruntime.dll"@] },
            place::PlaceView { root: Root::ExeDir, steps: seq!["onnxruntime.dll"@] },
            place::PlaceView { root: Root::Bare, steps: seq!["onnxruntime.dll"@] },
        ],
{
    assert(dylib_places(false) =~= seq![
        place::PlaceView { root: Root::TtsDir, steps: seq!["onnxruntime.dll"@] },
        place::PlaceView { root: Root::Bare, steps: seq!["onnxruntime.dll"@] },
    ]);
    assert(dylib_places(true) =~= seq![
        place::PlaceView { root: Root::TtsDir, steps: seq!["onnxruntime.dll"@] },
        place::PlaceView { root: Root::ExeDir, steps: seq!["onnxruntime.dll"@] },
        place::PlaceView { root: Root::Bare, steps: seq!["onnxruntime.dll"@] },
    ]);
}

/// A file is reported as missing, by its path, exactly if it is not there.
pub proof fn only_absent_files_are_missing(f: AssetFile)
    ensures
        f.present ==> absent(f).len() == 0,
        !f.present ==> absent(f) == seq![f.path@],
{
}

/// The files of the speech service have these names.
pub proof fn names_of_the_speech_files()
    ensures
        GGUF_MODEL@ == "vieneu-tts-v2-turbo.gguf"@,
        DECODER_ONNX@ == "vieneu_decoder_int8.onnx"@,
        ENCODER_ONNX@ == "vieneu_encoder.onnx"@,
        SEA_G2P_BIN@ == "sea_g2p.bin"@,
        CUSTOM_VOICES@ == "voices.custom.json"@,
        ONNX_RUNTIME@ == "onnxruntime.dll"@,
{
}

} // verus!
