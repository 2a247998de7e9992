//! The life of the speech service: when it is ready, how a request passes through its queue, and
//! what is answered when a part of it fails.
use crate::error;
use crate::error::{ApiError, ErrorKind};
use crate::g2p;
use crate::g2p::SeaG2pCore;
use crate::speech;
use crate::text;
use crate::unicode;
use vstd::prelude::*;
use vstd::string::*;

verus! {

/// What has happened while the service starts.
#[derive(Clone, Copy, Debug, PartialEq, Eq, Structural)]
pub enum BootEvent {
    /// The files were looked for, and so many are missing.
    FilesChecked(usize),
    /// The engine was loaded; whether there is a default voice.
    EngineLoaded(bool),
    /// The engine could not be loaded.
    EngineFailed,
    /// The engine has run once with the default voice, or has failed to.
    WarmedUp(bool),
}

/// What to do next while the service starts.
#[derive(Clone, Copy, Debug, PartialEq, Eq, Structural)]
pub enum BootStep {
    LoadEngine,
    /// Run the engine once with the default voice.
    WarmUp,
    /// Serve requests, ready or not.
    Serve(bool),
}

/// What to do after an event of the start.
pub open spec fn step_after(e: BootEvent) -> BootStep {
    match e {
        BootEvent::FilesChecked(missing) => if missing == 0 {
            BootStep::LoadEngine
        } else {
            BootStep::Serve(false)
        },
        BootEvent::EngineLoaded(voice) => if voice {
            BootStep::WarmUp
        } else {
            BootStep::Serve(true)
        },
        BootEvent::EngineFailed => BootStep::Serve(false),
        BootEvent::WarmedUp(passed) => BootStep::Serve(passed),
    }
}

/// What to do after an event of the start.
pub fn bootstrap(e: BootEvent) -> (r: BootStep)
    ensures
        r == step_after(e),
{
    match e {
        BootEvent::FilesChecked(missing) => {
            if missing == 0 {
                BootStep::LoadEngine
            } else {
                BootStep::Serve(false)
            }
        },
        BootEvent::EngineLoaded(voice) => {
            if voice {
                BootStep::WarmUp
            } else {
                BootStep::Serve(true)
            }
        },
        BootEvent::EngineFailed => BootStep::Serve(false),
        BootEvent::WarmedUp(passed) => BootStep::Serve(passed),
    }
}

/// Whether the service is ready at the end of the start, given how many files are missing, whether
/// the engine can be loaded, whether there is a default voice, and whether the engine runs with it.
pub open spec fn ready_at_the_end(missing: usize, loads: bool, voice: bool, runs: bool) -> bool {
    match step_after(BootEvent::FilesChecked(missing)) {
        BootStep::Serve(ready) => ready,
        _ => match step_after(
            if loads {
                BootEvent::EngineLoaded(voice)
            } else {
                BootEvent::EngineFailed
            },
        ) {
            BootStep::Serve(ready) => ready,
            _ => step_after(BootEvent::WarmedUp(runs)) == BootStep::Serve(true),
        },
    }
}

/// The service is ready exactly if no file is missing, the engine is loaded, and the engine runs
/// with the default voice, if there is one.
pub proof fn when_the_service_is_ready(missing: usize, loads: bool, voice: bool, runs: bool)
    ensures
        ready_at_the_end(missing, loads, voice, runs) == (missing == 0 && loads && (voice
            ==> runs)),
{
}

/// What came of handing a request to the queue.
#[derive(Clone, Copy, Debug, PartialEq, Eq, Structural)]
pub enum Submission {
    Queued,
    Full,
    Closed,
}

/// What came back for a request.
pub enum WorkerReply {
    /// Nothing, for the worker has dropped the request.
    Dropped,
    /// The worker broke down.
    Panicked(String),
    /// A sound, or why there is none.
    Answer(Result<Vec<i16>, ApiError>),
}

/// Lets a request in, if the service is ready.
pub fn let_in(ready: bool) -> (r: Result<(), ApiError>)
    ensures
        r is Ok <==> ready,
        r matches Err(e) ==> e.says(ErrorKind::ServiceUnavailable, "tts engine is not ready"@),
{
    if ready {
        Ok(())
    } else {
        Err(error::unavailable("tts engine is not ready"))
    }
}

/// Whether the answer to a request is to be waited for.
pub fn submitted(s: Submission) -> (r: Result<(), ApiError>)
    ensures
        r is Ok <==> s == Submission::Queued,
        r matches Err(e) ==> e.says(
            ErrorKind::ServiceUnavailable,
            if s == Submission::Full {
                "tts queue is full; retry later"@
            } else {
                "tts queue is unavailable"@
            },
        ),
{
    match s {
        Submission::Queued => Ok(()),
        Submission::Full => Err(error::unavailable("tts queue is full; retry later")),
        Submission::Closed => Err(error::unavailable("tts queue is unavailable")),
    }
}

/// The answer to a request.
pub fn answered(reply: WorkerReply) -> (r: Result<Vec<i16>, ApiError>)
    ensures
        match reply {
            WorkerReply::Dropped => r matches Err(e) && e.says(
                ErrorKind::Internal,
                "tts worker dropped response"@,
            ),
            WorkerReply::Panicked(cause) => r matches Err(e) && e.says(
                ErrorKind::Internal,
                "tts worker panic: "@ + cause@,
            ),
            WorkerReply::Answer(a) => r == a,
        },
{
    match reply {
        WorkerReply::Dropped => Err(error::internal("tts worker dropped response")),
        WorkerReply::Panicked(cause) => Err(
            ApiError::Internal(text::concat2("tts worker panic: ", cause.as_str())),
        ),
        WorkerReply::Answer(a) => a,
    }
}

/// A part of the engine.
#[derive(Clone, Copy, Debug, PartialEq, Eq, Structural)]
pub enum EnginePart {
    Model,
    Context,
    Decoder,
    Encoder,
}

/// What is answered when a part of the engine was not loaded.
pub open spec fn part_missing(part: EnginePart) -> Seq<char> {
    match part {
        EnginePart::Model => "llama model is not initialized"@,
        EnginePart::Context => "llama context is not initialized"@,
        EnginePart::Decoder => "decoder is not initialized"@,
        EnginePart::Encoder => "encoder is not initialized"@,
    }
}

/// The answer when a part of the engine was not loaded.
pub fn not_initialized(part: EnginePart) -> (r: ApiError)
    ensures
        r.says(ErrorKind::ServiceUnavailable, part_missing(part)),
{
    match part {
        EnginePart::Model => error::unavailable("llama model is not initialized"),
        EnginePart::Context => error::unavailable("llama context is not initialized"),
        EnginePart::Decoder => error::unavailable("decoder is not initialized"),
        EnginePart::Encoder => error::unavailable("encoder is not initialized"),
    }
}

/// A step of the engine that can fail with a cause.
#[derive(Clone, Copy, Debug, PartialEq, Eq, Structural)]
pub enum EngineStep {
    InitBackend,
    LoadModel,
    CreateContext,
    LoadDecoder,
    LoadEncoder,
    OnnxBuilder,
    OnnxIntraThreads,
    OnnxInterThreads,
    OnnxExecutionMode,
    OnnxCommit,
    Tokenize,
    AddPromptToken,
    AddGeneratedToken,
    Decode,
    ContentTensor,
    VoiceTensor,
    DecoderRun,
    DecoderOutput,
    EncoderTensor,
    EncoderRun,
    EncoderOutput,
}

/// What comes before the cause when a step fails.
pub open spec fn step_failure(step: EngineStep) -> Seq<char> {
    match step {
        EngineStep::InitBackend => "failed to init llama backend: "@,
        EngineStep::LoadModel => "failed to load gguf model: "@,
        EngineStep::CreateContext => "failed to create llama context: "@,
        EngineStep::LoadDecoder => "failed to load decoder onnx: "@,
        EngineStep::LoadEncoder => "failed to load encoder onnx: "@,
        EngineStep::OnnxBuilder => "onnx builder init failed: "@,
        EngineStep::OnnxIntraThreads => "onnx set intra threads failed: "@,
        EngineStep::OnnxInterThreads => "onnx set inter threads failed: "@,
        EngineStep::OnnxExecutionMode => "onnx set execution mode failed: "@,
        EngineStep::OnnxCommit => "onnx commit failed: "@,
        EngineStep::Tokenize => "failed to tokenize prompt: "@,
        EngineStep::AddPromptToken => "failed to add prompt token to llama batch: "@,
        EngineStep::AddGeneratedToken => "failed to add generated token to batch: "@,
        EngineStep::Decode => "llama decode failed: "@,
        EngineStep::ContentTensor => "failed to create content_ids tensor: "@,
        EngineStep::VoiceTensor => "failed to create voice_embedding tensor: "@,
        EngineStep::DecoderRun => "decoder inference failed: "@,
        EngineStep::DecoderOutput => "decoder output parse failed: "@,
        EngineStep::EncoderTensor => "failed to create encoder input tensor: "@,
        EngineStep::EncoderRun => "encoder inference failed: "@,
        EngineStep::EncoderOutput => "encoder output parse failed: "@,
    }
}

/// The answer when a step of the engine fails.
pub fn step_failed(step: EngineStep, cause: &str) -> (r: ApiError)
    ensures
        r.says(ErrorKind::Internal, step_failure(step) + cause@),
{
    let what: &str = match step {
        EngineStep::InitBackend => "failed to init llama backend: ",
        EngineStep::LoadModel => "failed to load gguf model: ",
        EngineStep::CreateContext => "failed to create llama context: ",
        EngineStep::LoadDecoder => "failed to load decoder onnx: ",
        EngineStep::LoadEncoder => "failed to load encoder onnx: ",
        EngineStep::OnnxBuilder => "onnx builder init failed: ",
        EngineStep::OnnxIntraThreads => "onnx set intra threads failed: ",
        EngineStep::OnnxInterThreads => "onnx set inter threads failed: ",
        EngineStep::OnnxExecutionMode => "onnx set execution mode failed: ",
        EngineStep::OnnxCommit => "onnx commit failed: ",
        EngineStep::Tokenize => "failed to tokenize prompt: ",
        EngineStep::AddPromptToken => "failed to add prompt token to llama batch: ",
        EngineStep::AddGeneratedToken => "failed to add generated token to batch: ",
        EngineStep::Decode => "llama decode failed: ",
        EngineStep::ContentTensor => "failed to create content_ids tensor: ",
        EngineStep::VoiceTensor => "failed to create voice_embedding tensor: ",
        EngineStep::DecoderRun => "decoder inference failed: ",
        EngineStep::DecoderOutput => "decoder output parse failed: ",
        EngineStep::EncoderTensor => "failed to create encoder input tensor: ",
        EngineStep::EncoderRun => "encoder inference failed: ",
        EngineStep::EncoderOutput => "encoder output parse failed: ",
    };
    ApiError::Internal(text::concat2(what, cause))
}

/// The answer when the decoder, or else the encoder, gives nothing back.
pub fn no_outputs(decoder: bool) -> (r: ApiError)
    ensures
        r.says(
            ErrorKind::Internal,
            if decoder {
                "decoder returned no outputs"@
            } else {
                "encoder returned no outputs"@
            },
        ),
{
    if decoder {
        error::internal("decoder returned no outputs")
    } else {
        error::internal("encoder returned no outputs")
    }
}

/// A step on the files of voices that can fail with a cause.
#[derive(Clone, Copy, Debug, PartialEq, Eq, Structural)]
pub enum VoiceFileStep {
    ReadBase,
    ReadCustom,
    ParseCustom,
    Serialize,
    Write,
    Replace,
}

/// What comes before the cause when a step on the files of voices fails.
pub open spec fn voice_file_failure(step: VoiceFileStep) -> Seq<char> {
    match step {
        VoiceFileStep::ReadBase => "failed to read base voices file: "@,
        VoiceFileStep::ReadCustom => "failed to read custom voices file: "@,
        VoiceFileStep::ParseCustom => "invalid custom voices json: "@,
        VoiceFileStep::Serialize => "failed to serialize voice file: "@,
        VoiceFileStep::Write => "failed to write temp voice file: "@,
        VoiceFileStep::Replace => "failed to replace voice file: "@,
    }
}

/// The answer when a step on the files of voices fails.
pub fn voice_file_failed(step: VoiceFileStep, cause: &str) -> (r: ApiError)
    ensures
        r.says(ErrorKind::Internal, voice_file_failure(step) + cause@),
{
    let what: &str = match step {
        VoiceFileStep::ReadBase => "failed to read base voices file: ",
        VoiceFileStep::ReadCustom => "failed to read custom voices file: ",
        VoiceFileStep::ParseCustom => "invalid custom voices json: ",
        VoiceFileStep::Serialize => "failed to serialize voice file: ",
        VoiceFileStep::Write => "failed to write temp voice file: ",
        VoiceFileStep::Replace => "failed to replace voice file: ",
    };
    ApiError::Internal(text::concat2(what, cause))
}

/// The answer when the directory of the speech files, or else the one of the voice files, cannot
/// be made.
pub fn directory_failed(speech_files: bool, dir: &str, cause: &str) -> (r: ApiError)
    ensures
        r.says(
            ErrorKind::Internal,
            (if speech_files {
                "failed to create tts directory "@
            } else {
                "failed to create voice directory "@
            }) + dir@ + ": "@ + cause@,
        ),
{
    let what: &str = if speech_files {
        "failed to create tts directory "
    } else {
        "failed to create voice directory "
    };
    let mut m = text::concat3(what, dir, ": ");
    m.append(cause);
    ApiError::Internal(m)
}

/// The prompt for an input, with a dictionary of pronunciations or without.
pub fn prompt_for(g2p: Option<&SeaG2pCore>, input: &str) -> (r: String)
    requires
        g2p matches Some(core) ==> core.wf(),
    ensures
        r@ == "<|speaker_16|><|TEXT_PROMPT_START|>"@ + g2p::spoken_input(g2p, input@)
            + "<|TEXT_PROMPT_END|><|SPEECH_GENERATION_START|>"@,
{
    let phonemes = g2p::normalize_and_phonemize(g2p, input);
    speech::format_turbo_prompt(phonemes.as_str())
}

/// The text of a token that the model has sampled, by its bytes; a token without bytes has none.
pub fn token_piece(bytes: Option<&Vec<u8>>) -> (r: String)
    ensures
        r@ == match bytes {
            Some(b) => unicode::utf8_lossy(b@),
            None => seq![],
        },
{
    match bytes {
        Some(b) => unicode::lossy(b),
        None => {
            proof {
                reveal_strlit("");
            }
            let r = text::owned("");
            assert(r@ =~= seq![]);
            r
        },
    }
}

} // verus!
