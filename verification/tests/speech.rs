use print_util::audio::{check_embedding, check_sample, extension_of, Packet, Probed, TrackReader};
use print_util::error::ApiError;
use print_util::fit::{fit_plan, frames, FitPlan, Window};
use print_util::mock::{generate_mock_speech_tokens, mock_fits};
use print_util::request::{
    clamp_temperature, validate_speech_request, SpeechRequest, DEFAULT_TEMPERATURE, DEFAULT_TOP_K,
};
use print_util::runtime::{
    answered, bootstrap, directory_failed, let_in, no_outputs, not_initialized, prompt_for,
    step_failed, submitted, token_piece, voice_file_failed, BootEvent, BootStep, EnginePart,
    EngineStep, Submission, VoiceFileStep, WorkerReply,
};
use print_util::speech::{
    at_least_one_sample, extract_speech_ids, format_turbo_prompt, parse_group_ids, speech_tokens,
    token_ids, Generation, Step,
};
use print_util::voice::Embedding;

fn says(e: &ApiError, code: &str, status: u16, message: &str) -> bool {
    e.code() == code && e.status() == status && e.message() == message
}

fn request(input: &str) -> SpeechRequest {
    SpeechRequest {
        input: input.to_string(),
        voice: None,
        response_format: None,
        temperature: None,
        top_k: None,
    }
}

#[test]
fn prompt_and_token_parser() {
    let prompt = format_turbo_prompt("x i n c h a o");
    assert!(prompt.contains("<|SPEECH_GENERATION_START|>"));
    let parsed = extract_speech_ids("<|speech_1|><|speech_22|><|speech_333|>");
    assert_eq!(parsed, vec![1, 22, 333]);
}

#[test]
fn speech_request_validation() {
    let req = SpeechRequest {
        input: "xin chao".to_string(),
        voice: Some("voice_1".to_string()),
        response_format: Some("wav".to_string()),
        temperature: None,
        top_k: None,
    };
    let validated = validate_speech_request(req).expect("valid req");
    assert_eq!(validated.top_k, DEFAULT_TOP_K);
    assert!(
        (f32::from_bits(validated.temperature) - f32::from_bits(DEFAULT_TEMPERATURE)).abs()
            < f32::EPSILON
    );
    assert_eq!(f32::from_bits(DEFAULT_TEMPERATURE), 0.4);
    assert_eq!(validated.input, "xin chao");
    assert_eq!(validated.voice.as_deref(), Some("voice_1"));
}

#[test]
fn the_whole_prompt() {
    assert_eq!(
        format_turbo_prompt("a b"),
        "<|speaker_16|><|TEXT_PROMPT_START|>a b<|TEXT_PROMPT_END|><|SPEECH_GENERATION_START|>"
    );
    assert_eq!(
        prompt_for(None, "  Xin \t CHÀO  "),
        "<|speaker_16|><|TEXT_PROMPT_START|>xin chào<|TEXT_PROMPT_END|><|SPEECH_GENERATION_START|>"
    );
}

#[test]
fn tokens_among_other_text() {
    assert_eq!(
        extract_speech_ids("a<|speech_7|>b<|speech_|><|speech_x|><|speech_4294967295|>"),
        vec![7, 4294967295]
    );
    assert_eq!(extract_speech_ids("<|speech_4294967296|>"), Vec::<u32>::new());
    assert_eq!(extract_speech_ids("<|speech_<|speech_5|>"), vec![5]);
    assert_eq!(extract_speech_ids("<|speech_٣|><|speech_6|>"), vec![6]);
    assert_eq!(extract_speech_ids(""), Vec::<u32>::new());
    let groups = vec![
        vec![Some("12".to_string())],
        vec![None],
        vec![],
        vec![Some("x".to_string())],
    ];
    assert_eq!(parse_group_ids(&groups), vec![12]);
}

#[test]
fn a_run_without_tokens_is_refused() {
    assert_eq!(speech_tokens("<|speech_3|>").unwrap(), vec![3]);
    let e = speech_tokens("nothing").unwrap_err();
    assert!(says(&e, "internal_error", 500, "model generated no speech tokens"));
    assert_eq!(token_ids(&vec![1, 4294967295]), vec![1_i64, 4294967295]);
    assert_eq!(at_least_one_sample(vec![]), vec![0]);
    assert_eq!(at_least_one_sample(vec![5, -5]), vec![5, -5]);
}

#[test]
fn input_length_is_checked_first() {
    let mut r = request("");
    r.voice = Some("?".to_string());
    r.response_format = Some("mp3".to_string());
    let e = validate_speech_request(r).unwrap_err();
    assert!(says(&e, "bad_request", 400, "input must be between 1 and 5000 characters"));
    let long = "ă".repeat(5000);
    assert!(validate_speech_request(request(&long)).is_ok());
    let e = validate_speech_request(request(&"a".repeat(5001))).unwrap_err();
    assert!(says(&e, "bad_request", 400, "input must be between 1 and 5000 characters"));
}

#[test]
fn voice_and_format_of_a_request() {
    let mut r = request("a");
    r.voice = Some("-x".to_string());
    r.response_format = Some("mp3".to_string());
    let e = validate_speech_request(r).unwrap_err();
    assert!(says(&e, "bad_request", 400, "invalid voice id '-x'"));
    let mut r = request("a");
    r.response_format = Some("mp3".to_string());
    let e = validate_speech_request(r).unwrap_err();
    assert!(says(&e, "bad_request", 400, "response_format only supports 'wav'"));
    let mut r = request("a");
    r.response_format = Some("WaV".to_string());
    r.top_k = Some(0);
    r.temperature = Some(7.5_f32.to_bits());
    let v = validate_speech_request(r).unwrap();
    assert_eq!(v.top_k, 1);
    assert_eq!(f32::from_bits(v.temperature), 2.0);
    let mut r = request("a");
    r.top_k = Some(9);
    r.temperature = Some(1.25_f32.to_bits());
    let v = validate_speech_request(r).unwrap();
    assert_eq!(v.top_k, 9);
    assert_eq!(f32::from_bits(v.temperature), 1.25);
}

#[test]
fn temperatures_are_clamped_like_floats() {
    let samples: Vec<f32> = vec![
        -1.0,
        -0.0,
        0.0,
        1.0e-40,
        -1.0e-40,
        0.4,
        1.9999999,
        2.0,
        2.0000002,
        1.0e30,
        f32::INFINITY,
        f32::NEG_INFINITY,
        f32::MIN_POSITIVE,
    ];
    for t in samples {
        assert_eq!(clamp_temperature(t.to_bits()), t.clamp(0.0, 2.0).to_bits());
    }
    for bits in [0x7fc0_0000_u32, 0xffc0_0000, 0x7f80_0001] {
        assert_eq!(clamp_temperature(bits), bits);
        assert_eq!(clamp_temperature(clamp_temperature(bits)), clamp_temperature(bits));
    }
}

#[test]
fn mock_tokens_have_exact_values() {
    let values = vec![0.01_f32.to_bits(); 128];
    let text = generate_mock_speech_tokens("xin chao", &values, DEFAULT_TEMPERATURE, 50);
    let ids = extract_speech_ids(&text);
    assert_eq!(ids.len(), 96);
    assert_eq!(ids[..8].to_vec(), vec![46551, 41602, 25598, 25125, 250, 300, 350, 400]);
    assert_eq!(ids[93..].to_vec(), vec![4700, 4750, 4800]);
    assert!(text.starts_with("<|speech_46551|><|speech_41602|>"));
    let none = extract_speech_ids(&generate_mock_speech_tokens("a", &vec![], 0, 0));
    assert_eq!(none[..4].to_vec(), vec![24833, 2, 3, 4]);
    assert!(mock_fits("a", 44739242) && !mock_fits("a", 44739243));
    assert!(mock_fits(&"a".repeat(6000), 8388607) && !mock_fits(&"a".repeat(6000), 8388608));
    assert!(mock_fits("a", 0));
    let many = generate_mock_speech_tokens(&"a".repeat(1200), &vec![], 0, 1);
    assert_eq!(extract_speech_ids(&many).len(), 200);
    let most = generate_mock_speech_tokens(&"a".repeat(6000), &vec![], 0, 1);
    assert_eq!(extract_speech_ids(&most).len(), 512);
}

#[test]
fn a_run_of_the_model() {
    let mut g = Generation::start(3).unwrap();
    assert!(g.wants_token());
    assert_eq!(g.on_token(false, "<|speech_1|>"), Step::Feed(3));
    assert_eq!(g.on_token(false, "<|SPEECH_GENERATION"), Step::Feed(4));
    assert_eq!(g.on_token(false, "_END|>x"), Step::Stop);
    assert!(!g.wants_token());
    assert_eq!(g.finish(), "<|speech_1|><|SPEECH_GENERATION_END|>x");
    let mut g = Generation::start(1).unwrap();
    assert_eq!(g.on_token(true, "ignored"), Step::Stop);
    assert!(!g.wants_token());
    assert_eq!(g.finish(), "");
    let mut g = Generation::start(1).unwrap();
    assert_eq!(g.on_token(false, &"x".repeat(131072)), Step::Feed(1));
    assert_eq!(g.on_token(false, "y"), Step::Stop);
    let mut g = Generation::start(i32::MAX as usize).unwrap();
    assert_eq!(g.on_token(false, "a"), Step::Feed(i32::MAX));
    assert_eq!(g.on_token(false, "b"), Step::Feed(i32::MAX));
}

#[test]
fn a_run_ends_after_the_allowed_tokens() {
    let mut g = Generation::start(1).unwrap();
    let mut n = 0;
    while g.wants_token() {
        assert_eq!(g.on_token(false, "a"), Step::Feed(1 + n));
        n += 1;
    }
    assert_eq!(n, 2048);
}

#[test]
fn prompts_that_cannot_be_run() {
    let e = Generation::start(0).err().unwrap();
    assert!(says(&e, "internal_error", 500, "prompt produced no tokens"));
    let e = Generation::start(0x8000_0000).err().unwrap();
    assert!(says(&e, "internal_error", 500, "prompt token length overflow"));
    let e = Generation::start(0x8000_0001).err().unwrap();
    assert!(says(&e, "internal_error", 500, "prompt token position overflow"));
}

#[test]
fn pieces_of_tokens() {
    assert_eq!(token_piece(Some(&vec![0x78, 0xc3, 0xa0])), "xà");
    assert_eq!(token_piece(Some(&vec![0x78, 0xff])), "x\u{fffd}");
    assert_eq!(token_piece(None), "");
}

#[test]
fn extensions_of_file_names() {
    assert_eq!(extension_of("a.b.WAV").as_deref(), Some("WAV"));
    assert_eq!(extension_of("a.").as_deref(), Some(""));
    assert_eq!(extension_of(".mp3").as_deref(), Some("mp3"));
    assert_eq!(extension_of("sample"), None);
    assert_eq!(extension_of(""), None);
}

#[test]
fn a_track_is_read_to_its_end() {
    let track = Probed::Track { rate: Some(16000), channels: Some(2), codec: Ok(()) };
    let mut t = TrackReader::open(track).unwrap();
    assert!(t.take(Packet::Samples(vec![1, 2])).unwrap());
    assert!(t.take(Packet::Samples(vec![3])).unwrap());
    assert!(!t.take(Packet::Ended).unwrap());
    let s = t.finish().unwrap();
    assert_eq!(s.samples, vec![1, 2, 3]);
    assert_eq!((s.rate, s.channels), (16000, 2));
    let track = Probed::Track { rate: Some(8000), channels: None, codec: Ok(()) };
    let t = TrackReader::open(track).unwrap();
    let e = t.finish().err().unwrap();
    assert!(says(&e, "bad_request", 400, "audio sample has no frames"));
}

#[test]
fn tracks_that_cannot_be_read() {
    let open = |p: Probed| TrackReader::open(p).err().unwrap().message();
    assert_eq!(open(Probed::UnknownFormat("x".to_string())), "unsupported audio format: x");
    assert_eq!(open(Probed::NoTrack), "missing default audio track");
    let p = Probed::Track { rate: None, channels: None, codec: Err("c".to_string()) };
    assert_eq!(open(p), "cannot detect sample rate");
    let p = Probed::Track { rate: Some(1), channels: None, codec: Err("c".to_string()) };
    assert_eq!(open(p), "unsupported codec: c");
    let mut t = TrackReader::open(Probed::Track { rate: Some(1), channels: None, codec: Ok(()) })
        .unwrap();
    assert_eq!(
        t.take(Packet::Reset).unwrap_err().message(),
        "audio stream reset is not supported"
    );
    let e = t.take(Packet::Unreadable("r".to_string())).unwrap_err();
    assert!(says(&e, "bad_request", 400, "audio read error: r"));
    let e = t.take(Packet::Undecodable("d".to_string())).unwrap_err();
    assert!(says(&e, "bad_request", 400, "audio decode error: d"));
}

#[test]
fn samples_and_embeddings_are_checked() {
    assert!(check_sample(1).is_ok());
    let e = check_sample(0).unwrap_err();
    assert!(says(&e, "bad_request", 400, "sample audio is empty"));
    let mut bits = vec![0_u32; 128];
    bits[5] = (-0.0_f32).to_bits();
    let e = check_embedding(Embedding::from_bits(bits.clone()).unwrap()).unwrap_err();
    assert!(says(&e, "internal_error", 500, "encoder generated invalid all-zero embedding"));
    bits[127] = 1;
    let v = check_embedding(Embedding::from_bits(bits.clone()).unwrap()).unwrap();
    assert_eq!(*v.values(), bits);
    assert!(Embedding::from_bits(vec![0; 127]).is_none());
    assert_eq!(*Embedding::zero().values(), vec![0_u32; 128]);
}

fn float_windows(len: usize) -> Vec<Window> {
    let stride = len as f32 / 128.0;
    (0..128)
        .map(|idx| {
            let start = (idx as f32 * stride).floor() as usize;
            let end = (((idx + 1) as f32 * stride).ceil() as usize).min(len);
            if end <= start {
                Window::Copy(start.min(len - 1))
            } else {
                Window::Mean(start, end)
            }
        })
        .collect()
}

#[test]
fn windows_agree_with_single_precision() {
    assert!(matches!(fit_plan(0), FitPlan::Zeros));
    assert!(matches!(fit_plan(128), FitPlan::Keep));
    let lens = [
        1, 2, 3, 127, 129, 300, 24000, 131072, 131073, 999999, 16777217, 33554433, 123456789,
    ];
    for len in lens {
        match fit_plan(len) {
            FitPlan::Windows(w) => assert_eq!(w, float_windows(len)),
            _ => panic!("no windows"),
        }
    }
    match fit_plan(300) {
        FitPlan::Windows(w) => {
            assert_eq!(w[..3].to_vec(), vec![
                Window::Mean(0, 3),
                Window::Mean(2, 5),
                Window::Mean(4, 8),
            ]);
            assert_eq!(w[127], Window::Mean(297, 300));
        }
        _ => panic!("no windows"),
    }
}

#[test]
fn every_value_falls_into_a_window() {
    for len in [1, 5, 127, 300, 24001] {
        let windows = match fit_plan(len) {
            FitPlan::Windows(w) => w,
            _ => panic!("no windows"),
        };
        let mut seen = vec![false; len];
        for w in windows {
            if let Window::Mean(start, end) = w {
                seen[start..end].fill(true);
            }
        }
        assert!(seen.iter().all(|s| *s));
    }
}

#[test]
fn frames_of_a_sample() {
    let f = frames(1000);
    assert_eq!(f.len(), 128);
    assert_eq!(f[0], Some((0, 7)));
    assert_eq!(f[127], Some((889, 896)));
    let f = frames(3);
    assert_eq!(f[..4].to_vec(), vec![Some((0, 1)), Some((1, 2)), Some((2, 3)), None]);
    assert!(frames(0).iter().all(|x| x.is_none()));
}

#[test]
fn the_start_of_the_service() {
    assert_eq!(bootstrap(BootEvent::FilesChecked(0)), BootStep::LoadEngine);
    assert_eq!(bootstrap(BootEvent::FilesChecked(2)), BootStep::Serve(false));
    assert_eq!(bootstrap(BootEvent::EngineFailed), BootStep::Serve(false));
    assert_eq!(bootstrap(BootEvent::EngineLoaded(true)), BootStep::WarmUp);
    assert_eq!(bootstrap(BootEvent::EngineLoaded(false)), BootStep::Serve(true));
    assert_eq!(bootstrap(BootEvent::WarmedUp(true)), BootStep::Serve(true));
    assert_eq!(bootstrap(BootEvent::WarmedUp(false)), BootStep::Serve(false));
}

#[test]
fn requests_and_the_queue() {
    assert!(let_in(true).is_ok());
    assert!(says(
        &let_in(false).unwrap_err(),
        "service_unavailable",
        503,
        "tts engine is not ready"
    ));
    assert!(submitted(Submission::Queued).is_ok());
    assert!(says(
        &submitted(Submission::Full).unwrap_err(),
        "service_unavailable",
        503,
        "tts queue is full; retry later"
    ));
    assert!(says(
        &submitted(Submission::Closed).unwrap_err(),
        "service_unavailable",
        503,
        "tts queue is unavailable"
    ));
    assert_eq!(answered(WorkerReply::Answer(Ok(vec![1]))).unwrap(), vec![1]);
    let own = ApiError::NotFound("n".to_string());
    assert!(says(&answered(WorkerReply::Answer(Err(own))).unwrap_err(), "not_found", 404, "n"));
    assert!(says(
        &answered(WorkerReply::Dropped).unwrap_err(),
        "internal_error",
        500,
        "tts worker dropped response"
    ));
    assert!(says(
        &answered(WorkerReply::Panicked("p".to_string())).unwrap_err(),
        "internal_error",
        500,
        "tts worker panic: p"
    ));
}

#[test]
fn failures_of_the_engine() {
    let parts = [
        (EnginePart::Model, "llama model is not initialized"),
        (EnginePart::Context, "llama context is not initialized"),
        (EnginePart::Decoder, "decoder is not initialized"),
        (EnginePart::Encoder, "encoder is not initialized"),
    ];
    for (part, message) in parts {
        assert!(says(&not_initialized(part), "service_unavailable", 503, message));
    }
    let steps = [
        (EngineStep::InitBackend, "failed to init llama backend: e"),
        (EngineStep::LoadModel, "failed to load gguf model: e"),
        (EngineStep::CreateContext, "failed to create llama context: e"),
        (EngineStep::LoadDecoder, "failed to load decoder onnx: e"),
        (EngineStep::LoadEncoder, "failed to load encoder onnx: e"),
        (EngineStep::OnnxBuilder, "onnx builder init failed: e"),
        (EngineStep::OnnxIntraThreads, "onnx set intra threads failed: e"),
        (EngineStep::OnnxInterThreads, "onnx set inter threads failed: e"),
        (EngineStep::OnnxExecutionMode, "onnx set execution mode failed: e"),
        (EngineStep::OnnxCommit, "onnx commit failed: e"),
        (EngineStep::Tokenize, "failed to tokenize prompt: e"),
        (EngineStep::AddPromptToken, "failed to add prompt token to llama batch: e"),
        (EngineStep::AddGeneratedToken, "failed to add generated token to batch: e"),
        (EngineStep::Decode, "llama decode failed: e"),
        (EngineStep::ContentTensor, "failed to create content_ids tensor: e"),
        (EngineStep::VoiceTensor, "failed to create voice_embedding tensor: e"),
        (EngineStep::DecoderRun, "decoder inference failed: e"),
        (EngineStep::DecoderOutput, "decoder output parse failed: e"),
        (EngineStep::EncoderTensor, "failed to create encoder input tensor: e"),
        (EngineStep::EncoderRun, "encoder inference failed: e"),
        (EngineStep::EncoderOutput, "encoder output parse failed: e"),
    ];
    for (step, message) in steps {
        assert!(says(&step_failed(step, "e"), "internal_error", 500, message));
    }
    assert_eq!(no_outputs(true).message(), "decoder returned no outputs");
    assert_eq!(no_outputs(false).message(), "encoder returned no outputs");
}

#[test]
fn failures_of_the_voice_files() {
    let steps = [
        (VoiceFileStep::ReadBase, "failed to read base voices file: e"),
        (VoiceFileStep::ReadCustom, "failed to read custom voices file: e"),
        (VoiceFileStep::ParseCustom, "invalid custom voices json: e"),
        (VoiceFileStep::Serialize, "failed to serialize voice file: e"),
        (VoiceFileStep::Write, "failed to write temp voice file: e"),
        (VoiceFileStep::Replace, "failed to replace voice file: e"),
    ];
    for (step, message) in steps {
        assert!(says(&voice_file_failed(step, "e"), "internal_error", 500, message));
    }
    assert!(says(
        &directory_failed(true, "d", "e"),
        "internal_error",
        500,
        "failed to create tts directory d: e"
    ));
    assert_eq!(
        directory_failed(false, "d", "e").message(),
        "failed to create voice directory d: e"
    );
}
