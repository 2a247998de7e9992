use print_util::assets::{
    base_voices_name, dylib_candidates, tts_candidates, tts_dir, AssetFile, AssetPaths,
};
use print_util::config::RuntimeConfig;
use print_util::engines::{
    acrobat_args, acrobat_candidates, exited, ghostscript_candidates, gs_args, gs_created, gs_dir,
    gs_exited, gs_failure, gs_finished, gsdll_args, gsdll_candidates, is_executable, launch_failed,
    lp_args, paper_to_set, shell_error_str, shell_finished, shell_print, sumatra_args, sumatra_candidates,
    target_printer, which_in_path, windows_print, Attempt, Engine, PrintStep,
};
use print_util::paper::{choose_paper, detect_paper_size, PaperChoice, PaperSize};
use print_util::place::{first_present, Place, Root};
use print_util::print_form::{field_of, unreadable_file, unreadable_form, PrintField, PrintForm};
use print_util::print_job::{file_name, file_stem, keep, safe_name};
use print_util::printers::{default_printer, printer_names, printers_of};
use print_util::reply::{bad, internal, ok, reply_to, Outcome};

fn shown(p: &Place) -> (Root, String) {
    (p.root, p.steps.join("/"))
}

fn all_shown(v: &[Place]) -> Vec<(Root, String)> {
    v.iter().map(shown).collect()
}

fn failure(a: Attempt) -> String {
    match a {
        Attempt::Failed(m) => m,
        _ => panic!("no failure"),
    }
}

#[test]
fn names_of_paper_sizes() {
    assert_eq!(PaperSize::A4.gs_name(), "a4");
    assert_eq!(PaperSize::A5.gs_name(), "a5");
    assert_eq!(PaperSize::A4.sumatra_name(), "A4");
    assert_eq!(PaperSize::A5.sumatra_name(), "A5");
    assert_eq!(PaperSize::A4.lp_media(), "a4");
    assert_eq!(PaperSize::A5.lp_media(), "a5");
}

fn detect(s: &str) -> PaperSize {
    detect_paper_size(&s.as_bytes().to_vec())
}

#[test]
fn paper_sizes_of_files() {
    assert_eq!(detect("%PDF-1.4 /MediaBox [0 0 595 842] "), PaperSize::A4);
    assert_eq!(detect("%PDF-1.4 /MediaBox [0 0 420 595] "), PaperSize::A5);
    assert_eq!(detect("/MediaBox[0 0 419.528 595.276]"), PaperSize::A5);
    assert_eq!(detect("/MediaBox [ 0.0 0.0 595.28 419.53 ]"), PaperSize::A5);
    assert_eq!(detect("/MediaBox\n[\r\n-10 +5 409.5 600.25\t]"), PaperSize::A5);
    assert_eq!(detect("/MediaBox [420 595 0 0]"), PaperSize::A5);
    assert_eq!(detect("/MediaBox [0 0 414.53 590.28]"), PaperSize::A5);
    assert_eq!(detect("/MediaBox [0 0 414.52 595]"), PaperSize::A4);
    assert_eq!(detect("/MediaBox [0 0 612 792]"), PaperSize::A4);
}

#[test]
fn the_first_readable_page_size_counts() {
    assert_eq!(detect("/MediaBox 5 0 R /MediaBox [0 0 420 595]"), PaperSize::A5);
    assert_eq!(detect("/MediaBox [0 0 420] /MediaBox [0 0 420 595]"), PaperSize::A5);
    assert_eq!(detect("/MediaBox [0 0 595 842] /MediaBox [0 0 420 595]"), PaperSize::A4);
    assert_eq!(detect("/MediaBox [0 0 420 595] /MediaBox [0 0 595 842]"), PaperSize::A5);
    assert_eq!(detect("/MediaBox [0 0 . 595] x"), PaperSize::A4);
    assert_eq!(detect("/MediaBox [0 0 1234567890 595]"), PaperSize::A4);
    assert_eq!(detect("/MediaBox [0 0 420 595"), PaperSize::A4);
    assert_eq!(detect("/MediaBox"), PaperSize::A4);
    assert_eq!(detect(""), PaperSize::A4);
}

#[test]
fn forced_paper_sizes() {
    let a5 = b"/MediaBox [0 0 420 595]".to_vec();
    assert_eq!(choose_paper(PaperChoice::FromFile, &a5), PaperSize::A5);
    assert_eq!(choose_paper(PaperChoice::Forced(PaperSize::A4), &a5), PaperSize::A4);
    assert_eq!(choose_paper(PaperChoice::Forced(PaperSize::A5), &vec![1]), PaperSize::A5);
}

#[test]
fn answers_of_the_print_service() {
    assert_eq!((ok().status, ok().error), (200, None));
    assert_eq!((bad("b").status, bad("b").error.as_deref()), (400, Some("b")));
    assert_eq!((internal("i").status, internal("i").error.as_deref()), (500, Some("i")));
    assert_eq!(reply_to(Outcome::Done).status, 200);
    let r = reply_to(Outcome::Failed("f".to_string()));
    assert_eq!((r.status, r.error.as_deref()), (500, Some("f")));
    let r = reply_to(Outcome::Panicked("p".to_string()));
    assert_eq!((r.status, r.error.as_deref()), (500, Some("task panic: p")));
    let r = reply_to(Outcome::TimedOut);
    assert_eq!((r.status, r.error.as_deref()), (500, Some("print timed out after 120 s")));
}

#[test]
fn a_complete_print_form() {
    assert_eq!(field_of(Some("file")), PrintField::File);
    assert_eq!(field_of(Some("printer")), PrintField::Printer);
    assert_eq!(field_of(Some("name")), PrintField::Name);
    assert_eq!(field_of(Some("FILE")), PrintField::Other);
    assert_eq!(field_of(None), PrintField::Other);
    let mut f = PrintForm::new();
    f.take_file(vec![1]);
    f.take_file(vec![2, 3]);
    f.take_text(PrintField::Printer, " HP ");
    f.take_text(PrintField::Printer, "  ");
    f.take_text(PrintField::Name, "Bill 7");
    f.take_text(PrintField::Other, "x");
    let j = f.finish(PaperChoice::FromFile, 5).unwrap();
    assert_eq!(j.data, vec![2, 3]);
    assert_eq!((j.printer.as_deref(), j.name.as_str()), (Some("HP"), "Bill 7"));
    assert_eq!(j.size, PaperSize::A4);
    let mut f = PrintForm::new();
    f.take_file(vec![1]);
    let j = f.finish(PaperChoice::Forced(PaperSize::A5), 5).unwrap();
    assert_eq!(j.size, PaperSize::A5);
}

#[test]
fn a_job_without_a_name() {
    let mut f = PrintForm::new();
    f.take_file(b"/MediaBox [0 0 420 595]".to_vec());
    f.take_text(PrintField::Name, " ");
    let j = f.finish(PaperChoice::FromFile, 1700000000).unwrap();
    assert_eq!((j.printer, j.name.as_str()), (None, "doc-1700000000"));
    assert_eq!(j.size, PaperSize::A5);
}

#[test]
fn print_forms_that_are_refused() {
    let r = PrintForm::new().finish(PaperChoice::FromFile, 0).unwrap_err();
    assert_eq!((r.status, r.error.as_deref()), (400, Some("missing required 'file' field")));
    let mut f = PrintForm::new();
    f.take_file(vec![]);
    let r = f.finish(PaperChoice::Forced(PaperSize::A5), 0).unwrap_err();
    assert_eq!((r.status, r.error.as_deref()), (400, Some("missing required 'file' field")));
    let r = unreadable_file("e");
    assert_eq!((r.status, r.error.as_deref()), (400, Some("read field: e")));
    let r = unreadable_form("e");
    assert_eq!((r.status, r.error.as_deref()), (400, Some("multipart error: e")));
}

#[test]
fn names_of_job_files() {
    assert_eq!(safe_name(" a/b\\c:d*é-1.2 "), "a_b_c_d_é-1.2");
    assert_eq!(safe_name("   "), "");
    assert_eq!(safe_name("\t"), "_");
    assert_eq!(keep('?', true), '?');
    assert_eq!(keep('?', false), '_');
    assert_eq!(keep('.', false), '.');
    assert_eq!(file_stem("job", "0123456789"), "job-01234567");
    assert_eq!(file_stem("", "0123456789"), "0123456789");
}

#[test]
fn job_files_get_random_parts() {
    let a = file_name("Bill");
    let b = file_name("Bill");
    assert_ne!(a, b);
    assert_eq!(a.len(), "Bill-12345678.pdf".len());
    assert!(a.starts_with("Bill-") && a.ends_with(".pdf"));
    assert!(a[5..13].chars().all(|c| c.is_ascii_digit() || ('a'..='f').contains(&c)));
    let c = file_name("  ");
    assert_eq!(c.len(), 40);
    let hyphens: Vec<usize> = c.match_indices('-').map(|(i, _)| i).collect();
    assert_eq!(hyphens, vec![8, 13, 18, 23]);
    assert_eq!(&c[14..15], "4");
    assert!(["8", "9", "a", "b"].contains(&&c[19..20]));
}

#[test]
fn engines_in_order() {
    let mut tried = Vec::new();
    let mut step = windows_print(None);
    while let PrintStep::Try(e) = step {
        tried.push(e);
        let a = if e == Engine::Shell { Attempt::Printed } else { Attempt::Absent };
        step = windows_print(Some((e, a)));
    }
    assert!(matches!(step, PrintStep::Done));
    assert_eq!(tried, vec![
        Engine::Sumatra,
        Engine::GhostscriptCli,
        Engine::GhostscriptDll,
        Engine::Acrobat,
        Engine::Shell,
    ]);
    let failed = Attempt::Failed("no paper".to_string());
    match windows_print(Some((Engine::Sumatra, failed))) {
        PrintStep::Fail(m) => assert_eq!(m, "no paper"),
        _ => panic!("no failure"),
    }
    match windows_print(Some((Engine::Shell, Attempt::Absent))) {
        PrintStep::Fail(m) => assert_eq!(m, "no print engine found"),
        _ => panic!("no failure"),
    }
    let done = windows_print(Some((Engine::GhostscriptDll, Attempt::Printed)));
    assert!(matches!(done, PrintStep::Done));
}

#[test]
fn where_engines_are_looked_for() {
    assert_eq!(sumatra_candidates(Some("P"), None, Some("L")), vec![
        r"SumatraPDF.exe",
        r"P\SumatraPDF\SumatraPDF.exe",
        r"L\SumatraPDF\SumatraPDF.exe",
        r"L\Programs\SumatraPDF\SumatraPDF.exe",
    ]);
    assert_eq!(sumatra_candidates(None, Some("X"), None), vec![
        r"SumatraPDF.exe",
        r"X\SumatraPDF\SumatraPDF.exe",
    ]);
    assert_eq!(acrobat_candidates(None, Some("X")), vec![
        r"X\Adobe\Acrobat DC\Acrobat\Acrobat.exe",
        r"X\Adobe\Acrobat Reader DC\Reader\AcroRd32.exe",
        r"X\Adobe\Reader 11.0\Reader\AcroRd32.exe",
    ]);
    assert!(acrobat_candidates(None, None).is_empty());
    assert_eq!(gs_dir(r"C:\Program Files"), r"C:\Program Files\gs");
    assert_eq!(all_shown(&ghostscript_candidates(2)), vec![
        (Root::Bare, "gswin64c.exe".to_string()),
        (Root::Bare, "gswin32c.exe".to_string()),
        (Root::Bare, "gs.exe".to_string()),
        (Root::Installed(0), "bin/gswin64c.exe".to_string()),
        (Root::Installed(0), "bin/gswin32c.exe".to_string()),
        (Root::Installed(1), "bin/gswin64c.exe".to_string()),
        (Root::Installed(1), "bin/gswin32c.exe".to_string()),
    ]);
    assert_eq!(all_shown(&gsdll_candidates(true, 1)), vec![
        (Root::ExeDir, "gsdll64.dll".to_string()),
        (Root::ExeDir, "vendor/gs/gsdll64.dll".to_string()),
        (Root::Installed(0), "bin/gsdll64.dll".to_string()),
    ]);
    assert!(gsdll_candidates(false, 0).is_empty());
}

#[test]
fn programs_that_can_be_run() {
    assert!(is_executable(1, true, false));
    assert!(!is_executable(1, false, true));
    assert!(is_executable(3, false, true));
    assert!(!is_executable(2, true, false));
    assert!(which_in_path(&vec![false, true]));
    assert!(!which_in_path(&vec![false]));
    assert_eq!(first_present(&vec![false, true, true]), Some(1));
    assert_eq!(first_present(&vec![]), None);
}

#[test]
fn arguments_of_engines() {
    assert_eq!(sumatra_args("f.pdf", Some("HP"), PaperSize::A5), vec![
        "-print-to",
        "HP",
        "-print-settings",
        "paper=A5",
        "-silent",
        "f.pdf",
    ]);
    assert_eq!(sumatra_args("f.pdf", None, PaperSize::A4)[0], "-print-to-default");
    assert_eq!(gs_args("f.pdf", "HP", PaperSize::A4, "job"), vec![
        "-dBATCH",
        "-dNOPAUSE",
        "-dNOSAFER",
        "-dNoCancel",
        "-dFIXEDMEDIA",
        "-q",
        "-sPAPERSIZE=a4",
        "-sDEVICE=mswinpr2",
        "-sDocumentName=job",
        "-sOutputFile=%printer%HP",
        "f.pdf",
    ]);
    assert_eq!(gsdll_args("f.pdf", "HP", PaperSize::A5, "job"), vec![
        "gs",
        "-dBATCH",
        "-dNOPAUSE",
        "-dNOSAFER",
        "-dNoCancel",
        "-dFIXEDMEDIA",
        "-sPAPERSIZE=a5",
        "-q",
        "-sDEVICE=mswinpr2",
        "-sDocumentName=job",
        "-sOutputFile=%printer%HP",
        "f.pdf",
    ]);
    assert_eq!(acrobat_args("f.pdf", None), vec!["/h", "/t", "f.pdf"]);
    assert_eq!(acrobat_args("f.pdf", Some("HP")), vec!["/h", "/t", "f.pdf", "HP"]);
    assert_eq!(lp_args("f.pdf", Some("HP"), PaperSize::A5, "job"), vec![
        "-d", "HP", "-t", "job", "-o", "media=a5", "f.pdf",
    ]);
    assert_eq!(lp_args("f.pdf", None, PaperSize::A4, "job"), vec![
        "-t", "job", "-o", "media=a4", "f.pdf",
    ]);
    assert_eq!(target_printer(Some("A"), Some("B")).unwrap(), "A");
    assert_eq!(target_printer(None, Some("B")).unwrap(), "B");
    assert_eq!(target_printer(None, None).unwrap_err(), "no default printer found");
}

#[test]
fn every_engine_learns_the_size() {
    for size in [PaperSize::A4, PaperSize::A5] {
        let paper = format!("paper={}", size.sumatra_name());
        assert!(sumatra_args("f", None, size).contains(&paper));
        let media = format!("-sPAPERSIZE={}", size.gs_name());
        assert!(gs_args("f", "p", size, "j").contains(&media));
        assert!(gsdll_args("f", "p", size, "j").contains(&media));
        assert_eq!(paper_to_set(Engine::Acrobat, size), Some(size));
        assert_eq!(paper_to_set(Engine::Shell, size), Some(size));
        assert_eq!(paper_to_set(Engine::Sumatra, size), None);
        assert_eq!(paper_to_set(Engine::GhostscriptCli, size), None);
        assert_eq!(paper_to_set(Engine::GhostscriptDll, size), None);
    }
    assert_eq!((PaperSize::A4.dm_paper(), PaperSize::A5.dm_paper()), (9, 11));
}

#[test]
fn outcomes_of_engines() {
    assert_eq!(failure(launch_failed("x.exe")), "launch x.exe");
    assert!(matches!(exited("lp", true, "exit status: 0"), Attempt::Printed));
    assert_eq!(
        failure(exited("SumatraPDF", false, "exit code: 1")),
        "SumatraPDF exited with exit code: 1"
    );
    assert!(matches!(gs_exited(true, "s", &vec![1]), Attempt::Printed));
    assert_eq!(
        failure(gs_exited(false, "exit code: 1", &b" bad \xff\n".to_vec())),
        "Ghostscript exited with exit code: 1: bad \u{fffd}"
    );
    assert_eq!(failure(gs_failure("s", " t ")), "Ghostscript exited with s: t");
    assert!(gs_created(0).is_ok());
    assert_eq!(gs_created(-100).unwrap_err(), "gsapi_new_instance failed: -100");
    assert!(matches!(gs_finished(0), Attempt::Printed));
    assert!(matches!(gs_finished(-101), Attempt::Printed));
    assert_eq!(failure(gs_finished(-100)), "gsapi_init_with_args failed: -100");
    assert_eq!(failure(gs_finished(i32::MIN)), "gsapi_init_with_args failed: -2147483648");
    assert_eq!(failure(gs_finished(7)), "gsapi_init_with_args failed: 7");
}

#[test]
fn printing_by_the_system() {
    let r = shell_print("f", Some("H"));
    let wide = |s: &str| s.encode_utf16().chain(Some(0)).collect::<Vec<u16>>();
    assert_eq!(r.verb, wide("printto"));
    assert_eq!(r.file, wide("f"));
    assert_eq!(r.params, Some(wide("\"H\"")));
    let r = shell_print("f", None);
    assert_eq!((r.verb, r.params), (wide("print"), None));
    assert!(matches!(shell_finished(33), Attempt::Printed));
    let codes = [
        (0, "out of memory or resources"),
        (2, "file not found"),
        (3, "path not found"),
        (5, "access denied"),
        (8, "out of memory"),
        (32, "no application associated with this file type"),
        (31, "unknown error"),
    ];
    for (code, meaning) in codes {
        assert_eq!(shell_error_str(code), meaning);
        assert_eq!(
            failure(shell_finished(code)),
            format!("ShellExecuteW failed (code={code}): {meaning}")
        );
    }
}

#[test]
fn listings_of_printers() {
    let text = "HP_1 accepting requests since today\r\n\n  Brother\tx\nlast";
    assert_eq!(printer_names(text), vec!["HP_1", "Brother", "last"]);
    assert_eq!(printers_of(Some(&text.as_bytes().to_vec())), vec!["HP_1", "Brother", "last"]);
    assert_eq!(printers_of(Some(&b"a\xff b\n".to_vec())), vec!["a\u{fffd}"]);
    assert!(printers_of(None).is_empty());
    assert!(printer_names("").is_empty());
    let buffer: Vec<u16> = "HP\u{1f5a8}".encode_utf16().chain([0, 65]).collect();
    assert_eq!(default_printer(6, true, &buffer).as_deref(), Some("HP\u{1f5a8}"));
    assert_eq!(default_printer(6, false, &buffer), None);
    assert_eq!(default_printer(0, true, &buffer), None);
}

#[test]
fn where_speech_files_are_looked_for() {
    let all = tts_candidates(true, true, true, true);
    assert_eq!(all_shown(&all), vec![
        (Root::Explicit, "".to_string()),
        (Root::LocalAppData, "print-util/tts".to_string()),
        (Root::Public, "Documents/print-util/tts".to_string()),
        (Root::ProgramData, "print-util/tts".to_string()),
        (Root::ExeDir, "tts".to_string()),
        (Root::Bare, "tts".to_string()),
    ]);
    let some = tts_candidates(false, false, true, false);
    assert_eq!(some.len(), 3);
    assert_eq!(shown(&tts_dir(&some, &vec![false, false, true])), (Root::Bare, "tts".to_string()));
    assert_eq!(
        shown(&tts_dir(&some, &vec![false, false, false])),
        (Root::ExeDir, "tts".to_string())
    );
    assert_eq!(
        shown(&tts_dir(&all, &vec![false, true, true, false, true, true])),
        (Root::LocalAppData, "print-util/tts".to_string())
    );
    assert_eq!(base_voices_name(true), "voices.base.json");
    assert_eq!(base_voices_name(false), "voices.json");
    assert_eq!(all_shown(&dylib_candidates(false, true)), vec![
        (Root::TtsDir, "onnxruntime.dll".to_string()),
        (Root::ExeDir, "onnxruntime.dll".to_string()),
        (Root::Bare, "onnxruntime.dll".to_string()),
    ]);
    assert_eq!(dylib_candidates(false, false).len(), 2);
    assert!(dylib_candidates(true, true).is_empty());
}

#[test]
fn files_that_are_missing() {
    let file = |path: &str, present: bool| AssetFile { path: path.to_string(), present };
    let assets = AssetPaths {
        gguf_model: file("g", false),
        decoder_onnx: file("d", true),
        encoder_onnx: file("e", false),
        base_voices: file("b", false),
    };
    assert_eq!(assets.missing_core_assets(), vec!["g", "e", "b"]);
}

#[test]
fn settings_of_the_speech_service() {
    let c = RuntimeConfig::with_cores(0, None, None, None, None);
    assert_eq!(c, RuntimeConfig {
        max_concurrent: 1,
        queue_capacity: 32,
        threads: 1,
        ort_intra_threads: 1,
    });
    let c = RuntimeConfig::with_cores(8, Some("3"), Some("x"), Some("0"), Some("+5"));
    assert_eq!(c, RuntimeConfig {
        max_concurrent: 1,
        queue_capacity: 5,
        threads: 3,
        ort_intra_threads: 8,
    });
    let here = RuntimeConfig::from_env(None, Some("2"), Some("4"), Some("-1"));
    assert!(here.threads >= 1);
    assert_eq!((here.ort_intra_threads, here.max_concurrent, here.queue_capacity), (2, 4, 32));
}
