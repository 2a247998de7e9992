use print_util::bytes::{le4_bytes, read_le4};
use print_util::decimal::{parse, render, render_signed};
use print_util::dict::{DictError, PhonemeDict};
use print_util::error::ApiError;
use print_util::g2p::{normalize_and_phonemize, SeaG2pCore};
use print_util::order::is_less;
use print_util::place::{first_present, Root};
use print_util::server::{
    bind_failure, listen_addr, next_stage, on_control, report, resolve_port, runs_as_service,
    Control, Stage,
};
use print_util::text::{
    contains, eq_ignore_ascii_case, join, replace, same, split_whitespace, trim,
};
use print_util::tray::{
    config_base, icon_candidates, is_msix_mode, loword, menu, on_message, open_config_file,
    open_url, opened, ps_single_quote, restart_args, restart_failure,
    restart_service_with_feedback, restarted, Feedback, MenuItem, TrayAction, RESTART_SCRIPT,
};
use print_util::unicode::decode;
use print_util::wav::pcm16_to_wav_bytes;
use print_util::wide;

#[test]
fn names_and_statuses_of_errors() {
    let m = || "m".to_string();
    let all = [
        (ApiError::BadRequest(m()), "bad_request", 400),
        (ApiError::Conflict(m()), "conflict", 409),
        (ApiError::NotFound(m()), "not_found", 404),
        (ApiError::ServiceUnavailable(m()), "service_unavailable", 503),
        (ApiError::Internal(m()), "internal_error", 500),
    ];
    for (e, code, status) in all {
        assert_eq!((e.code(), e.status(), e.message().as_str()), (code, status, "m"));
    }
}

#[test]
fn decimal_numbers() {
    assert_eq!(parse("0", 10), Some(0));
    assert_eq!(parse("+0017", 17), Some(17));
    assert_eq!(parse("18", 17), None);
    for s in ["", "+", "-1", "1 ", "1.0", "x", "++1", "٣"] {
        assert_eq!(parse(s, 100), None);
    }
    assert_eq!(parse("18446744073709551615", u64::MAX), Some(u64::MAX));
    assert_eq!(parse("18446744073709551616", u64::MAX), None);
    for n in [0, 9, 10, 65535, u64::MAX] {
        assert_eq!(render(n), n.to_string());
        assert_eq!(parse(&render(n), u64::MAX), Some(n));
    }
    for n in [0, -1, i32::MIN, i32::MAX] {
        assert_eq!(render_signed(n), n.to_string());
    }
}

#[test]
fn pieces_of_text() {
    assert_eq!(trim("\u{3000} a b\t\n"), "a b");
    assert_eq!(trim(" \u{a0}"), "");
    assert_eq!(split_whitespace("  a  bc\u{2003}d "), vec!["a", "bc", "d"]);
    assert!(split_whitespace(" ").is_empty());
    assert_eq!(join(&vec!["a".to_string(), "b".to_string()], ", "), "a, b");
    assert!(contains("xaab", "aab") && !contains("xab", "aab") && contains("a", ""));
    assert_eq!(replace("aaa", "aa", "b"), "ba");
    assert_eq!(replace("x", "y", "z"), "x");
    assert!(eq_ignore_ascii_case("WaV", "wav") && !eq_ignore_ascii_case("wa", "wav"));
    assert!(!eq_ignore_ascii_case("À", "à"));
    assert!(same("a", "a") && !same("a", "ab"));
}

#[test]
fn texts_in_order() {
    let row = ["", "a", "ab", "b", "z", "é", "\u{ffff}", "\u{10000}"];
    for (i, a) in row.iter().enumerate() {
        for (j, b) in row.iter().enumerate() {
            assert_eq!(is_less(a, b), i < j);
            assert_eq!(is_less(a, b), a < b);
        }
    }
}

#[test]
fn numbers_as_bytes() {
    assert_eq!(le4_bytes(0x04030201), vec![1, 2, 3, 4]);
    for v in [0, 1, 0xdead_beef, u32::MAX] {
        assert_eq!(read_le4(&le4_bytes(v), 0), v);
        assert_eq!(le4_bytes(v), v.to_le_bytes().to_vec());
    }
    assert_eq!(decode("è".as_bytes()), "è");
    assert_eq!(decode(&[0xff]), "");
}

#[test]
fn wav_files() {
    let samples = vec![0_i16, 1, -1, i16::MAX, i16::MIN];
    let bytes = pcm16_to_wav_bytes(&samples, 24000).unwrap();
    assert_eq!(bytes.len(), 44 + 10);
    assert_eq!(&bytes[0..4], b"RIFF");
    assert_eq!(read_le4(&bytes, 4), 46);
    assert_eq!(&bytes[8..16], b"WAVEfmt ");
    assert_eq!(read_le4(&bytes, 16), 16);
    assert_eq!(bytes[20..24].to_vec(), vec![1, 0, 1, 0]);
    assert_eq!(read_le4(&bytes, 24), 24000);
    assert_eq!(read_le4(&bytes, 28), 48000);
    assert_eq!(bytes[32..36].to_vec(), vec![2, 0, 16, 0]);
    assert_eq!(&bytes[36..40], b"data");
    assert_eq!(read_le4(&bytes, 40), 10);
    assert_eq!(bytes[44..].to_vec(), vec![0, 0, 1, 0, 255, 255, 255, 127, 0, 128]);
    assert_eq!(pcm16_to_wav_bytes(&vec![], 8000).unwrap().len(), 44);
    let read: Vec<i16> = hound::WavReader::new(std::io::Cursor::new(bytes))
        .unwrap()
        .into_samples::<i16>()
        .map(|s| s.unwrap())
        .collect();
    assert_eq!(read, samples);
}

fn dictionary() -> Vec<u8> {
    let strings = ["chao", "ch aw", "hello", "<en>h e l", "rock", "", "r o k", "xin", "s i n"];
    let merged = [(0_u32, 1_u32), (2, 3), (7, 8)];
    let common = [(2_u32, 5_u32, 6_u32), (4, 5, 6)];
    let mut text = Vec::new();
    let mut offsets = Vec::new();
    for s in strings {
        offsets.push(text.len() as u32);
        text.extend_from_slice(s.as_bytes());
        text.push(0);
    }
    let offsets_pos = 32 + text.len() as u32;
    let merged_pos = offsets_pos + 4 * strings.len() as u32;
    let common_pos = merged_pos + 8 * merged.len() as u32;
    let mut d = b"SEAP".to_vec();
    for v in [1, strings.len() as u32, 3, 2, offsets_pos, merged_pos, common_pos] {
        d.extend_from_slice(&v.to_le_bytes());
    }
    d.extend_from_slice(&text);
    for o in offsets {
        d.extend_from_slice(&o.to_le_bytes());
    }
    for (w, p) in merged {
        d.extend_from_slice(&w.to_le_bytes());
        d.extend_from_slice(&p.to_le_bytes());
    }
    for (w, v, e) in common {
        for x in [w, v, e] {
            d.extend_from_slice(&x.to_le_bytes());
        }
    }
    d
}

#[test]
fn words_of_the_dictionary() {
    let d = PhonemeDict::open(dictionary()).unwrap();
    assert_eq!(d.lookup_merged("chao"), Some("ch aw"));
    assert_eq!(d.lookup_merged("xin"), Some("s i n"));
    assert_eq!(d.lookup_merged("rock"), None);
    assert_eq!(d.lookup_common("rock"), Some(("", "r o k")));
    assert_eq!(d.lookup_common("zzz"), None);
    assert_eq!(PhonemeDict::open(b"SEAP".to_vec()).err().unwrap(), DictError::InvalidHeader);
    assert_eq!(PhonemeDict::open(vec![0; 64]).err().unwrap(), DictError::InvalidHeader);
    let cut = dictionary()[..40].to_vec();
    assert_eq!(PhonemeDict::open(cut).unwrap().lookup_merged("chao"), None);
}

#[test]
fn phonemes_of_texts() {
    let core = SeaG2pCore::open(dictionary()).unwrap();
    assert_eq!(core.phonemize("Xin chao, rock!"), "s i n ch aw , r o k !");
    assert_eq!(core.phonemize("hello <en>Hello</en> bạn"), "h e l <en>Hello</en> bạn");
    assert_eq!(core.phonemize(""), "");
    assert_eq!(core.phonemize("Bạn XIN"), "Bạn s i n");
    assert_eq!(core.pronounce("Unknown", "unknown"), "Unknown");
    assert_eq!(core.pronounce("?", "chao"), "ch aw");
    assert_eq!(normalize_and_phonemize(Some(&core), "  XIN \n Chao "), "s i n ch aw");
    assert_eq!(normalize_and_phonemize(None, "  XIN \n Chao "), "xin chao");
    let tokens = vec![
        vec![None, Some("xin".to_string()), None],
        vec![None, None, Some("?".to_string())],
        vec![Some("<en>a</en>".to_string()), None, None],
    ];
    assert_eq!(core.phonemize_tokens(&tokens), "s i n ? <en>a</en>");
}

#[test]
fn wide_texts() {
    let text = "Hỗ trợ \u{1f600}";
    let wide_text: Vec<u16> = text.encode_utf16().chain(Some(0)).collect();
    assert_eq!(wide::to_wide(text), wide_text);
    assert_eq!(wide::wide_text(&wide_text), text);
    let broken = vec![0xd800, 65, 0xdc00, 0xd83d, 0xde00, 0xdbff];
    assert_eq!(wide::decode(&broken), String::from_utf16_lossy(&broken));
    assert_eq!(wide::fill_wide_buffer("ab", 4), vec![97, 98, 0, 0]);
    assert_eq!(wide::fill_wide_buffer("abcd", 3), vec![97, 98, 0]);
    assert_eq!(wide::fill_wide_buffer("ab", 0), Vec::<u16>::new());
    assert_eq!(wide::fill_wide_buffer("ab", 1), vec![0]);
}

#[test]
fn ports_and_addresses() {
    assert_eq!(resolve_port(None, None), 17474);
    assert_eq!(resolve_port(Some("8080"), Some("1")), 8080);
    assert_eq!(resolve_port(Some("--console"), Some("1")), 1);
    assert_eq!(resolve_port(Some("65536"), Some("x")), 17474);
    assert_eq!(resolve_port(Some("65535"), None), 65535);
    assert_eq!(listen_addr(17474), "127.0.0.1:17474");
    assert_eq!(bind_failure("127.0.0.1:1"), "cannot bind to 127.0.0.1:1");
}

#[test]
fn consoles_and_services() {
    let args = |v: &[&str]| v.iter().map(|s| s.to_string()).collect::<Vec<String>>();
    assert!(runs_as_service(&args(&["print-util.exe"]), false));
    assert!(!runs_as_service(&args(&["print-util.exe"]), true));
    assert!(!runs_as_service(&args(&["print-util.exe", "--console"]), false));
    assert!(runs_as_service(&args(&["print-util.exe", "8080"]), false));
}

#[test]
fn life_of_the_service() {
    let c = on_control(Control::Stop);
    assert!(c.stop && c.understood);
    let c = on_control(Control::Shutdown);
    assert!(c.stop && c.understood);
    let c = on_control(Control::Interrogate);
    assert!(!c.stop && c.understood);
    let c = on_control(Control::Other);
    assert!(!c.stop && !c.understood);
    let r = report(Stage::Starting);
    assert_eq!((r.can_stop, r.wait_secs), (false, 5));
    let r = report(Stage::Running);
    assert_eq!((r.can_stop, r.wait_secs), (true, 0));
    let r = report(Stage::Stopped);
    assert_eq!((r.can_stop, r.wait_secs), (false, 0));
}

#[test]
fn stages_of_the_service() {
    let messages = [Control::Interrogate, Control::Other, Control::Shutdown, Control::Stop];
    let mut stage = Stage::Starting;
    let mut reported = vec![stage];
    stage = next_stage(stage, None);
    reported.push(stage);
    for m in messages {
        let next = next_stage(stage, Some(m));
        if next != stage {
            reported.push(next);
        }
        stage = next;
    }
    assert_eq!(reported, vec![Stage::Starting, Stage::Running, Stage::Stopped]);
    assert_eq!(next_stage(Stage::Running, None), Stage::Running);
    assert_eq!(next_stage(Stage::Running, Some(Control::Interrogate)), Stage::Running);
    assert_eq!(next_stage(Stage::Running, Some(Control::Stop)), Stage::Stopped);
    assert_eq!(next_stage(Stage::Stopped, Some(Control::Other)), Stage::Stopped);
}

#[test]
fn messages_of_the_tray() {
    assert_eq!(loword(0x12345678), 0x5678);
    assert_eq!(on_message(0x8001, 0, 0x10205), TrayAction::ShowMenu);
    assert_eq!(on_message(0x8001, 0, 0x007b), TrayAction::ShowMenu);
    assert_eq!(on_message(0x8001, 0, 0x0202), TrayAction::ShowMenu);
    assert_eq!(on_message(0x8001, 0, 0x0203), TrayAction::OpenConfig);
    assert_eq!(on_message(0x8001, 0, 0x0200), TrayAction::Ignore);
    assert_eq!(on_message(0x0111, 1001, 0), TrayAction::OpenSupport);
    assert_eq!(on_message(0x0111, 1002, 0), TrayAction::OpenConfig);
    assert_eq!(on_message(0x0111, 0x10000 + 1003, 0), TrayAction::Restart);
    assert_eq!(on_message(0x0111, 1099, 0), TrayAction::Close);
    assert_eq!(on_message(0x0111, 1, 0), TrayAction::Ignore);
    assert_eq!(on_message(0x0002, 0, 0), TrayAction::Quit);
    assert_eq!(on_message(0x000f, 0, 0), TrayAction::PassOn);
}

#[test]
fn the_menu_of_the_tray() {
    let labels: Vec<Option<(u16, String)>> = menu()
        .into_iter()
        .map(|i| match i {
            MenuItem::Entry(id, label) => Some((id, wide::wide_text(&label))),
            MenuItem::Line => None,
        })
        .collect();
    assert_eq!(labels, vec![
        Some((1001, "Hỗ trợ".to_string())),
        Some((1002, "Cấu hình".to_string())),
        Some((1003, "Khởi động lại dịch vụ".to_string())),
        None,
        Some((1099, "Thoát".to_string())),
    ]);
}

#[test]
fn opening_pages_and_files() {
    let r = open_url("https://x");
    assert_eq!(wide::wide_text(&r.verb), "open");
    assert_eq!(wide::wide_text(&r.file), "https://x");
    assert!(r.params.is_none());
    assert_eq!(wide::wide_text(&open_config_file(Some("c.json")).unwrap().file), "c.json");
    assert_eq!(open_config_file(None).unwrap_err(), "invalid config path");
    assert!(opened(33).is_ok());
    assert_eq!(opened(32).unwrap_err(), "ShellExecuteW failed with code 32");
    let args = |v: &[&str]| v.iter().map(|s| s.to_string()).collect::<Vec<String>>();
    assert!(is_msix_mode(&args(&["x", "--msix"]), 0));
    assert!(is_msix_mode(&args(&["x"]), 122));
    assert!(!is_msix_mode(&args(&["x", "--msi"]), 15700));
    assert_eq!(config_base(true, Some("L"), Some("P")), "L");
    assert_eq!(config_base(true, None, None), r"C:\Users\Public\AppData\Local");
    assert_eq!(config_base(false, Some("L"), Some("P")), "P");
    assert_eq!(config_base(false, None, None), r"C:\ProgramData");
    assert_eq!(icon_candidates(true, true, true).len(), 1);
    assert_eq!(icon_candidates(false, false, false).len(), 0);
    let steps: Vec<String> =
        icon_candidates(false, true, true).iter().map(|p| p.steps.join("/")).collect();
    assert_eq!(steps, vec![
        "vnpt.ico",
        "assets/vnpt.ico",
        "vnpt.ico",
        "installer/vendor/vnpt.ico",
        "print-util/vnpt.ico",
    ]);
    assert_eq!(icon_candidates(false, true, false).len(), 4);
    let last = icon_candidates(false, false, true);
    assert_eq!((last.len(), last[0].root), (1, Root::ProgramFiles));
    assert_eq!(last[0].steps, vec!["print-util", "vnpt.ico"]);
    assert_eq!(first_present(&vec![false, false, false, false, true]), Some(4));
}

#[test]
fn restarting_the_service() {
    assert_eq!(ps_single_quote("a'b''"), "a''b''''");
    let args = restart_args(r"C:\it's\s.ps1");
    assert_eq!(args[..5].to_vec(), vec![
        "-NoLogo",
        "-NoProfile",
        "-ExecutionPolicy",
        "Bypass",
        "-Command",
    ]);
    assert_eq!(
        args[5],
        "$ErrorActionPreference='Stop';$argList=@('-NoProfile','-ExecutionPolicy','Bypass',\
         '-File','C:\\it''s\\s.ps1');$p=Start-Process -FilePath 'powershell.exe' -Verb RunAs \
         -PassThru -Wait -ArgumentList $argList;exit $p.ExitCode"
    );
    assert_eq!(RESTART_SCRIPT.lines().count(), 4);
    assert_eq!(restart_failure("s", " ", "\n"), "restart failed with status s");
    assert_eq!(restart_failure("s", " a ", " b\n"), "restart failed: a\nb");
    assert_eq!(restart_failure("s", "", "b"), "restart failed: b");
    assert!(restarted(true, "s", &vec![], &vec![]).is_ok());
    assert_eq!(
        restarted(false, "s", &b"x\xff".to_vec(), &vec![]).unwrap_err(),
        "restart failed: x\u{fffd}"
    );
}

#[test]
fn what_the_user_is_told_of_a_restart() {
    match restart_service_with_feedback(true, Ok(())) {
        Feedback::Info(m) => assert_eq!(m, "Đã khởi động lại print-util."),
        _ => panic!("no information"),
    }
    let silent = restart_service_with_feedback(true, Err("e".to_string()));
    assert!(matches!(silent, Feedback::Silent));
    match restart_service_with_feedback(false, Ok(())) {
        Feedback::Info(m) => {
            assert_eq!(m, "Đã khởi động lại dịch vụ 'print-util' thành công.")
        }
        _ => panic!("no information"),
    }
    match restart_service_with_feedback(false, Err("e".to_string())) {
        Feedback::Error(m) => assert_eq!(
            m,
            "Khởi động lại dịch vụ thất bại:\ne\n\nHãy mở Terminal (Run as Administrator) và \
             chạy:\nsc stop print-util\nsc start print-util"
        ),
        _ => panic!("no error"),
    }
}
