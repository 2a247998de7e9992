//! The icon in the tray: its menu, what its messages do, and the restart of the service.
use crate::decimal;
use crate::engines::ShellRequest;
use crate::place;
use crate::place::{Place, Root};
use crate::server;
use crate::text;
use crate::unicode;
use crate::wide;
use vstd::prelude::*;
use vstd::string::*;

verus! {

/// The name of the application.
pub const APP_NAME: &'static str = "VNPT Print Util";

/// The page that the support entry opens.
pub const SUPPORT_URL: &'static str = "https://github.com/MYuitsu/print-util/issues";

/// The address of the server in a new configuration file.
pub const API_BASE: &'static str = "http://127.0.0.1:17474";

/// The note in a new configuration file.
pub const CONFIG_NOTES: &'static str = "Edit values then save.";

/// The message that the icon sends.
pub const WM_TRAYICON: u32 = 0x8001;

/// The message that a menu sends.
pub const WM_COMMAND: u32 = 0x0111;

/// The message that a window gets when it is closed.
pub const WM_DESTROY: u32 = 0x0002;

/// The left button was let go.
pub const WM_LBUTTONUP: u32 = 0x0202;

/// The left button was pressed twice.
pub const WM_LBUTTONDBLCLK: u32 = 0x0203;

/// The right button was let go.
pub const WM_RBUTTONUP: u32 = 0x0205;

/// The menu was asked for by the keyboard.
pub const WM_CONTEXTMENU: u32 = 0x007b;

/// The menu entry for support.
pub const MENU_SUPPORT: u16 = 1001;

/// The menu entry for the configuration.
pub const MENU_CONFIG: u16 = 1002;

/// The menu entry for the restart.
pub const MENU_RESTART_SERVICE: u16 = 1003;

/// The menu entry that ends the program.
pub const MENU_EXIT: u16 = 1099;

/// The code of the system for a buffer that is too small.
pub const ERROR_INSUFFICIENT_BUFFER: i32 = 122;

/// What a message does.
#[derive(Clone, Copy, Debug, PartialEq, Eq, Structural)]
pub enum TrayAction {
    ShowMenu,
    OpenConfig,
    OpenSupport,
    Restart,
    /// Close the window.
    Close,
    /// Remove the icon and end the program.
    Quit,
    /// Nothing.
    Ignore,
    /// What the system does with such a message.
    PassOn,
}

/// The low 16 bits of a number.
pub fn loword(v: usize) -> (r: u16)
    ensures
        r == v % 0x10000,
{
    (v % 0x10000) as u16
}

/// What an event on the icon does.
pub open spec fn on_icon(event: int) -> TrayAction {
    if event == WM_RBUTTONUP || event == WM_CONTEXTMENU || event == WM_LBUTTONUP {
        TrayAction::ShowMenu
    } else if event == WM_LBUTTONDBLCLK {
        TrayAction::OpenConfig
    } else {
        TrayAction::Ignore
    }
}

/// What a menu entry does.
pub open spec fn on_menu(entry: int) -> TrayAction {
    if entry == MENU_SUPPORT {
        TrayAction::OpenSupport
    } else if entry == MENU_CONFIG {
        TrayAction::OpenConfig
    } else if entry == MENU_RESTART_SERVICE {
        TrayAction::Restart
    } else if entry == MENU_EXIT {
        TrayAction::Close
    } else {
        TrayAction::Ignore
    }
}

/// What a message with its two parameters does.
pub open spec fn action_of(message: u32, wparam: usize, lparam: usize) -> TrayAction {
    if message == WM_TRAYICON {
        on_icon((lparam % 0x10000) as int)
    } else if message == WM_COMMAND {
        on_menu((wparam % 0x10000) as int)
    } else if message == WM_DESTROY {
        TrayAction::Quit
    } else {
        TrayAction::PassOn
    }
}

/// What a message with its two parameters does.
pub fn on_message(message: u32, wparam: usize, lparam: usize) -> (r: TrayAction)
    ensures
        r == action_of(message, wparam, lparam),
{
    if message == WM_TRAYICON {
        let event: u32 = loword(lparam) as u32;
        if event == WM_RBUTTONUP || event == WM_CONTEXTMENU || event == WM_LBUTTONUP {
            TrayAction::ShowMenu
        } else if event == WM_LBUTTONDBLCLK {
            TrayAction::OpenConfig
        } else {
            TrayAction::Ignore
        }
    } else if message == WM_COMMAND {
        let entry: u16 = loword(wparam);
        if entry == MENU_SUPPORT {
            TrayAction::OpenSupport
        } else if entry == MENU_CONFIG {
            TrayAction::OpenConfig
        } else if entry == MENU_RESTART_SERVICE {
            TrayAction::Restart
        } else if entry == MENU_EXIT {
            TrayAction::Close
        } else {
            TrayAction::Ignore
        }
    } else if message == WM_DESTROY {
        TrayAction::Quit
    } else {
        TrayAction::PassOn
    }
}

/// An entry of the menu: its number and its label, or a line between entries.
#[derive(Debug)]
pub enum MenuItem {
    Entry(u16, Vec<u16>),
    Line,
}

/// The model of an entry of the menu.
pub enum MenuItemView {
    Entry(u16, Seq<char>),
    Line,
}

/// The item shows this entry, its label in UTF-16.
pub open spec fn shows(item: MenuItem, v: MenuItemView) -> bool {
    match (item, v) {
        (MenuItem::Entry(id, label), MenuItemView::Entry(n, text)) => id == n && label@
            == wide::utf16(text).push(0),
        (MenuItem::Line, MenuItemView::Line) => true,
        _ => false,
    }
}

/// The menu.
pub open spec fn menu_entries() -> Seq<MenuItemView> {
    seq![
        MenuItemView::Entry(MENU_SUPPORT, "Hỗ trợ"@),
        MenuItemView::Entry(MENU_CONFIG, "Cấu hình"@),
        MenuItemView::Entry(MENU_RESTART_SERVICE, "Khởi động lại dịch vụ"@),
        MenuItemView::Line,
        MenuItemView::Entry(MENU_EXIT, "Thoát"@),
    ]
}

/// The menu.
pub fn menu() -> (r: Vec<MenuItem>)
    ensures
        r@.len() == menu_entries().len(),
        forall|i: int| 0 <= i < r@.len() ==> shows(#[trigger] r@[i], menu_entries()[i]),
{
    let mut r: Vec<MenuItem> = Vec::new();
    r.push(MenuItem::Entry(MENU_SUPPORT, wide::to_wide("Hỗ trợ")));
    r.push(MenuItem::Entry(MENU_CONFIG, wide::to_wide("Cấu hình")));
    r.push(MenuItem::Entry(MENU_RESTART_SERVICE, wide::to_wide("Khởi động lại dịch vụ")));
    r.push(MenuItem::Line);
    r.push(MenuItem::Entry(MENU_EXIT, wide::to_wide("Thoát")));
    r
}

/// Whether the program runs from a package: an argument says so, or the system knows the package,
/// whose name it cannot put into an empty buffer.
pub fn is_msix_mode(args: &Vec<String>, package_code: i32) -> (r: bool)
    ensures
        r == ((exists|i: int| 0 <= i < args@.len() && (#[trigger] args@[i])@ == "--msix"@)
            || package_code == ERROR_INSUFFICIENT_BUFFER),
{
    let mut i: usize = 0;
    while i < args.len()
        invariant
            i <= args@.len(),
            forall|k: int| 0 <= k < i ==> (#[trigger] args@[k])@ != "--msix"@,
        decreases args@.len() - i,
    {
        if text::same(args[i].as_str(), "--msix") {
            return true;
        }
        i = i + 1;
    }
    package_code == ERROR_INSUFFICIENT_BUFFER
}

/// The request to open something.
pub open spec fn opens(r: ShellRequest, target: Seq<char>) -> bool {
    r.verb@ == wide::utf16("open"@).push(0) && r.file@ == wide::utf16(target).push(0) && r.params
        is None
}

/// The request to open a page.
pub fn open_url(url: &str) -> (r: ShellRequest)
    ensures
        opens(r, url@),
{
    ShellRequest { verb: wide::to_wide("open"), file: wide::to_wide(url), params: None }
}

/// The request to open the configuration file, whose path must be text.
pub fn open_config_file(path: Option<&str>) -> (r: Result<ShellRequest, String>)
    ensures
        match path {
            Some(p) => r matches Ok(q) && opens(q, p@),
            None => r matches Err(m) && m@ == "invalid config path"@,
        },
{
    match path {
        Some(p) => Ok(open_url(p)),
        None => Err(text::owned("invalid config path")),
    }
}

/// What came of a request to open something: codes above 32 mean success.
pub fn opened(code: usize) -> (r: Result<(), String>)
    ensures
        r is Ok <==> code > 32,
        r matches Err(m) ==> m@ == "ShellExecuteW failed with code "@ + decimal::digits_of(
            code as nat,
        ),
{
    if code > 32 {
        Ok(())
    } else {
        Err(
            text::concat2("ShellExecuteW failed with code ", decimal::render(code as u64).as_str()),
        )
    }
}

/// What the user is told.
#[derive(Debug)]
pub enum Feedback {
    /// Nothing.
    Silent,
    /// That all went well.
    Info(String),
    /// That something failed.
    Error(String),
}

/// What the user is told of a restart. In a package the server is started again; a failure of that
/// is not told. Outside it the service is restarted.
pub fn restart_service_with_feedback(msix: bool, outcome: Result<(), String>) -> (r: Feedback)
    ensures
        match (msix, outcome) {
            (true, Ok(_)) => r matches Feedback::Info(m) && m@ == "Đã khởi động lại print-util."@,
            (true, Err(_)) => r is Silent,
            (false, Ok(_)) => r matches Feedback::Info(m) && m@
                == "Đã khởi động lại dịch vụ 'print-util' thành công."@,
            (false, Err(cause)) => r matches Feedback::Error(m) && m@
                == "Khởi động lại dịch vụ thất bại:\n"@ + cause@
                + "\n\nHãy mở Terminal (Run as Administrator) và chạy:\nsc stop print-util\nsc start print-util"@,
        },
{
    match outcome {
        Ok(_) => {
            if msix {
                Feedback::Info(text::owned("Đã khởi động lại print-util."))
            } else {
                Feedback::Info(text::owned("Đã khởi động lại dịch vụ 'print-util' thành công."))
            }
        },
        Err(cause) => {
            if msix {
                Feedback::Silent
            } else {
                Feedback::Error(
                    text::concat3(
                        "Khởi động lại dịch vụ thất bại:\n",
                        cause.as_str(),
                        "\n\nHãy mở Terminal (Run as Administrator) và chạy:\nsc stop print-util\nsc start print-util",
                    ),
                )
            }
        },
    }
}

/// The script that restarts the service.
pub const RESTART_SCRIPT: &'static str = "$ErrorActionPreference = 'Stop'\nStop-Service -Name 'print-util' -ErrorAction Stop\nStart-Sleep -Milliseconds 1200\nStart-Service -Name 'print-util' -ErrorAction Stop\n";

/// The name of the file that the script is written to.
pub const RESTART_SCRIPT_NAME: &'static str = "print-util-restart-service.ps1";

/// A text for PowerShell between single quotes: each single quote in it is doubled.
pub fn ps_single_quote(input: &str) -> (r: String)
    ensures
        r@ == text::replaced(input@, "'"@, "''"@),
{
    proof {
        reveal_strlit("'");
    }
    text::replace(input, "'", "''")
}

/// The command that runs the script as administrator and waits for its end.
pub open spec fn elevate_line(script: Seq<char>) -> Seq<char> {
    "$ErrorActionPreference='Stop';$argList=@('-NoProfile','-ExecutionPolicy','Bypass','-File','"@
        + text::replaced(script, "'"@, "''"@)
        + "');$p=Start-Process -FilePath 'powershell.exe' -Verb RunAs -PassThru -Wait -ArgumentList $argList;exit $p.ExitCode"@
}

/// The arguments of PowerShell that run the script as administrator.
pub fn restart_args(script: &str) -> (r: Vec<String>)
    ensures
        text::texts(r@) == seq![
            "-NoLogo"@,
            "-NoProfile"@,
            "-ExecutionPolicy"@,
            "Bypass"@,
            "-Command"@,
            elevate_line(script@),
        ],
{
    let quoted = ps_single_quote(script);
    let command = text::concat3(
        "$ErrorActionPreference='Stop';$argList=@('-NoProfile','-ExecutionPolicy','Bypass','-File','",
        quoted.as_str(),
        "');$p=Start-Process -FilePath 'powershell.exe' -Verb RunAs -PassThru -Wait -ArgumentList $argList;exit $p.ExitCode",
    );
    let mut r: Vec<String> = Vec::new();
    assert(text::texts(r@) =~= seq![]);
    text::add_text(&mut r, "-NoLogo");
    text::add_text(&mut r, "-NoProfile");
    text::add_text(&mut r, "-ExecutionPolicy");
    text::add_text(&mut r, "Bypass");
    text::add_text(&mut r, "-Command");
    text::add_text(&mut r, command.as_str());
    assert(text::texts(r@) =~= seq![
        "-NoLogo"@,
        "-NoProfile"@,
        "-ExecutionPolicy"@,
        "Bypass"@,
        "-Command"@,
        elevate_line(script@),
    ]);
    r
}

/// What a failed restart told on its two outputs, without white space around.
pub open spec fn told(stdout: Seq<char>, stderr: Seq<char>) -> Seq<char> {
    text::trimmed(text::trimmed(stdout) + "\n"@ + text::trimmed(stderr))
}

/// The failure of a restart: what it told, or its status if it told nothing.
pub fn restart_failure(status: &str, stdout: &str, stderr: &str) -> (r: String)
    ensures
        r@ == if told(stdout@, stderr@).len() == 0 {
            "restart failed with status "@ + status@
        } else {
            "restart failed: "@ + told(stdout@, stderr@)
        },
{
    let a = text::trim(stdout);
    let b = text::trim(stderr);
    let both = text::concat3(a.as_str(), "\n", b.as_str());
    let detail = text::trim(both.as_str());
    if detail.as_str().is_empty() {
        text::concat2("restart failed with status ", status)
    } else {
        text::concat2("restart failed: ", detail.as_str())
    }
}

/// What came of a restart, given the outputs as bytes.
pub fn restarted(success: bool, status: &str, stdout: &Vec<u8>, stderr: &Vec<u8>) -> (r: Result<
    (),
    String,
>)
    ensures
        r is Ok <==> success,
        r matches Err(m) ==> m@ == if told(
            unicode::utf8_lossy(stdout@),
            unicode::utf8_lossy(stderr@),
        ).len() == 0 {
            "restart failed with status "@ + status@
        } else {
            "restart failed: "@ + told(unicode::utf8_lossy(stdout@), unicode::utf8_lossy(stderr@))
        },
{
    if success {
        return Ok(());
    }
    let out = unicode::lossy(stdout);
    let err = unicode::lossy(stderr);
    Err(restart_failure(status, out.as_str(), err.as_str()))
}

/// The directory for the data of the program: that of the user in a package, and that of the
/// machine outside it.
pub fn config_base(msix: bool, local: Option<&str>, program: Option<&str>) -> (r: String)
    ensures
        r@ == if msix {
            match local {
                Some(d) => d@,
                None => r"C:\Users\Public\AppData\Local"@,
            }
        } else {
            match program {
                Some(d) => d@,
                None => r"C:\ProgramData"@,
            }
        },
{
    if msix {
        match local {
            Some(d) => text::owned(d),
            None => text::owned(r"C:\Users\Public\AppData\Local"),
        }
    } else {
        match program {
            Some(d) => text::owned(d),
            None => text::owned(r"C:\ProgramData"),
        }
    }
}

/// The place of the icon file below the directory for programs.
pub open spec fn installed_icon() -> place::PlaceView {
    place::PlaceView { root: Root::ProgramFiles, steps: seq!["print-util"@, "vnpt.ico"@] }
}

/// The places of the icon file, in order: below the directory of the program and the one it was
/// started in, if that of the program is known; then below the directory for programs, if that is
/// known.
pub open spec fn icon_places(exe_known: bool, programs_known: bool) -> Seq<place::PlaceView> {
    (if exe_known {
        seq![
            place::PlaceView { root: Root::ExeDir, steps: seq!["vnpt.ico"@] },
            place::PlaceView { root: Root::ExeDir, steps: seq!["assets"@, "vnpt.ico"@] },
            place::PlaceView { root: Root::WorkDir, steps: seq!["vnpt.ico"@] },
            place::PlaceView {
                root: Root::WorkDir,
                steps: seq!["installer"@, "vendor"@, "vnpt.ico"@],
            },
        ]
    } else {
        seq![]
    }) + (if programs_known {
        seq![installed_icon()]
    } else {
        seq![]
    })
}

/// The places where the icon file may be, in order: the one that the user names, if it is there,
/// and otherwise those below the known directories.
pub fn icon_candidates(explicit_exists: bool, exe_known: bool, programs_known: bool) -> (r: Vec<
    Place,
>)
    ensures
        place::places(r@) == if explicit_exists {
            seq![place::PlaceView { root: Root::Explicit, steps: seq![] }]
        } else {
            icon_places(exe_known, programs_known)
        },
{
    let mut r: Vec<Place> = Vec::new();
    assert(place::places(r@) =~= seq![]);
    if explicit_exists {
        place::add_place(&mut r, place::place0(Root::Explicit));
        assert(place::places(r@) =~= seq![
            place::PlaceView { root: Root::Explicit, steps: seq![] },
        ]);
        return r;
    }
    if exe_known {
        place::add_place(&mut r, place::place1(Root::ExeDir, "vnpt.ico"));
        place::add_place(&mut r, place::place2(Root::ExeDir, "assets", "vnpt.ico"));
        place::add_place(&mut r, place::place1(Root::WorkDir, "vnpt.ico"));
        place::add_place(&mut r, place::place3(Root::WorkDir, "installer", "vendor", "vnpt.ico"));
    }
    if programs_known {
        place::add_place(&mut r, place::place2(Root::ProgramFiles, "print-util", "vnpt.ico"));
    }
    assert(place::places(r@) =~= icon_places(exe_known, programs_known));
    r
}

/// An icon file below the directory for programs is found when there is none at the other places:
/// its place is the last one, whatever else is known.
pub proof fn an_installed_icon_is_found(exe_known: bool, present: Seq<bool>)
    requires
        present.len() == icon_places(exe_known, true).len(),
        present.last(),
        forall|i: int| 0 <= i < present.len() - 1 ==> !present[i],
    ensures
        place::is_first(present, present.len() - 1),
        icon_places(exe_known, true)[present.len() - 1] == installed_icon(),
{
}

/// Each entry of the menu does something.
pub proof fn every_entry_does_something(i: int)
    requires
        0 <= i < menu_entries().len(),
    ensures
        menu_entries()[i] matches MenuItemView::Entry(id, _) ==> on_menu(id as int)
            != TrayAction::Ignore,
{
}

/// What PowerShell reads behind an opening single quote: a doubled quote stands for one, and a
/// single one ends the text.
pub open spec fn read_quoted(t: Seq<char>) -> Option<Seq<char>>
    decreases t.len(),
{
    if t.len() == 0 {
        None
    } else if t[0] != '\'' {
        match read_quoted(t.skip(1)) {
            Some(r) => Some(seq![t[0]] + r),
            None => None,
        }
    } else if t.len() > 1 && t[1] == '\'' {
        match read_quoted(t.skip(2)) {
            Some(r) => Some(seq!['\''] + r),
            None => None,
        }
    } else {
        Some(seq![])
    }
}

/// PowerShell reads a quoted text as the text itself, and ends it where the quotation ends.
pub proof fn reading_undoes_quoting(s: Seq<char>, rest: Seq<char>)
    requires
        rest.len() == 0 || rest[0] != '\'',
    ensures
        read_quoted(text::replaced(s, "'"@, "''"@) + "'"@ + rest) == Some(s),
    decreases s.len(),
{
    reveal_strlit("'");
    reveal_strlit("''");
    let q = text::replaced(s, "'"@, "''"@);
    let t = q + "'"@ + rest;
    if s.len() == 0 {
        assert(t[0] == '\'');
        assert(t.len() > 1 ==> t[1] == rest[0]);
        assert(s =~= seq![]);
    } else {
        let tail = text::replaced(s.skip(1), "'"@, "''"@);
        reading_undoes_quoting(s.skip(1), rest);
        assert(s =~= seq![s[0]] + s.skip(1));
        assert(s.subrange(0, 1)[0] == s[0]);
        if s[0] == '\'' {
            assert(s.subrange(0, 1) =~= "'"@);
            assert(q =~= "''"@ + tail);
            assert(t[0] == '\'' && t[1] == '\'');
            assert(t.skip(2) =~= tail + "'"@ + rest);
        } else {
            assert("'"@[0] == '\'');
            assert(q =~= seq![s[0]] + tail);
            assert(t[0] == s[0]);
            assert(t.skip(1) =~= tail + "'"@ + rest);
        }
    }
}

/// The icon file is looked for in four places beside the program and where it was started, in this
/// order, if the directory of the program is known, and in none of them otherwise; behind them it is
/// looked for below the directory for programs, if that is known.
pub proof fn where_the_icon_is_looked_for(programs_known: bool)
    ensures
        icon_places(true, programs_known) == seq![
            place::PlaceView { root: Root::ExeDir, steps: seq!["vnpt.ico"@] },
            place::PlaceView { root: Root::ExeDir, steps: seq!["assets"@, "vnpt.ico"@] },
            place::PlaceView { root: Root::WorkDir, steps: seq!["vnpt.ico"@] },
            place::PlaceView {
                root: Root::WorkDir,
                steps: seq!["installer"@, "vendor"@, "vnpt.ico"@],
            },
        ] + icon_places(false, programs_known),
        icon_places(false, true) == seq![
            place::PlaceView {
                root: Root::ProgramFiles,
                steps: seq!["print-util"@, "vnpt.ico"@],
            },
        ],
        icon_places(false, false).len() == 0,
{
    assert(icon_places(false, true) =~= seq![
        place::PlaceView { root: Root::ProgramFiles, steps: seq!["print-util"@, "vnpt.ico"@] },
    ]);
    assert(icon_places(true, programs_known) =~= seq![
        place::PlaceView { root: Root::ExeDir, steps: seq!["vnpt.ico"@] },
        place::PlaceView { root: Root::ExeDir, steps: seq!["assets"@, "vnpt.ico"@] },
        place::PlaceView { root: Root::WorkDir, steps: seq!["vnpt.ico"@] },
        place::PlaceView { root: Root::WorkDir, steps: seq!["installer"@, "vendor"@, "vnpt.ico"@] },
    ] + icon_places(false, programs_known));
}

/// What a failed restart told on both outputs is told in full, the first output before the second
/// with a line break between; an output of white space only adds nothing, and nothing is told if
/// both are.
pub proof fn both_outputs_are_told(a: Seq<char>, b: Seq<char>)
    ensures
        !text::blank(a) && !text::blank(b) ==> told(a, b) == text::trimmed(a) + seq!['\n']
            + text::trimmed(b),
        text::blank(b) ==> told(a, b) == text::trimmed(a),
        text::blank(a) ==> told(a, b) == text::trimmed(b),
        told(a, b).len() == 0 <==> text::blank(a) && text::blank(b),
{
    reveal_strlit("\n");
    text::only_blank_texts_are_trimmed_away(a);
    text::only_blank_texts_are_trimmed_away(b);
    text::a_text_is_its_trimmed_form_in_white_space(a);
    text::a_text_is_its_trimmed_form_in_white_space(b);
    let x = text::trimmed(a);
    let y = text::trimmed(b);
    let nl = "\n"@;
    assert(nl =~= seq!['\n']);
    assert(text::blank(nl));
    let none = Seq::<char>::empty();
    if y.len() == 0 {
        assert(x + nl + y =~= none + x + nl);
        text::trimming_keeps_what_is_inside(none, x, nl);
    } else if x.len() == 0 {
        assert(x + nl + y =~= nl + y + none);
        text::trimming_keeps_what_is_inside(nl, y, none);
    } else {
        let v = x + nl + y;
        assert(v =~= none + v + none);
        assert(v[0] == x[0]);
        assert(v[v.len() - 1] == y[y.len() - 1]);
        text::trimming_keeps_what_is_inside(none, v, none);
    }
}

/// What the events on the icon and the entries of the menu do, by the numbers that the system and
/// the menu give them. Only the low 16 bits of a parameter count.
pub proof fn what_messages_do(wparam: usize, lparam: usize, message: u32)
    ensures
        action_of(0x8001, wparam, lparam) == TrayAction::ShowMenu <==> {
            ||| lparam % 0x10000 == 0x0205
            ||| lparam % 0x10000 == 0x007b
            ||| lparam % 0x10000 == 0x0202
        },
        action_of(0x8001, wparam, lparam) == TrayAction::OpenConfig <==> lparam % 0x10000 == 0x0203,
        action_of(0x8001, wparam, lparam) == TrayAction::ShowMenu || action_of(
            0x8001,
            wparam,
            lparam,
        ) == TrayAction::OpenConfig || action_of(0x8001, wparam, lparam) == TrayAction::Ignore,
        action_of(0x0111, wparam, lparam) == TrayAction::OpenSupport <==> wparam % 0x10000 == 1001,
        action_of(0x0111, wparam, lparam) == TrayAction::OpenConfig <==> wparam % 0x10000 == 1002,
        action_of(0x0111, wparam, lparam) == TrayAction::Restart <==> wparam % 0x10000 == 1003,
        action_of(0x0111, wparam, lparam) == TrayAction::Close <==> wparam % 0x10000 == 1099,
        action_of(message, wparam, lparam) == TrayAction::Quit <==> message == 0x0002,
        action_of(message, wparam, lparam) == TrayAction::PassOn <==> message != 0x8001 && message
            != 0x0111 && message != 0x0002,
{
}

/// The command for PowerShell holds the path of the script between single quotes, so that PowerShell
/// reads the path behind the option for a file whatever characters it has.
pub proof fn the_command_names_the_script(script: Seq<char>)
    ensures
        ({
            let head =
                "$ErrorActionPreference='Stop';$argList=@('-NoProfile','-ExecutionPolicy','Bypass','-File','"@;
            &&& elevate_line(script).take(head.len() as int) == head
            &&& read_quoted(elevate_line(script).skip(head.len() as int)) == Some(script)
        }),
{
    let head =
        "$ErrorActionPreference='Stop';$argList=@('-NoProfile','-ExecutionPolicy','Bypass','-File','"@;
    let tail =
        "');$p=Start-Process -FilePath 'powershell.exe' -Verb RunAs -PassThru -Wait -ArgumentList $argList;exit $p.ExitCode"@;
    reveal_strlit(
        "');$p=Start-Process -FilePath 'powershell.exe' -Verb RunAs -PassThru -Wait -ArgumentList $argList;exit $p.ExitCode",
    );
    reveal_strlit("'");
    let q = text::replaced(script, "'"@, "''"@);
    let line = elevate_line(script);
    assert(line.take(head.len() as int) =~= head);
    let rest = tail.skip(1);
    assert(tail =~= "'"@ + rest);
    assert(rest[0] == ')');
    assert(line.skip(head.len() as int) =~= q + "'"@ + rest);
    reading_undoes_quoting(script, rest);
}

/// A new configuration file names the address at which the server listens.
pub proof fn the_configuration_names_the_server()
    ensures
        API_BASE@ == "http://127.0.0.1:"@ + decimal::digits_of(server::DEFAULT_PORT as nat),
{
    reveal_strlit("http://127.0.0.1:");
    reveal_strlit("http://127.0.0.1:17474");
    reveal_with_fuel(decimal::digits_of, 5);
    let d = decimal::digits_of(17474);
    assert(d =~= seq!['1', '7', '4', '7', '4']);
    assert("http://127.0.0.1:"@ + d =~= API_BASE@);
}

} // verus!
