//! The engines that print a file, in the order in which they are tried, and how each is run.
use crate::decimal;
use crate::paper;
use crate::paper::PaperSize;
use crate::place;
use crate::place::{Place, Root};
use crate::text;
use crate::unicode;
use crate::wide;
use vstd::prelude::*;
use vstd::string::*;

verus! {

/// An engine.
#[derive(Clone, Copy, Debug, PartialEq, Eq, Structural)]
pub enum Engine {
    Sumatra,
    GhostscriptCli,
    GhostscriptDll,
    Acrobat,
    /// The program that the system opens PDF files with.
    Shell,
}

/// What came of an engine.
#[derive(Debug)]
pub enum Attempt {
    /// The file was handed to the printer.
    Printed,
    /// The engine is not there.
    Absent,
    /// The engine failed.
    Failed(String),
}

/// The model of what came of an engine.
pub enum AttemptView {
    Printed,
    Absent,
    Failed(Seq<char>),
}

/// What to do next.
#[derive(Debug)]
pub enum PrintStep {
    /// Try this engine.
    Try(Engine),
    /// The file was printed.
    Done,
    /// The file cannot be printed.
    Fail(String),
}

/// The model of what to do next.
pub enum StepView {
    Try(Engine),
    Done,
    Fail(Seq<char>),
}

impl View for Attempt {
    type V = AttemptView;

    open spec fn view(&self) -> AttemptView {
        match self {
            Attempt::Printed => AttemptView::Printed,
            Attempt::Absent => AttemptView::Absent,
            Attempt::Failed(m) => AttemptView::Failed(m@),
        }
    }
}

impl View for PrintStep {
    type V = StepView;

    open spec fn view(&self) -> StepView {
        match self {
            PrintStep::Try(e) => StepView::Try(*e),
            PrintStep::Done => StepView::Done,
            PrintStep::Fail(m) => StepView::Fail(m@),
        }
    }
}

/// The engine that is tried when this one is not there.
pub open spec fn next_engine(e: Engine) -> Option<Engine> {
    match e {
        Engine::Sumatra => Some(Engine::GhostscriptCli),
        Engine::GhostscriptCli => Some(Engine::GhostscriptDll),
        Engine::GhostscriptDll => Some(Engine::Acrobat),
        Engine::Acrobat => Some(Engine::Shell),
        Engine::Shell => None,
    }
}

/// What to do after an engine was tried. When none is there, the file cannot be printed.
pub open spec fn step_after(e: Engine, a: AttemptView) -> StepView {
    match a {
        AttemptView::Printed => StepView::Done,
        AttemptView::Failed(m) => StepView::Fail(m),
        AttemptView::Absent => match next_engine(e) {
            Some(n) => StepView::Try(n),
            None => StepView::Fail("no print engine found"@),
        },
    }
}

/// What to do at the start, or after an engine was tried.
pub fn windows_print(last: Option<(Engine, Attempt)>) -> (r: PrintStep)
    ensures
        r@ == match last {
            None => StepView::Try(Engine::Sumatra),
            Some((e, a)) => step_after(e, a@),
        },
{
    match last {
        None => PrintStep::Try(Engine::Sumatra),
        Some((e, a)) => {
            match a {
                Attempt::Printed => PrintStep::Done,
                Attempt::Failed(m) => PrintStep::Fail(m),
                Attempt::Absent => {
                    match e {
                        Engine::Sumatra => PrintStep::Try(Engine::GhostscriptCli),
                        Engine::GhostscriptCli => PrintStep::Try(Engine::GhostscriptDll),
                        Engine::GhostscriptDll => PrintStep::Try(Engine::Acrobat),
                        Engine::Acrobat => PrintStep::Try(Engine::Shell),
                        Engine::Shell => PrintStep::Fail(text::owned("no print engine found")),
                    }
                },
            }
        },
    }
}

/// The path of a program below a directory, if the directory is known.
pub open spec fn below(dir: Option<Seq<char>>, tail: Seq<char>) -> Seq<Seq<char>> {
    match dir {
        Some(d) => seq![d + tail],
        None => seq![],
    }
}

/// The paths where SumatraPDF may be: on the search path, installed for the machine, and installed
/// for the user.
pub open spec fn sumatra_paths(
    programs: Option<Seq<char>>,
    programs_x86: Option<Seq<char>>,
    local: Option<Seq<char>>,
) -> Seq<Seq<char>> {
    seq!["SumatraPDF.exe"@] + below(programs, r"\SumatraPDF\SumatraPDF.exe"@) + below(
        programs_x86,
        r"\SumatraPDF\SumatraPDF.exe"@,
    ) + below(local, r"\SumatraPDF\SumatraPDF.exe"@) + below(
        local,
        r"\Programs\SumatraPDF\SumatraPDF.exe"@,
    )
}

/// The paths below one directory where Acrobat may be.
pub open spec fn acrobat_below(programs: Option<Seq<char>>) -> Seq<Seq<char>> {
    below(programs, r"\Adobe\Acrobat DC\Acrobat\Acrobat.exe"@) + below(
        programs,
        r"\Adobe\Acrobat Reader DC\Reader\AcroRd32.exe"@,
    ) + below(programs, r"\Adobe\Reader 11.0\Reader\AcroRd32.exe"@)
}

/// Adds the path of a program below a directory, if the directory is known.
fn add_below(row: &mut Vec<String>, dir: Option<&str>, tail: &str)
    ensures
        text::texts(final(row)@) == text::texts(old(row)@) + below(text::opt_str(dir), tail@),
{
    match dir {
        Some(d) => {
            text::add_text(row, text::concat2(d, tail).as_str());
        },
        None => {},
    }
    assert(text::texts(row@) =~= text::texts(old(row)@) + below(text::opt_str(dir), tail@));
}

/// The paths where SumatraPDF may be, in order.
pub fn sumatra_candidates(
    programs: Option<&str>,
    programs_x86: Option<&str>,
    local: Option<&str>,
) -> (r: Vec<String>)
    ensures
        text::texts(r@) == sumatra_paths(
            text::opt_str(programs),
            text::opt_str(programs_x86),
            text::opt_str(local),
        ),
{
    let mut r: Vec<String> = Vec::new();
    assert(text::texts(r@) =~= seq![]);
    text::add_text(&mut r, "SumatraPDF.exe");
    assert(text::texts(r@) =~= seq!["SumatraPDF.exe"@]);
    add_below(&mut r, programs, r"\SumatraPDF\SumatraPDF.exe");
    add_below(&mut r, programs_x86, r"\SumatraPDF\SumatraPDF.exe");
    add_below(&mut r, local, r"\SumatraPDF\SumatraPDF.exe");
    add_below(&mut r, local, r"\Programs\SumatraPDF\SumatraPDF.exe");
    r
}

/// The paths where Acrobat may be, in order.
pub fn acrobat_candidates(programs: Option<&str>, programs_x86: Option<&str>) -> (r: Vec<String>)
    ensures
        text::texts(r@) == acrobat_below(text::opt_str(programs)) + acrobat_below(
            text::opt_str(programs_x86),
        ),
{
    let mut r: Vec<String> = Vec::new();
    assert(text::texts(r@) =~= seq![]);
    add_below(&mut r, programs, r"\Adobe\Acrobat DC\Acrobat\Acrobat.exe");
    add_below(&mut r, programs, r"\Adobe\Acrobat Reader DC\Reader\AcroRd32.exe");
    add_below(&mut r, programs, r"\Adobe\Reader 11.0\Reader\AcroRd32.exe");
    add_below(&mut r, programs_x86, r"\Adobe\Acrobat DC\Acrobat\Acrobat.exe");
    add_below(&mut r, programs_x86, r"\Adobe\Acrobat Reader DC\Reader\AcroRd32.exe");
    add_below(&mut r, programs_x86, r"\Adobe\Reader 11.0\Reader\AcroRd32.exe");
    assert(text::texts(r@) =~= acrobat_below(text::opt_str(programs)) + acrobat_below(
        text::opt_str(programs_x86),
    ));
    r
}

/// The directory below which the versions of Ghostscript are installed.
pub fn gs_dir(programs: &str) -> (r: String)
    ensures
        r@ == programs@ + r"\gs"@,
{
    text::concat2(programs, r"\gs")
}

/// The places of the programs of so many installed versions of Ghostscript.
pub open spec fn gs_installed(n: nat) -> Seq<place::PlaceView>
    decreases n,
{
    if n == 0 {
        seq![]
    } else {
        let root = Root::Installed((n - 1) as usize);
        gs_installed((n - 1) as nat).push(
            place::PlaceView { root, steps: seq!["bin"@, "gswin64c.exe"@] },
        ).push(place::PlaceView { root, steps: seq!["bin"@, "gswin32c.exe"@] })
    }
}

/// The places where Ghostscript may be: on the search path, then the installed versions.
pub open spec fn gs_places(installed: nat) -> Seq<place::PlaceView> {
    seq![
        place::PlaceView { root: Root::Bare, steps: seq!["gswin64c.exe"@] },
        place::PlaceView { root: Root::Bare, steps: seq!["gswin32c.exe"@] },
        place::PlaceView { root: Root::Bare, steps: seq!["gs.exe"@] },
    ] + gs_installed(installed)
}

/// The places where Ghostscript may be, in order.
pub fn ghostscript_candidates(installed: usize) -> (r: Vec<Place>)
    ensures
        place::places(r@) == gs_places(installed as nat),
{
    let mut r: Vec<Place> = Vec::new();
    assert(place::places(r@) =~= seq![]);
    place::add_place(&mut r, place::place1(Root::Bare, "gswin64c.exe"));
    place::add_place(&mut r, place::place1(Root::Bare, "gswin32c.exe"));
    place::add_place(&mut r, place::place1(Root::Bare, "gs.exe"));
    assert(place::places(r@) =~= gs_places(0));
    let mut i: usize = 0;
    while i < installed
        invariant
            i <= installed,
            place::places(r@) == gs_places(i as nat),
        decreases installed - i,
    {
        place::add_place(&mut r, place::place2(Root::Installed(i), "bin", "gswin64c.exe"));
        place::add_place(&mut r, place::place2(Root::Installed(i), "bin", "gswin32c.exe"));
        i = i + 1;
        assert(place::places(r@) =~= gs_places(i as nat));
    }
    r
}

/// The places of the library of so many installed versions of Ghostscript.
pub open spec fn gsdll_installed(n: nat) -> Seq<place::PlaceView> {
    Seq::new(
        n,
        |i: int|
            place::PlaceView {
                root: Root::Installed(i as usize),
                steps: seq!["bin"@, "gsdll64.dll"@],
            },
    )
}

/// The places where the library of Ghostscript may be: beside the program, if its directory is
/// known, then in the installed versions.
pub open spec fn gsdll_places(exe_known: bool, installed: nat) -> Seq<place::PlaceView> {
    (if exe_known {
        seq![
            place::PlaceView { root: Root::ExeDir, steps: seq!["gsdll64.dll"@] },
            place::PlaceView { root: Root::ExeDir, steps: seq!["vendor"@, "gs"@, "gsdll64.dll"@] },
        ]
    } else {
        seq![]
    }) + gsdll_installed(installed)
}

/// The places where the library of Ghostscript may be, in order.
pub fn gsdll_candidates(exe_known: bool, installed: usize) -> (r: Vec<Place>)
    ensures
        place::places(r@) == gsdll_places(exe_known, installed as nat),
{
    let mut r: Vec<Place> = Vec::new();
    assert(place::places(r@) =~= seq![]);
    if exe_known {
        place::add_place(&mut r, place::place1(Root::ExeDir, "gsdll64.dll"));
        place::add_place(&mut r, place::place3(Root::ExeDir, "vendor", "gs", "gsdll64.dll"));
    }
    assert(place::places(r@) =~= gsdll_places(exe_known, 0));
    let mut i: usize = 0;
    while i < installed
        invariant
            i <= installed,
            place::places(r@) == gsdll_places(exe_known, i as nat),
        decreases installed - i,
    {
        place::add_place(&mut r, place::place2(Root::Installed(i), "bin", "gsdll64.dll"));
        i = i + 1;
        assert(place::places(r@) =~= gsdll_places(exe_known, i as nat));
    }
    r
}

/// Whether a program can be run: one that is named without a directory if a directory of the search
/// path holds it, and any other if it is a file.
pub fn is_executable(components: usize, on_search_path: bool, is_file: bool) -> (r: bool)
    ensures
        r == if components == 1 {
            on_search_path
        } else {
            is_file
        },
{
    if components == 1 {
        on_search_path
    } else {
        is_file
    }
}

/// Whether a program is on the search path, given which directories of the path hold it.
pub fn which_in_path(holds: &Vec<bool>) -> (r: bool)
    ensures
        r == exists|i: int| 0 <= i < holds@.len() && holds@[i],
{
    place::first_present(holds).is_some()
}

/// The arguments of SumatraPDF.
pub open spec fn sumatra_line(
    path: Seq<char>,
    printer: Option<Seq<char>>,
    size: PaperSize,
) -> Seq<Seq<char>> {
    (match printer {
        Some(p) => seq!["-print-to"@, p],
        None => seq!["-print-to-default"@],
    }) + seq!["-print-settings"@, "paper="@ + paper::capital_name(size), "-silent"@, path]
}

/// The arguments of SumatraPDF.
pub fn sumatra_args(path: &str, printer: Option<&str>, size: PaperSize) -> (r: Vec<String>)
    ensures
        text::texts(r@) == sumatra_line(path@, text::opt_str(printer), size),
{
    let mut r: Vec<String> = Vec::new();
    assert(text::texts(r@) =~= seq![]);
    match printer {
        Some(p) => {
            text::add_text(&mut r, "-print-to");
            text::add_text(&mut r, p);
        },
        None => {
            text::add_text(&mut r, "-print-to-default");
        },
    }
    text::add_text(&mut r, "-print-settings");
    text::add_text(&mut r, text::concat2("paper=", size.sumatra_name()).as_str());
    text::add_text(&mut r, "-silent");
    text::add_text(&mut r, path);
    assert(text::texts(r@) =~= sumatra_line(path@, text::opt_str(printer), size));
    r
}

/// The printer for an engine that must be given one: the one that was asked for, or the default
/// printer of the system.
pub fn target_printer(printer: Option<&str>, default: Option<&str>) -> (r: Result<String, String>)
    ensures
        match (printer, default) {
            (Some(p), _) => r matches Ok(t) && t@ == p@,
            (None, Some(d)) => r matches Ok(t) && t@ == d@,
            (None, None) => r matches Err(m) && m@ == "no default printer found"@,
        },
{
    match printer {
        Some(p) => Ok(text::owned(p)),
        None => match default {
            Some(d) => Ok(text::owned(d)),
            None => Err(text::owned("no default printer found")),
        },
    }
}

/// The arguments of the Ghostscript program.
pub open spec fn gs_line(
    path: Seq<char>,
    target: Seq<char>,
    size: PaperSize,
    job: Seq<char>,
) -> Seq<Seq<char>> {
    seq![
        "-dBATCH"@,
        "-dNOPAUSE"@,
        "-dNOSAFER"@,
        "-dNoCancel"@,
        "-dFIXEDMEDIA"@,
        "-q"@,
        "-sPAPERSIZE="@ + paper::small_name(size),
        "-sDEVICE=mswinpr2"@,
        "-sDocumentName="@ + job,
        "-sOutputFile=%printer%"@ + target,
        path,
    ]
}

/// The arguments of the Ghostscript program. The printer is always named, for without it the
/// program would ask for one and wait.
pub fn gs_args(path: &str, target: &str, size: PaperSize, job: &str) -> (r: Vec<String>)
    ensures
        text::texts(r@) == gs_line(path@, target@, size, job@),
{
    let mut r: Vec<String> = Vec::new();
    assert(text::texts(r@) =~= seq![]);
    text::add_text(&mut r, "-dBATCH");
    text::add_text(&mut r, "-dNOPAUSE");
    text::add_text(&mut r, "-dNOSAFER");
    text::add_text(&mut r, "-dNoCancel");
    text::add_text(&mut r, "-dFIXEDMEDIA");
    text::add_text(&mut r, "-q");
    text::add_text(&mut r, text::concat2("-sPAPERSIZE=", size.gs_name()).as_str());
    text::add_text(&mut r, "-sDEVICE=mswinpr2");
    text::add_text(&mut r, text::concat2("-sDocumentName=", job).as_str());
    text::add_text(&mut r, text::concat2("-sOutputFile=%printer%", target).as_str());
    text::add_text(&mut r, path);
    assert(text::texts(r@) =~= gs_line(path@, target@, size, job@));
    r
}

/// The arguments of the Ghostscript library, the name of the program first.
pub open spec fn gsdll_line(
    path: Seq<char>,
    target: Seq<char>,
    size: PaperSize,
    job: Seq<char>,
) -> Seq<Seq<char>> {
    seq![
        "gs"@,
        "-dBATCH"@,
        "-dNOPAUSE"@,
        "-dNOSAFER"@,
        "-dNoCancel"@,
        "-dFIXEDMEDIA"@,
        "-sPAPERSIZE="@ + paper::small_name(size),
        "-q"@,
        "-sDEVICE=mswinpr2"@,
        "-sDocumentName="@ + job,
        "-sOutputFile=%printer%"@ + target,
        path,
    ]
}

/// The arguments of the Ghostscript library.
pub fn gsdll_args(path: &str, target: &str, size: PaperSize, job: &str) -> (r: Vec<String>)
    ensures
        text::texts(r@) == gsdll_line(path@, target@, size, job@),
{
    let mut r: Vec<String> = Vec::new();
    assert(text::texts(r@) =~= seq![]);
    text::add_text(&mut r, "gs");
    text::add_text(&mut r, "-dBATCH");
    text::add_text(&mut r, "-dNOPAUSE");
    text::add_text(&mut r, "-dNOSAFER");
    text::add_text(&mut r, "-dNoCancel");
    text::add_text(&mut r, "-dFIXEDMEDIA");
    text::add_text(&mut r, text::concat2("-sPAPERSIZE=", size.gs_name()).as_str());
    text::add_text(&mut r, "-q");
    text::add_text(&mut r, "-sDEVICE=mswinpr2");
    text::add_text(&mut r, text::concat2("-sDocumentName=", job).as_str());
    text::add_text(&mut r, text::concat2("-sOutputFile=%printer%", target).as_str());
    text::add_text(&mut r, path);
    assert(text::texts(r@) =~= gsdll_line(path@, target@, size, job@));
    r
}

/// The arguments of Acrobat.
pub open spec fn acrobat_line(path: Seq<char>, printer: Option<Seq<char>>) -> Seq<Seq<char>> {
    seq!["/h"@, "/t"@, path] + (match printer {
        Some(p) => seq![p],
        None => seq![],
    })
}

/// The arguments of Acrobat.
pub fn acrobat_args(path: &str, printer: Option<&str>) -> (r: Vec<String>)
    ensures
        text::texts(r@) == acrobat_line(path@, text::opt_str(printer)),
{
    let mut r: Vec<String> = Vec::new();
    assert(text::texts(r@) =~= seq![]);
    text::add_text(&mut r, "/h");
    text::add_text(&mut r, "/t");
    text::add_text(&mut r, path);
    match printer {
        Some(p) => {
            text::add_text(&mut r, p);
        },
        None => {},
    }
    assert(text::texts(r@) =~= acrobat_line(path@, text::opt_str(printer)));
    r
}

/// The arguments of `lp`.
pub open spec fn lp_line(
    path: Seq<char>,
    printer: Option<Seq<char>>,
    size: PaperSize,
    job: Seq<char>,
) -> Seq<Seq<char>> {
    (match printer {
        Some(p) => seq!["-d"@, p],
        None => seq![],
    }) + seq!["-t"@, job, "-o"@, "media="@ + paper::small_name(size), path]
}

/// The arguments of `lp`.
pub fn lp_args(path: &str, printer: Option<&str>, size: PaperSize, job: &str) -> (r: Vec<String>)
    ensures
        text::texts(r@) == lp_line(path@, text::opt_str(printer), size, job@),
{
    let mut r: Vec<String> = Vec::new();
    assert(text::texts(r@) =~= seq![]);
    match printer {
        Some(p) => {
            text::add_text(&mut r, "-d");
            text::add_text(&mut r, p);
        },
        None => {},
    }
    text::add_text(&mut r, "-t");
    text::add_text(&mut r, job);
    text::add_text(&mut r, "-o");
    text::add_text(&mut r, text::concat2("media=", size.lp_media()).as_str());
    text::add_text(&mut r, path);
    assert(text::texts(r@) =~= lp_line(path@, text::opt_str(printer), size, job@));
    r
}

/// The size that is set on the printer before an engine is started: Acrobat and the program of the
/// system take none in their requests.
pub open spec fn paper_on_printer(e: Engine, size: PaperSize) -> Option<PaperSize> {
    match e {
        Engine::Sumatra => None,
        Engine::GhostscriptCli => None,
        Engine::GhostscriptDll => None,
        Engine::Acrobat => Some(size),
        Engine::Shell => Some(size),
    }
}

/// The size that is to be set on the printer before an engine is started.
pub fn paper_to_set(e: Engine, size: PaperSize) -> (r: Option<PaperSize>)
    ensures
        r == paper_on_printer(e, size),
{
    match e {
        Engine::Sumatra => None,
        Engine::GhostscriptCli => None,
        Engine::GhostscriptDll => None,
        Engine::Acrobat => Some(size),
        Engine::Shell => Some(size),
    }
}

/// What came of a program that could not be started.
pub fn launch_failed(program: &str) -> (r: Attempt)
    ensures
        r@ == AttemptView::Failed("launch "@ + program@),
{
    Attempt::Failed(text::concat2("launch ", program))
}

/// What came of a program that ran to its end.
pub fn exited(program: &str, success: bool, status: &str) -> (r: Attempt)
    ensures
        r@ == if success {
            AttemptView::Printed
        } else {
            AttemptView::Failed(program@ + " exited with "@ + status@)
        },
{
    if success {
        Attempt::Printed
    } else {
        Attempt::Failed(text::concat3(program, " exited with ", status))
    }
}

/// What came of the Ghostscript program when it failed, given what it told of its troubles.
pub fn gs_failure(status: &str, told: &str) -> (r: Attempt)
    ensures
        r@ == AttemptView::Failed(
            "Ghostscript exited with "@ + status@ + ": "@ + text::trimmed(told@),
        ),
{
    let mut m = text::concat3("Ghostscript exited with ", status, ": ");
    m.append(text::trim(told).as_str());
    Attempt::Failed(m)
}

/// What came of the Ghostscript program, which tells its troubles on its error output.
pub fn gs_exited(success: bool, status: &str, stderr: &Vec<u8>) -> (r: Attempt)
    ensures
        r@ == if success {
            AttemptView::Printed
        } else {
            AttemptView::Failed(
                "Ghostscript exited with "@ + status@ + ": "@ + text::trimmed(
                    unicode::utf8_lossy(stderr@),
                ),
            )
        },
{
    if success {
        Attempt::Printed
    } else {
        gs_failure(status, unicode::lossy(stderr).as_str())
    }
}

/// Why the Ghostscript library cannot be set up, if so.
pub fn gs_created(code: i32) -> (r: Result<(), String>)
    ensures
        r is Ok <==> code == 0,
        r matches Err(m) ==> m@ == "gsapi_new_instance failed: "@ + decimal::signed_digits(
            code as int,
        ),
{
    if code == 0 {
        Ok(())
    } else {
        Err(text::concat2("gsapi_new_instance failed: ", decimal::render_signed(code).as_str()))
    }
}

/// What came of the Ghostscript library: it ends with zero, or with -101 when the job asks it to
/// quit.
pub fn gs_finished(code: i32) -> (r: Attempt)
    ensures
        r@ == if code == 0 || code == -101 {
            AttemptView::Printed
        } else {
            AttemptView::Failed(
                "gsapi_init_with_args failed: "@ + decimal::signed_digits(code as int),
            )
        },
{
    if code == 0 || code == -101 {
        Attempt::Printed
    } else {
        Attempt::Failed(
            text::concat2("gsapi_init_with_args failed: ", decimal::render_signed(code).as_str()),
        )
    }
}

/// What the system is asked for a file, in UTF-16.
#[derive(Debug)]
pub struct ShellRequest {
    pub verb: Vec<u16>,
    pub file: Vec<u16>,
    pub params: Option<Vec<u16>>,
}

/// The request to print a file on a printer in quotes, or on the default printer.
pub fn shell_print(path: &str, printer: Option<&str>) -> (r: ShellRequest)
    ensures
        r.file@ == wide::utf16(path@).push(0),
        match printer {
            Some(p) => r.verb@ == wide::utf16("printto"@).push(0) && (r.params matches Some(q)
                && q@ == wide::utf16("\""@ + p@ + "\""@).push(0)),
            None => r.verb@ == wide::utf16("print"@).push(0) && r.params is None,
        },
{
    let file = wide::to_wide(path);
    match printer {
        Some(p) => {
            let quoted = text::concat3("\"", p, "\"");
            ShellRequest {
                verb: wide::to_wide("printto"),
                file,
                params: Some(wide::to_wide(quoted.as_str())),
            }
        },
        None => ShellRequest { verb: wide::to_wide("print"), file, params: None },
    }
}

/// What a code of the system means.
pub open spec fn shell_error(code: int) -> Seq<char> {
    if code == 0 {
        "out of memory or resources"@
    } else if code == 2 {
        "file not found"@
    } else if code == 3 {
        "path not found"@
    } else if code == 5 {
        "access denied"@
    } else if code == 8 {
        "out of memory"@
    } else if code == 32 {
        "no application associated with this file type"@
    } else {
        "unknown error"@
    }
}

/// What a code of the system means.
pub fn shell_error_str(code: usize) -> (r: &'static str)
    ensures
        r@ == shell_error(code as int),
{
    match code {
        0 => "out of memory or resources",
        2 => "file not found",
        3 => "path not found",
        5 => "access denied",
        8 => "out of memory",
        32 => "no application associated with this file type",
        _ => "unknown error",
    }
}

/// What came of the request to the system, whose codes above 32 mean success.
pub fn shell_finished(code: usize) -> (r: Attempt)
    ensures
        r@ == if code > 32 {
            AttemptView::Printed
        } else {
            AttemptView::Failed(
                "ShellExecuteW failed (code="@ + decimal::digits_of(code as nat) + "): "@
                    + shell_error(code as int),
            )
        },
{
    if code > 32 {
        return Attempt::Printed;
    }
    let mut m = text::concat3(
        "ShellExecuteW failed (code=",
        decimal::render(code as u64).as_str(),
        "): ",
    );
    m.append(shell_error_str(code));
    Attempt::Failed(m)
}

/// The arguments of an engine; the program of the system gets none.
pub open spec fn line_of(
    e: Engine,
    path: Seq<char>,
    printer: Option<Seq<char>>,
    target: Seq<char>,
    size: PaperSize,
    job: Seq<char>,
) -> Seq<Seq<char>> {
    match e {
        Engine::Sumatra => sumatra_line(path, printer, size),
        Engine::GhostscriptCli => gs_line(path, target, size, job),
        Engine::GhostscriptDll => gsdll_line(path, target, size, job),
        Engine::Acrobat => acrobat_line(path, printer),
        Engine::Shell => seq![],
    }
}

/// An engine is told a size, by its arguments or by what was set on the printer.
pub open spec fn is_told(
    e: Engine,
    size: PaperSize,
    line: Seq<Seq<char>>,
    set: Option<PaperSize>,
) -> bool {
    match e {
        Engine::Sumatra => line.contains("paper="@ + paper::capital_name(size)),
        Engine::GhostscriptCli => line.contains("-sPAPERSIZE="@ + paper::small_name(size)),
        Engine::GhostscriptDll => line.contains("-sPAPERSIZE="@ + paper::small_name(size)),
        Engine::Acrobat => set == Some(size),
        Engine::Shell => set == Some(size),
    }
}

/// Every engine is told the size of the job, and so is `lp`.
pub proof fn every_engine_is_told_the_size(
    e: Engine,
    path: Seq<char>,
    printer: Option<Seq<char>>,
    target: Seq<char>,
    size: PaperSize,
    job: Seq<char>,
)
    ensures
        is_told(
            e,
            size,
            line_of(e, path, printer, target, size, job),
            paper_on_printer(e, size),
        ),
        lp_line(path, printer, size, job).contains("media="@ + paper::small_name(size)),
{
    let line = line_of(e, path, printer, target, size, job);
    match e {
        Engine::Sumatra => {
            assert(line[line.len() - 3] == "paper="@ + paper::capital_name(size));
        },
        Engine::GhostscriptCli => {
            assert(line[6] == "-sPAPERSIZE="@ + paper::small_name(size));
        },
        Engine::GhostscriptDll => {
            assert(line[6] == "-sPAPERSIZE="@ + paper::small_name(size));
        },
        Engine::Acrobat => {},
        Engine::Shell => {},
    }
    let lp = lp_line(path, printer, size, job);
    assert(lp[lp.len() - 2] == "media="@ + paper::small_name(size));
}

/// The place of an engine in the order.
pub open spec fn rank(e: Engine) -> int {
    match e {
        Engine::Sumatra => 0,
        Engine::GhostscriptCli => 1,
        Engine::GhostscriptDll => 2,
        Engine::Acrobat => 3,
        Engine::Shell => 4,
    }
}

/// What comes of trying engines from this one on, given what comes of each.
pub open spec fn run_from(e: Engine, outcome: spec_fn(Engine) -> AttemptView) -> AttemptView
    decreases 5 - rank(e),
{
    match step_after(e, outcome(e)) {
        StepView::Try(n) => if rank(n) == rank(e) + 1 {
            run_from(n, outcome)
        } else {
            AttemptView::Absent
        },
        StepView::Done => AttemptView::Printed,
        StepView::Fail(m) => AttemptView::Failed(m),
    }
}

/// The first engine that is there decides: when those before it are absent, what comes of it is
/// what comes of the job.
pub proof fn the_first_engine_that_is_there_decides(
    outcome: spec_fn(Engine) -> AttemptView,
    e: Engine,
)
    requires
        outcome(e) != AttemptView::Absent,
        forall|b: Engine| rank(b) < rank(e) ==> #[trigger] outcome(b) == AttemptView::Absent,
    ensures
        run_from(Engine::Sumatra, outcome) == outcome(e),
{
    reveal_with_fuel(run_from, 6);
    assert(rank(Engine::Sumatra) < rank(e) ==> outcome(Engine::Sumatra) == AttemptView::Absent);
    assert(rank(Engine::GhostscriptCli) < rank(e) ==> outcome(Engine::GhostscriptCli)
        == AttemptView::Absent);
    assert(rank(Engine::GhostscriptDll) < rank(e) ==> outcome(Engine::GhostscriptDll)
        == AttemptView::Absent);
    assert(rank(Engine::Acrobat) < rank(e) ==> outcome(Engine::Acrobat) == AttemptView::Absent);
}

/// When no engine is there, the job fails.
pub proof fn without_an_engine_the_job_fails(outcome: spec_fn(Engine) -> AttemptView)
    requires
        forall|e: Engine| #[trigger] outcome(e) == AttemptView::Absent,
    ensures
        run_from(Engine::Sumatra, outcome) == AttemptView::Failed("no print engine found"@),
{
    reveal_with_fuel(run_from, 6);
}

/// Each engine is tried right after the one before it in the order.
pub proof fn engines_are_tried_in_order(e: Engine)
    ensures
        match next_engine(e) {
            Some(n) => rank(n) == rank(e) + 1,
            None => e == Engine::Shell,
        },
{
}

/// The line of SumatraPDF ends with the file, and a printer that is named stands right behind the
/// option that names it; without one the option for the default printer stands there. The size
/// stands behind the option for settings, and no window is shown.
pub proof fn sumatra_prints_the_file_on_the_printer(
    path: Seq<char>,
    printer: Option<Seq<char>>,
    size: PaperSize,
)
    ensures
        sumatra_line(path, printer, size).last() == path,
        printer matches Some(p) ==> sumatra_line(path, printer, size).take(2) == seq![
            "-print-to"@,
            p,
        ],
        printer is None ==> sumatra_line(path, printer, size).take(1) == seq![
            "-print-to-default"@,
        ],
        sumatra_line(path, printer, size).len() == if printer is Some {
            6int
        } else {
            5
        },
        sumatra_line(path, printer, size).skip(sumatra_line(path, printer, size).len() - 4)
            == seq![
            "-print-settings"@,
            "paper="@ + match size {
                PaperSize::A4 => "A4"@,
                PaperSize::A5 => "A5"@,
            },
            "-silent"@,
            path,
        ],
{
    let line = sumatra_line(path, printer, size);
    assert(line.skip(line.len() - 4) =~= seq![
        "-print-settings"@,
        "paper="@ + paper::capital_name(size),
        "-silent"@,
        path,
    ]);
    match printer {
        Some(p) => assert(line.take(2) =~= seq!["-print-to"@, p]),
        None => assert(line.take(1) =~= seq!["-print-to-default"@]),
    }
}

/// Both lines of Ghostscript end with the file, and name the printer as the output, the job as the
/// document, and the size; they ask for a device of Windows, for no questions, and for an end
/// behind the file. The line of the library starts with a name in the place of the program.
pub proof fn ghostscript_prints_the_file_on_the_printer(
    path: Seq<char>,
    target: Seq<char>,
    size: PaperSize,
    job: Seq<char>,
)
    ensures
        gs_line(path, target, size, job).last() == path,
        gsdll_line(path, target, size, job).last() == path,
        gsdll_line(path, target, size, job)[0] == "gs"@,
        gs_line(path, target, size, job).len() == 11,
        gsdll_line(path, target, size, job).len() == 12,
        forall|a: Seq<char>|
            {
                ||| a == "-sOutputFile=%printer%"@ + target
                ||| a == "-sDocumentName="@ + job
                ||| a == "-sPAPERSIZE="@ + match size {
                    PaperSize::A4 => "a4"@,
                    PaperSize::A5 => "a5"@,
                }
                ||| a == "-sDEVICE=mswinpr2"@
                ||| a == "-dBATCH"@
                ||| a == "-dNOPAUSE"@
                ||| a == "-dNOSAFER"@
                ||| a == "-dNoCancel"@
                ||| a == "-dFIXEDMEDIA"@
                ||| a == "-q"@
            } ==> #[trigger] gs_line(path, target, size, job).contains(a) && gsdll_line(
                path,
                target,
                size,
                job,
            ).contains(a),
{
    let a = gs_line(path, target, size, job);
    let b = gsdll_line(path, target, size, job);
    assert(a[0] == b[1] && a[1] == b[2] && a[2] == b[3] && a[3] == b[4] && a[4] == b[5]);
    assert(a[5] == b[7] && a[6] == b[6] && a[7] == b[8] && a[8] == b[9] && a[9] == b[10]);
}

/// The line of Acrobat names the file right behind the option to print, and a printer that is named
/// right behind the file; without one nothing follows the file.
pub proof fn acrobat_prints_the_file_on_the_printer(path: Seq<char>, printer: Option<Seq<char>>)
    ensures
        acrobat_line(path, printer).take(3) == seq!["/h"@, "/t"@, path],
        printer matches Some(p) ==> acrobat_line(path, printer).skip(3) == seq![p],
        printer is None ==> acrobat_line(path, printer).len() == 3,
{
    let line = acrobat_line(path, printer);
    assert(line.take(3) =~= seq!["/h"@, "/t"@, path]);
    match printer {
        Some(p) => assert(line.skip(3) =~= seq![p]),
        None => {},
    }
}

/// The line of `lp` ends with the file, and a printer that is named stands right behind the option
/// that names it; without one that option is not there. The name of the job stands behind the
/// option for it, and the size behind that for settings.
pub proof fn lp_prints_the_file_on_the_printer(
    path: Seq<char>,
    printer: Option<Seq<char>>,
    size: PaperSize,
    job: Seq<char>,
)
    ensures
        lp_line(path, printer, size, job).last() == path,
        printer matches Some(p) ==> lp_line(path, printer, size, job).take(2) == seq!["-d"@, p],
        lp_line(path, printer, size, job).len() == if printer is Some {
            7int
        } else {
            5
        },
        lp_line(path, printer, size, job).skip(lp_line(path, printer, size, job).len() - 5)
            == seq![
            "-t"@,
            job,
            "-o"@,
            "media="@ + match size {
                PaperSize::A4 => "a4"@,
                PaperSize::A5 => "a5"@,
            },
            path,
        ],
{
    let line = lp_line(path, printer, size, job);
    assert(line.skip(line.len() - 5) =~= seq![
        "-t"@,
        job,
        "-o"@,
        "media="@ + paper::small_name(size),
        path,
    ]);
    match printer {
        Some(p) => assert(line.take(2) =~= seq!["-d"@, p]),
        None => {},
    }
}

/// The line of every engine that takes one names the file; two jobs with different files have
/// different lines, and with `lp` too.
pub proof fn every_line_tells_the_file(
    e: Engine,
    a: Seq<char>,
    b: Seq<char>,
    printer: Option<Seq<char>>,
    target: Seq<char>,
    size: PaperSize,
    job: Seq<char>,
)
    requires
        a != b,
    ensures
        e != Engine::Shell ==> line_of(e, a, printer, target, size, job).contains(a),
        e != Engine::Shell ==> line_of(e, a, printer, target, size, job) != line_of(
            e,
            b,
            printer,
            target,
            size,
            job,
        ),
        lp_line(a, printer, size, job) != lp_line(b, printer, size, job),
{
    sumatra_prints_the_file_on_the_printer(a, printer, size);
    sumatra_prints_the_file_on_the_printer(b, printer, size);
    let s = sumatra_line(a, printer, size);
    assert(s[s.len() - 1] == a);
    ghostscript_prints_the_file_on_the_printer(a, target, size, job);
    ghostscript_prints_the_file_on_the_printer(b, target, size, job);
    assert(gs_line(a, target, size, job)[10] == a);
    assert(gsdll_line(a, target, size, job)[11] == a);
    assert(acrobat_line(a, printer)[2] == a);
    assert(acrobat_line(b, printer)[2] == b);
    lp_prints_the_file_on_the_printer(a, printer, size, job);
    lp_prints_the_file_on_the_printer(b, printer, size, job);
}

/// SumatraPDF is looked for on the search path first, and then below every directory that is known:
/// those of the machine before that of the user.
pub proof fn sumatra_is_looked_for_everywhere(
    programs: Option<Seq<char>>,
    programs_x86: Option<Seq<char>>,
    local: Option<Seq<char>>,
)
    ensures
        sumatra_paths(programs, programs_x86, local)[0] == "SumatraPDF.exe"@,
        programs matches Some(p) ==> sumatra_paths(programs, programs_x86, local)[1] == p
            + r"\SumatraPDF\SumatraPDF.exe"@,
        programs_x86 matches Some(p) ==> sumatra_paths(programs, programs_x86, local)[if programs is Some {
            2
        } else {
            1
        }] == p + r"\SumatraPDF\SumatraPDF.exe"@,
        local matches Some(p) ==> {
            let row = sumatra_paths(programs, programs_x86, local);
            &&& row[row.len() - 2] == p + r"\SumatraPDF\SumatraPDF.exe"@
            &&& row[row.len() - 1] == p + r"\Programs\SumatraPDF\SumatraPDF.exe"@
        },
        sumatra_paths(programs, programs_x86, local).len() == 1 + (if programs is Some {
            1int
        } else {
            0
        }) + (if programs_x86 is Some {
            1int
        } else {
            0
        }) + (if local is Some {
            2int
        } else {
            0
        }),
{
}

/// Below a directory that is known Acrobat is looked for before both forms of the reader, and below
/// one that is not known nothing is looked for.
pub proof fn acrobat_is_looked_for_below_a_directory(programs: Option<Seq<char>>)
    ensures
        programs matches Some(p) ==> acrobat_below(programs) == seq![
            p + r"\Adobe\Acrobat DC\Acrobat\Acrobat.exe"@,
            p + r"\Adobe\Acrobat Reader DC\Reader\AcroRd32.exe"@,
            p + r"\Adobe\Reader 11.0\Reader\AcroRd32.exe"@,
        ],
        programs is None ==> acrobat_below(programs).len() == 0,
{
    match programs {
        Some(p) => assert(acrobat_below(programs) =~= seq![
            p + r"\Adobe\Acrobat DC\Acrobat\Acrobat.exe"@,
            p + r"\Adobe\Acrobat Reader DC\Reader\AcroRd32.exe"@,
            p + r"\Adobe\Reader 11.0\Reader\AcroRd32.exe"@,
        ]),
        None => {},
    }
}

proof fn lemma_gs_installed(n: nat, i: int)
    requires
        0 <= i < n <= usize::MAX,
    ensures
        gs_installed(n).len() == 2 * n,
        gs_installed(n)[2 * i] == (place::PlaceView {
            root: Root::Installed(i as usize),
            steps: seq!["bin"@, "gswin64c.exe"@],
        }),
        gs_installed(n)[2 * i + 1] == (place::PlaceView {
            root: Root::Installed(i as usize),
            steps: seq!["bin"@, "gswin32c.exe"@],
        }),
    decreases n,
{
    if n > 1 {
        if i < n - 1 {
            lemma_gs_installed((n - 1) as nat, i);
        } else {
            lemma_gs_installed((n - 1) as nat, 0);
        }
    } else {
        assert(gs_installed(0).len() == 0);
    }
}

/// Ghostscript is looked for on the search path under three names, and then in every version that
/// is installed, the program for 64 bits before that for 32; its library beside the program, if
/// that is known, and in every version.
pub proof fn ghostscript_is_looked_for_in_every_version(n: nat, i: int)
    requires
        0 <= i < n <= usize::MAX,
    ensures
        gs_places(n).len() == 3 + 2 * n,
        gs_places(n).take(3) == seq![
            place::PlaceView { root: Root::Bare, steps: seq!["gswin64c.exe"@] },
            place::PlaceView { root: Root::Bare, steps: seq!["gswin32c.exe"@] },
            place::PlaceView { root: Root::Bare, steps: seq!["gs.exe"@] },
        ],
        gs_places(n)[3 + 2 * i] == (place::PlaceView {
            root: Root::Installed(i as usize),
            steps: seq!["bin"@, "gswin64c.exe"@],
        }),
        gs_places(n)[4 + 2 * i] == (place::PlaceView {
            root: Root::Installed(i as usize),
            steps: seq!["bin"@, "gswin32c.exe"@],
        }),
        gsdll_places(false, n).len() == n,
        gsdll_places(false, n)[i] == (place::PlaceView {
            root: Root::Installed(i as usize),
            steps: seq!["bin"@, "gsdll64.dll"@],
        }),
        gsdll_places(true, n) == seq![
            place::PlaceView { root: Root::ExeDir, steps: seq!["gsdll64.dll"@] },
            place::PlaceView { root: Root::ExeDir, steps: seq!["vendor"@, "gs"@, "gsdll64.dll"@] },
        ] + gsdll_places(false, n),
{
    lemma_gs_installed(n, i);
    assert(gs_places(n).take(3) =~= gs_places(0).take(3));
    assert(gs_places(0).take(3) =~= seq![
        place::PlaceView { root: Root::Bare, steps: seq!["gswin64c.exe"@] },
        place::PlaceView { root: Root::Bare, steps: seq!["gswin32c.exe"@] },
        place::PlaceView { root: Root::Bare, steps: seq!["gs.exe"@] },
    ]);
    assert(gs_places(n)[3 + 2 * i] == gs_installed(n)[2 * i]);
    assert(gs_places(n)[4 + 2 * i] == gs_installed(n)[2 * i + 1]);
    assert(gsdll_places(false, n) =~= gsdll_installed(n));
    assert(gsdll_places(true, n) =~= seq![
        place::PlaceView { root: Root::ExeDir, steps: seq!["gsdll64.dll"@] },
        place::PlaceView { root: Root::ExeDir, steps: seq!["vendor"@, "gs"@, "gsdll64.dll"@] },
    ] + gsdll_places(false, n));
}

/// An engine that printed or failed ends the job with what came of it; only one that is not there
/// lets the next one be tried.
pub proof fn only_an_absent_engine_is_passed_over(e: Engine, a: AttemptView)
    ensures
        step_after(e, a) == StepView::Done <==> a == AttemptView::Printed,
        a matches AttemptView::Failed(m) ==> step_after(e, a) == StepView::Fail(m),
        step_after(e, a) is Try ==> a == AttemptView::Absent,
        step_after(Engine::Sumatra, AttemptView::Absent) == StepView::Try(Engine::GhostscriptCli),
        step_after(Engine::GhostscriptCli, AttemptView::Absent) == StepView::Try(
            Engine::GhostscriptDll,
        ),
        step_after(Engine::GhostscriptDll, AttemptView::Absent) == StepView::Try(Engine::Acrobat),
        step_after(Engine::Acrobat, AttemptView::Absent) == StepView::Try(Engine::Shell),
        step_after(Engine::Shell, AttemptView::Absent) == StepView::Fail("no print engine found"@),
{
}

/// The codes of the system that have a meaning; every other one is an unknown error.
pub proof fn what_codes_of_the_system_mean(code: int)
    ensures
        shell_error(0) == "out of memory or resources"@,
        shell_error(2) == "file not found"@,
        shell_error(3) == "path not found"@,
        shell_error(5) == "access denied"@,
        shell_error(8) == "out of memory"@,
        shell_error(32) == "no application associated with this file type"@,
        code != 0 && code != 2 && code != 3 && code != 5 && code != 8 && code != 32 ==> shell_error(
            code,
        ) == "unknown error"@,
{
}

} // verus!
