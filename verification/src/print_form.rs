//! The form by which a file is printed.
use crate::decimal;
use crate::paper;
use crate::paper::{PaperChoice, PaperSize};
use crate::reply;
use crate::reply::Reply;
use crate::text;
use vstd::prelude::*;
use vstd::string::*;

verus! {

/// The fields of the form.
#[derive(Clone, Copy, Debug, PartialEq, Eq, Structural)]
pub enum PrintField {
    File,
    Printer,
    Name,
    Other,
}

/// The field with this name; a field without a name is another one.
pub open spec fn field_named(key: Option<Seq<char>>) -> PrintField {
    match key {
        Some(k) => if k == "file"@ {
            PrintField::File
        } else if k == "printer"@ {
            PrintField::Printer
        } else if k == "name"@ {
            PrintField::Name
        } else {
            PrintField::Other
        },
        None => PrintField::Other,
    }
}

/// The field with this name; a field without a name is another one.
pub fn field_of(key: Option<&str>) -> (r: PrintField)
    ensures
        r == field_named(text::opt_str(key)),
{
    match key {
        Some(k) => {
            if text::same(k, "file") {
                PrintField::File
            } else if text::same(k, "printer") {
                PrintField::Printer
            } else if text::same(k, "name") {
                PrintField::Name
            } else {
                PrintField::Other
            }
        },
        None => PrintField::Other,
    }
}

/// The form as far as it was read.
pub struct PrintForm {
    file: Option<Vec<u8>>,
    printer: Option<String>,
    name: Option<String>,
}

/// The model of the form.
pub struct PrintFormView {
    pub file: Option<Seq<u8>>,
    pub printer: Option<Seq<char>>,
    pub name: Option<Seq<char>>,
}

/// A job for the printer.
#[derive(Debug)]
pub struct PrintJob {
    pub data: Vec<u8>,
    pub printer: Option<String>,
    pub name: String,
    pub size: PaperSize,
}

/// The form after a text field was read: white space around the text is dropped, and a text of
/// white space only changes nothing.
pub open spec fn with_text(f: PrintFormView, field: PrintField, value: Seq<char>) -> PrintFormView {
    let t = text::trimmed(value);
    if t.len() == 0 {
        f
    } else {
        match field {
            PrintField::Printer => PrintFormView { printer: Some(t), ..f },
            PrintField::Name => PrintFormView { name: Some(t), ..f },
            PrintField::File => f,
            PrintField::Other => f,
        }
    }
}

/// The name of a job: the one that was given, or `doc-` and the time in seconds.
pub open spec fn job_name(given: Option<Seq<char>>, now: u64) -> Seq<char> {
    match given {
        Some(n) => n,
        None => "doc-"@ + decimal::digits_of(now as nat),
    }
}

impl View for PrintForm {
    type V = PrintFormView;

    closed spec fn view(&self) -> PrintFormView {
        PrintFormView {
            file: match self.file {
                Some(b) => Some(b@),
                None => None,
            },
            printer: text::opt_text(self.printer),
            name: text::opt_text(self.name),
        }
    }
}

/// The answer when the file cannot be read.
pub fn unreadable_file(cause: &str) -> (r: Reply)
    ensures
        r@ == reply::refused("read field: "@ + cause@),
{
    reply::bad(text::concat2("read field: ", cause).as_str())
}

/// The answer when the frame around the fields cannot be read.
pub fn unreadable_form(cause: &str) -> (r: Reply)
    ensures
        r@ == reply::refused("multipart error: "@ + cause@),
{
    reply::bad(text::concat2("multipart error: ", cause).as_str())
}

impl PrintForm {
    /// The form of which nothing was read.
    pub fn new() -> (r: PrintForm)
        ensures
            r@ == (PrintFormView { file: None, printer: None, name: None }),
    {
        PrintForm { file: None, printer: None, name: None }
    }

    /// Takes the file. A later one takes the place of an earlier one.
    pub fn take_file(&mut self, data: Vec<u8>)
        ensures
            final(self)@ == (PrintFormView { file: Some(data@), ..old(self)@ }),
    {
        self.file = Some(data);
    }

    /// Takes the text of a field.
    pub fn take_text(&mut self, field: PrintField, value: &str)
        ensures
            final(self)@ == with_text(old(self)@, field, value@),
            field == PrintField::Printer && !text::blank(value@) ==> final(self)@.printer == Some(
                text::trimmed(value@),
            ),
            field == PrintField::Name && !text::blank(value@) ==> final(self)@.name == Some(
                text::trimmed(value@),
            ),
            final(self)@.file == old(self)@.file,
    {
        proof {
            text::only_blank_texts_are_trimmed_away(value@);
        }
        let t = text::trim(value);
        if t.as_str().is_empty() {
            return;
        }
        match field {
            PrintField::Printer => {
                self.printer = Some(t);
            },
            PrintField::Name => {
                self.name = Some(t);
            },
            PrintField::File => {},
            PrintField::Other => {},
        }
    }

    /// The job that the form asks for at this time; a file that is missing or empty is refused.
    pub fn finish(self, choice: PaperChoice, now: u64) -> (r: Result<PrintJob, Reply>)
        ensures
            if self@.file is None || self@.file->0.len() == 0 {
                r matches Err(e) && e@ == reply::refused("missing required 'file' field"@)
            } else {
                r matches Ok(j) && j.data@ == self@.file->0 && text::opt_text(j.printer)
                    == self@.printer && j.name@ == job_name(self@.name, now) && j.size
                    == paper::paper_of(choice, self@.file->0)
            },
    {
        let data = match self.file {
            Some(d) => d,
            None => {
                return Err(reply::bad("missing required 'file' field"));
            },
        };
        if data.len() == 0 {
            return Err(reply::bad("missing required 'file' field"));
        }
        let name = match self.name {
            Some(n) => n,
            None => text::concat2("doc-", decimal::render(now).as_str()),
        };
        let size = paper::choose_paper(choice, &data);
        Ok(PrintJob { data, printer: self.printer, name, size })
    }
}

/// A printer or a name is taken as it is written, with all the white space inside it, and only the
/// white space around it is dropped; nothing else of the form changes.
pub proof fn printer_and_name_are_taken_as_written(
    f: PrintFormView,
    p: Seq<char>,
    v: Seq<char>,
    q: Seq<char>,
)
    requires
        text::blank(p),
        text::blank(q),
        text::bare(v),
        v.len() > 0,
    ensures
        with_text(f, PrintField::Printer, p + v + q) == (PrintFormView {
            file: f.file,
            printer: Some(v),
            name: f.name,
        }),
        with_text(f, PrintField::Name, p + v + q) == (PrintFormView {
            file: f.file,
            printer: f.printer,
            name: Some(v),
        }),
{
    text::trimming_keeps_what_is_inside(p, v, q);
}

/// A field of white space only leaves the printer and the name as they are, and so does a field
/// that is neither.
pub proof fn other_texts_change_nothing(f: PrintFormView, field: PrintField, s: Seq<char>)
    requires
        text::blank(s) || field == PrintField::File || field == PrintField::Other,
    ensures
        with_text(f, field, s) == f,
{
    text::only_blank_texts_are_trimmed_away(s);
}

/// Of two texts for one field, neither of white space only, the later one counts, and the printer
/// and the name may come in either order.
pub proof fn the_later_text_counts(f: PrintFormView, field: PrintField, s: Seq<char>, t: Seq<char>)
    requires
        !text::blank(s),
        !text::blank(t),
    ensures
        with_text(with_text(f, field, s), field, t) == with_text(f, field, t),
        with_text(with_text(f, PrintField::Printer, s), PrintField::Name, t) == with_text(
            with_text(f, PrintField::Name, t),
            PrintField::Printer,
            s,
        ),
{
    text::only_blank_texts_are_trimmed_away(s);
    text::only_blank_texts_are_trimmed_away(t);
}

/// A job has the name that was given, and without one a name that tells the time: at two different
/// times the names differ.
pub proof fn a_job_without_a_name_is_named_by_the_time(
    given: Option<Seq<char>>,
    now: u64,
    later: u64,
)
    ensures
        given matches Some(n) ==> job_name(given, now) == n,
        job_name(None, now).take(4) == "doc-"@,
        decimal::parsed(job_name(None, now).skip(4), u64::MAX as nat) == Some(now as nat),
        now != later ==> job_name(None, now) != job_name(None, later),
{
    reveal_strlit("doc-");
    decimal::parse_undoes_render(now as nat, u64::MAX as nat);
    decimal::parse_undoes_render(later as nat, u64::MAX as nat);
    let a = job_name(None, now);
    let b = job_name(None, later);
    assert(a.take(4) =~= "doc-"@);
    assert(a.skip(4) =~= decimal::digits_of(now as nat));
    assert(b.skip(4) =~= decimal::digits_of(later as nat));
}

/// The form has the three fields that are named here; no other name is one of them.
pub proof fn the_fields_of_the_form(key: Seq<char>)
    ensures
        field_named(Some(key)) == PrintField::File <==> key == "file"@,
        field_named(Some(key)) == PrintField::Printer <==> key == "printer"@,
        field_named(Some(key)) == PrintField::Name <==> key == "name"@,
        field_named(None) == PrintField::Other,
{
    reveal_strlit("file");
    reveal_strlit("printer");
    reveal_strlit("name");
    assert("file"@[0] == 'f' && "printer"@[0] == 'p' && "name"@[0] == 'n');
}

} // verus!
