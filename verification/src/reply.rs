//! Answers of the print service.
use crate::decimal;
use crate::text;
use vstd::prelude::*;
use vstd::string::*;

verus! {

/// An answer: the HTTP status, and the message of a failure. An answer without a message says that
/// all went well.
#[derive(Debug)]
pub struct Reply {
    pub status: u16,
    pub error: Option<String>,
}

/// The model of an answer.
pub struct ReplyView {
    pub status: u16,
    pub error: Option<Seq<char>>,
}

impl View for Reply {
    type V = ReplyView;

    open spec fn view(&self) -> ReplyView {
        ReplyView { status: self.status, error: text::opt_text(self.error) }
    }
}

/// The answer to a request that was carried out.
pub open spec fn fine() -> ReplyView {
    ReplyView { status: 200, error: None }
}

/// The answer to a request that is not understood.
pub open spec fn refused(message: Seq<char>) -> ReplyView {
    ReplyView { status: 400, error: Some(message) }
}

/// The answer to a request that could not be carried out.
pub open spec fn failed(message: Seq<char>) -> ReplyView {
    ReplyView { status: 500, error: Some(message) }
}

/// The answer to a request that was carried out.
pub fn ok() -> (r: Reply)
    ensures
        r@ == fine(),
{
    Reply { status: 200, error: None }
}

/// The answer to a request that is not understood.
pub fn bad(message: &str) -> (r: Reply)
    ensures
        r@ == refused(message@),
{
    Reply { status: 400, error: Some(text::owned(message)) }
}

/// The answer to a request that could not be carried out.
pub fn internal(message: &str) -> (r: Reply)
    ensures
        r@ == failed(message@),
{
    Reply { status: 500, error: Some(text::owned(message)) }
}

/// What came of work that was handed to another thread.
pub enum Outcome {
    /// It was done.
    Done,
    /// It failed.
    Failed(String),
    /// The thread broke down.
    Panicked(String),
    /// It took longer than allowed.
    TimedOut,
}

/// The answer for an outcome.
pub open spec fn answer(o: Outcome) -> ReplyView {
    match o {
        Outcome::Done => fine(),
        Outcome::Failed(m) => failed(m@),
        Outcome::Panicked(m) => failed("task panic: "@ + m@),
        Outcome::TimedOut => failed("print timed out after 120 s"@),
    }
}

/// The most seconds that a print job may take.
pub const PRINT_TIMEOUT_SECS: u64 = 120;

/// The answer for an outcome.
pub fn reply_to(o: Outcome) -> (r: Reply)
    ensures
        r@ == answer(o),
{
    match o {
        Outcome::Done => ok(),
        Outcome::Failed(m) => internal(m.as_str()),
        Outcome::Panicked(m) => internal(text::concat2("task panic: ", m.as_str()).as_str()),
        Outcome::TimedOut => internal("print timed out after 120 s"),
    }
}

/// An answer carries a message exactly when its status is not that of success.
pub proof fn only_failures_carry_a_message(o: Outcome)
    ensures
        (answer(o).error is None) == (answer(o).status == 200),
        (answer(o).status == 200) == (o is Done),
{
}

/// A request that was carried out is answered with status 200 and no message, one that is not
/// understood with 400 and one that could not be carried out with 500, both with the message as it
/// is; the cause of a failure is told in full.
pub proof fn answers_have_their_statuses(m: Seq<char>, o: Outcome)
    ensures
        fine().status == 200 && fine().error is None,
        refused(m).status == 400 && refused(m).error == Some(m),
        failed(m).status == 500 && failed(m).error == Some(m),
        o matches Outcome::Failed(c) ==> answer(o).status == 500 && answer(o).error == Some(c@),
        o matches Outcome::Panicked(c) ==> answer(o).status == 500 && answer(o).error == Some(
            "task panic: "@ + c@,
        ),
        o is TimedOut ==> answer(o).status == 500 && answer(o).error == Some(
            "print timed out after 120 s"@,
        ),
{
}

/// The answer to a job that took too long tells how long it was waited for.
pub proof fn the_time_limit_is_told()
    ensures
        answer(Outcome::TimedOut).error == Some(
            "print timed out after "@ + decimal::digits_of(PRINT_TIMEOUT_SECS as nat) + " s"@,
        ),
{
    reveal_strlit("print timed out after ");
    reveal_strlit(" s");
    reveal_strlit("print timed out after 120 s");
    reveal_with_fuel(decimal::digits_of, 3);
    let d = decimal::digits_of(120);
    assert(d =~= seq!['1', '2', '0']);
    assert("print timed out after "@ + d + " s"@ =~= "print timed out after 120 s"@);
}

} // verus!
