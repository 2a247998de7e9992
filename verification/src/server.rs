//! The server: its port, its address, and its life as a service of the system.
use crate::decimal;
use crate::text;
use vstd::prelude::*;
use vstd::string::*;

verus! {

/// The name of the service.
pub const SERVICE_NAME: &'static str = "print-util";

/// The port of the server, if none is given.
pub const DEFAULT_PORT: u16 = 17474;

/// The port that a text gives.
pub open spec fn port_in(s: Option<Seq<char>>) -> Option<nat> {
    match s {
        Some(t) => decimal::parsed(t, u16::MAX as nat),
        None => None,
    }
}

/// The port of the server: the one of the first argument, or else the one of the variable `PORT`,
/// or else the default.
pub open spec fn port_of(arg: Option<Seq<char>>, var: Option<Seq<char>>) -> nat {
    match port_in(arg) {
        Some(p) => p,
        None => match port_in(var) {
            Some(p) => p,
            None => DEFAULT_PORT as nat,
        },
    }
}

/// The port that a text gives.
fn read_port(s: Option<&str>) -> (r: Option<u16>)
    ensures
        match r {
            Some(p) => port_in(text::opt_str(s)) == Some(p as nat),
            None => port_in(text::opt_str(s)) is None,
        },
{
    match s {
        Some(t) => match decimal::parse(t, 65535) {
            Some(p) => Some(p as u16),
            None => None,
        },
        None => None,
    }
}

/// The port of the server, from the first argument and the value of the variable `PORT`.
pub fn resolve_port(arg: Option<&str>, var: Option<&str>) -> (r: u16)
    ensures
        r == port_of(text::opt_str(arg), text::opt_str(var)),
{
    match read_port(arg) {
        Some(p) => p,
        None => match read_port(var) {
            Some(p) => p,
            None => DEFAULT_PORT,
        },
    }
}

/// The address of the server, which only programs on the same machine can reach.
pub fn listen_addr(port: u16) -> (r: String)
    ensures
        r@ == "127.0.0.1:"@ + decimal::digits_of(port as nat),
{
    text::concat2("127.0.0.1:", decimal::render(port as u64).as_str())
}

/// The failure to take an address.
pub fn bind_failure(addr: &str) -> (r: String)
    ensures
        r@ == "cannot bind to "@ + addr@,
{
    text::concat2("cannot bind to ", addr)
}

/// An argument asks for a server that is no service.
pub open spec fn asks_for_console(args: Seq<Seq<char>>) -> bool {
    args.contains("--console"@)
}

/// Whether the program runs as a service: the system has started it without a console, and no
/// argument asks for one.
pub fn runs_as_service(args: &Vec<String>, has_console: bool) -> (r: bool)
    ensures
        r == (!has_console && !asks_for_console(text::texts(args@))),
{
    if has_console {
        return false;
    }
    let mut i: usize = 0;
    while i < args.len()
        invariant
            i <= args@.len(),
            forall|k: int| 0 <= k < i ==> (#[trigger] args@[k])@ != "--console"@,
        decreases args@.len() - i,
    {
        if text::same(args[i].as_str(), "--console") {
            assert(text::texts(args@)[i as int] == "--console"@);
            return false;
        }
        i = i + 1;
    }
    assert(!asks_for_console(text::texts(args@))) by {
        if asks_for_console(text::texts(args@)) {
            let k = text::texts(args@).index_of("--console"@);
            assert(text::texts(args@)[k] == args@[k]@);
        }
    }
    true
}

/// What the system tells a service.
#[derive(Clone, Copy, Debug, PartialEq, Eq, Structural)]
pub enum Control {
    Stop,
    Shutdown,
    Interrogate,
    Other,
}

/// What is done about it: whether the server is stopped, and whether the system hears that the
/// message was understood.
#[derive(Clone, Copy, Debug, PartialEq, Eq, Structural)]
pub struct ControlReply {
    pub stop: bool,
    pub understood: bool,
}

/// What is done about a message of the system.
pub fn on_control(c: Control) -> (r: ControlReply)
    ensures
        r.stop == stops(c),
        r.understood == (c != Control::Other),
{
    match c {
        Control::Stop => ControlReply { stop: true, understood: true },
        Control::Shutdown => ControlReply { stop: true, understood: true },
        Control::Interrogate => ControlReply { stop: false, understood: true },
        Control::Other => ControlReply { stop: false, understood: false },
    }
}

/// A stage in the life of the service.
#[derive(Clone, Copy, Debug, PartialEq, Eq, Structural)]
pub enum Stage {
    Starting,
    Running,
    Stopped,
}

/// The stage after this one: the server runs once it has started, and stops when the system tells
/// it to. A service that has stopped stays so.
pub open spec fn stage_after(stage: Stage, c: Option<Control>) -> Stage {
    match stage {
        Stage::Starting => Stage::Running,
        Stage::Running => if c == Some(Control::Stop) || c == Some(Control::Shutdown) {
            Stage::Stopped
        } else {
            Stage::Running
        },
        Stage::Stopped => Stage::Stopped,
    }
}

/// The stage after this one, given what the system has told the service, if anything.
pub fn next_stage(stage: Stage, c: Option<Control>) -> (r: Stage)
    ensures
        r == stage_after(stage, c),
{
    match stage {
        Stage::Starting => Stage::Running,
        Stage::Running => match c {
            Some(Control::Stop) => Stage::Stopped,
            Some(Control::Shutdown) => Stage::Stopped,
            _ => Stage::Running,
        },
        Stage::Stopped => Stage::Stopped,
    }
}

/// What the system is told of a stage: whether the service can be stopped, and for how many seconds
/// the system should wait for the next stage.
#[derive(Clone, Copy, Debug, PartialEq, Eq, Structural)]
pub struct StageReport {
    pub can_stop: bool,
    pub wait_secs: u64,
}

/// What the system is told of a stage.
pub fn report(stage: Stage) -> (r: StageReport)
    ensures
        r.can_stop == (stage == Stage::Running),
        r.wait_secs == if stage == Stage::Starting {
            5int
        } else {
            0
        },
{
    match stage {
        Stage::Starting => StageReport { can_stop: false, wait_secs: 5 },
        Stage::Running => StageReport { can_stop: true, wait_secs: 0 },
        Stage::Stopped => StageReport { can_stop: false, wait_secs: 0 },
    }
}

/// The message stops the service.
pub open spec fn stops(c: Control) -> bool {
    c == Control::Stop || c == Control::Shutdown
}

/// The stages that are reported from this one on, while the system sends these messages: each one
/// that differs from the one before it.
pub open spec fn reported(stage: Stage, messages: Seq<Control>) -> Seq<Stage>
    decreases messages.len(),
{
    if messages.len() == 0 {
        seq![]
    } else {
        let next = stage_after(stage, Some(messages[0]));
        (if next == stage {
            seq![]
        } else {
            seq![next]
        }) + reported(next, messages.skip(1))
    }
}

/// All stages that are reported: the start, what follows it, and what follows that while the system
/// sends these messages.
pub open spec fn life(messages: Seq<Control>) -> Seq<Stage> {
    let running = stage_after(Stage::Starting, None);
    seq![Stage::Starting, running] + reported(running, messages)
}

proof fn lemma_stopped_stays(messages: Seq<Control>)
    ensures
        reported(Stage::Stopped, messages) == Seq::<Stage>::empty(),
    decreases messages.len(),
{
    if messages.len() > 0 {
        lemma_stopped_stays(messages.skip(1));
        assert(reported(Stage::Stopped, messages) =~= seq![]);
    }
}

proof fn lemma_reported(messages: Seq<Control>)
    ensures
        reported(Stage::Running, messages) == if exists|i: int|
            0 <= i < messages.len() && stops(#[trigger] messages[i]) {
            seq![Stage::Stopped]
        } else {
            seq![]
        },
    decreases messages.len(),
{
    if messages.len() > 0 {
        let rest = messages.skip(1);
        if stops(messages[0]) {
            lemma_stopped_stays(rest);
            assert(reported(Stage::Running, messages) =~= seq![Stage::Stopped]);
        } else {
            lemma_reported(rest);
            assert(reported(Stage::Running, messages) =~= reported(Stage::Running, rest));
            if exists|i: int| 0 <= i < messages.len() && stops(#[trigger] messages[i]) {
                let i = choose|i: int| 0 <= i < messages.len() && stops(#[trigger] messages[i]);
                assert(stops(rest[i - 1]));
            }
            if exists|i: int| 0 <= i < rest.len() && stops(#[trigger] rest[i]) {
                let i = choose|i: int| 0 <= i < rest.len() && stops(#[trigger] rest[i]);
                assert(stops(messages[i + 1]));
            }
        }
    }
}

/// The service reports that it starts, then that it runs, and then, if and only if the system tells
/// it to stop or to shut down, that it has stopped; nothing else and in no other order.
pub proof fn stages_come_in_order(messages: Seq<Control>)
    ensures
        life(messages) == if exists|i: int|
            0 <= i < messages.len() && stops(#[trigger] messages[i]) {
            seq![Stage::Starting, Stage::Running, Stage::Stopped]
        } else {
            seq![Stage::Starting, Stage::Running]
        },
{
    lemma_reported(messages);
    if exists|i: int| 0 <= i < messages.len() && stops(#[trigger] messages[i]) {
        assert(life(messages) =~= seq![Stage::Starting, Stage::Running, Stage::Stopped]);
    } else {
        assert(life(messages) =~= seq![Stage::Starting, Stage::Running]);
    }
}

/// A port that is written as the first argument is the port of the server.
pub proof fn a_written_port_is_taken(port: u16, var: Option<Seq<char>>)
    ensures
        port_of(Some(decimal::digits_of(port as nat)), var) == port,
        port_of(None, Some(decimal::digits_of(port as nat))) == port,
        port_of(None, None) == DEFAULT_PORT,
{
    decimal::parse_undoes_render(port as nat, u16::MAX as nat);
}

/// The first argument decides if it is a number of a port, whatever the variable says; otherwise the
/// variable decides, and 17474 is the port if neither is one. A number above 65535 is none.
pub proof fn the_argument_comes_before_the_variable(
    arg: Option<Seq<char>>,
    var: Option<Seq<char>>,
    other: Option<Seq<char>>,
)
    ensures
        arg matches Some(t) && decimal::parsed(t, 65535) is Some ==> port_of(arg, var) == port_of(
            arg,
            other,
        ) && Some(port_of(arg, var)) == decimal::parsed(arg->0, 65535),
        arg is None || decimal::parsed(arg->0, 65535) is None ==> port_of(arg, var) == port_of(
            None,
            var,
        ),
        var is None || decimal::parsed(var->0, 65535) is None ==> port_of(None, var) == 17474,
        port_of(arg, var) <= 65535,
{
}

/// One argument that asks for a console is enough, wherever it stands among the others.
pub proof fn a_console_may_be_asked_for_anywhere(a: Seq<Seq<char>>, b: Seq<Seq<char>>)
    ensures
        asks_for_console(a + seq!["--console"@] + b),
        asks_for_console(a + b) <==> asks_for_console(a) || asks_for_console(b),
        !asks_for_console(seq![]),
{
    let c = "--console"@;
    let all = a + seq![c] + b;
    assert(all[a.len() as int] == c);
    let ab = a + b;
    if ab.contains(c) {
        let i = ab.index_of(c);
        if i < a.len() {
            assert(a[i] == c);
        } else {
            assert(b[i - a.len()] == c);
        }
    }
    if a.contains(c) {
        let i = a.index_of(c);
        assert(ab[i] == c);
    }
    if b.contains(c) {
        let i = b.index_of(c);
        assert(ab[i + a.len()] == c);
    }
}

/// Of the messages of the system only the one to stop and the one to shut down stop a service, and
/// only while it runs.
pub proof fn only_two_messages_stop_the_service(stage: Stage, c: Control)
    ensures
        stops(c) <==> c == Control::Stop || c == Control::Shutdown,
        stage_after(stage, Some(c)) == Stage::Stopped <==> stage == Stage::Stopped || (stage
            == Stage::Running && (c == Control::Stop || c == Control::Shutdown)),
        stage_after(stage, None) == Stage::Stopped <==> stage == Stage::Stopped,
{
}

} // verus!
