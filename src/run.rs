use vstd::prelude::*;

use crate::answer;
use crate::args::Configuration;
use crate::decimal::{decimal, format_decimal};

verus! {

/// Severity of a log record, from the least to the most important.
#[derive(Clone, Copy, Debug, PartialEq, Eq, Structural)]
pub enum Level {
    Trace,
    Debug,
    Info,
    Warn,
    Error,
}

/// One thing that a run does, in order: a log record or text for standard
/// output.
#[derive(Debug)]
pub enum Step {
    Log(Level, String),
    Print(String),
}

/// What a step is, with its text as characters.
pub enum Event {
    Log(Level, Seq<char>),
    Print(Seq<char>),
}

impl View for Step {
    type V = Event;

    open spec fn view(&self) -> Event {
        match self {
            Step::Log(l, m) => Event::Log(*l, m@),
            Step::Print(t) => Event::Print(t@),
        }
    }
}

/// The events of a list of steps.
pub open spec fn events(s: Seq<Step>) -> Seq<Event> {
    s.map_values(|x: Step| x@)
}

/// What a run logs before it reads its arguments.
pub open spec fn startup_events() -> Seq<Event> {
    seq![
        Event::Log(Level::Trace, "cli is running"@),
        Event::Log(Level::Debug, "about to parse args"@),
    ]
}

/// What a run with configuration `c` does once its arguments are read.
pub open spec fn run_events(c: Configuration) -> Seq<Event> {
    seq![
        Event::Log(Level::Info, "args have been parsed"@),
        Event::Log(Level::Warn, "cli port is "@ + decimal(c.port as nat)),
        Event::Print("port is "@ + decimal(c.port as nat)),
        Event::Log(Level::Error, "something unexpected"@),
        Event::Print(decimal(42)),
    ]
}

/// The text that `e` writes to standard output: its prints, joined with no
/// separator.
pub open spec fn printed(e: Seq<Event>) -> Seq<char>
    decreases e.len(),
{
    if e.len() == 0 {
        Seq::empty()
    } else {
        printed(e.drop_last()) + match e.last() {
            Event::Print(t) => t,
            Event::Log(_, _) => Seq::empty(),
        }
    }
}

/// The steps of a run before its arguments are read.
pub fn startup_steps() -> (r: Vec<Step>)
    ensures
        events(r@) == startup_events(),
{
    let mut r: Vec<Step> = Vec::new();
    r.push(Step::Log(Level::Trace, String::from_str("cli is running")));
    r.push(Step::Log(Level::Debug, String::from_str("about to parse args")));
    assert(events(r@) =~= startup_events());
    r
}

/// The steps of a run with configuration `c`, once its arguments are read.
pub fn run_steps(c: Configuration) -> (r: Vec<Step>)
    ensures
        events(r@) == run_events(c),
{
    let port = format_decimal(c.port as u32);
    let mut warning = String::from_str("cli port is ");
    warning.append(port.as_str());
    let mut shown = String::from_str("port is ");
    shown.append(port.as_str());
    let a = answer();
    let mut r: Vec<Step> = Vec::new();
    r.push(Step::Log(Level::Info, String::from_str("args have been parsed")));
    r.push(Step::Log(Level::Warn, warning));
    r.push(Step::Print(shown));
    r.push(Step::Log(Level::Error, String::from_str("something unexpected")));
    r.push(Step::Print(format_decimal(a as u32)));
    assert(events(r@) =~= run_events(c));
    r
}

/// The text that `steps` write to standard output.
pub fn stdout_text(steps: &Vec<Step>) -> (r: String)
    ensures
        r@ == printed(events(steps@)),
{
    let mut r = String::new();
    let mut i: usize = 0;
    while i < steps.len()
        invariant
            i <= steps@.len(),
            r@ == printed(events(steps@.take(i as int))),
        decreases steps@.len() - i,
    {
        assert(events(steps@.take(i + 1)).drop_last() =~= events(steps@.take(i as int)));
        match &steps[i] {
            Step::Print(t) => {
                r.append(t.as_str());
            },
            Step::Log(_, _) => {},
        }
        i += 1;
    }
    assert(steps@.take(i as int) =~= steps@);
    r
}

/// A run writes to standard output the text `port is `, its port in decimal,
/// and then the answer in decimal, with nothing between them.
pub proof fn run_prints_port_then_answer(c: Configuration)
    ensures
        printed(run_events(c)) == "port is "@ + decimal(c.port as nat) + decimal(42),
{
    let e = run_events(c);
    let shown = "port is "@ + decimal(c.port as nat);
    let e4 = e.drop_last();
    let e3 = e4.drop_last();
    let e2 = e3.drop_last();
    let e1 = e2.drop_last();
    let e0 = e1.drop_last();
    assert(e0 =~= Seq::<Event>::empty());
    assert(printed(e1) =~= Seq::<char>::empty()) by {
        assert(printed(e0) =~= Seq::<char>::empty());
    }
    assert(printed(e2) =~= Seq::<char>::empty());
    assert(printed(e3) =~= shown);
    assert(printed(e4) =~= shown);
    assert(printed(e) =~= shown + decimal(42));
}

/// Nothing is printed before the arguments are read.
pub proof fn startup_prints_nothing()
    ensures
        printed(startup_events()) == Seq::<char>::empty(),
{
    let e = startup_events();
    let e1 = e.drop_last();
    assert(e1.drop_last() =~= Seq::<Event>::empty());
    assert(printed(e1.drop_last()) =~= Seq::<char>::empty());
    assert(printed(e1) =~= Seq::<char>::empty());
    assert(printed(e) =~= Seq::<char>::empty());
}

} // verus!
