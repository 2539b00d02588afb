use vstd::prelude::*;

use crate::decimal::{port_from, port_of, to_chars};

verus! {

/// The port used when the command line names none.
pub const DEFAULT_PORT: u16 = 8080;

/// What a run is configured with.
#[derive(Clone, Copy, Debug, PartialEq, Eq, Structural)]
pub struct Configuration {
    pub port: u16,
}

/// Why a command line was rejected.
#[derive(Clone, Copy, Debug, PartialEq, Eq, Structural)]
pub enum ArgumentError {
    /// The port option stands last, or before another option, with no value.
    MissingValue,
    /// The port value is not a number, or lies outside `0..=65535`.
    InvalidValue,
    /// An option that the tool does not know, or a stray argument.
    UnexpectedArgument,
    /// The port option is given twice.
    RepeatedOption,
}

/// What the command line asks for.
#[derive(Clone, Copy, Debug, PartialEq, Eq, Structural)]
pub enum Invocation {
    /// Run with this configuration.
    Run(Configuration),
    /// Print the usage text and stop.
    Help,
}

/// `--`: every argument after it is a positional one.
pub open spec fn is_escape(t: Seq<char>) -> bool {
    t == seq!['-', '-']
}

/// `--help`, or a cluster of short options whose first is `h`.
pub open spec fn is_help(t: Seq<char>) -> bool {
    t == seq!['-', '-', 'h', 'e', 'l', 'p'] || (t.len() >= 2 && t[0] == '-' && t[1] == 'h')
}

/// `--port` or `-p`, whose value is the next argument.
pub open spec fn is_port_flag(t: Seq<char>) -> bool {
    t == seq!['-', '-', 'p', 'o', 'r', 't'] || t == seq!['-', 'p']
}

/// The long option with its value attached: `--port=<value>`.
pub open spec fn is_long_with_value(t: Seq<char>) -> bool {
    t.len() >= 7 && t.take(7) == seq!['-', '-', 'p', 'o', 'r', 't', '=']
}

/// The short option with its value attached: `-p<value>` or `-p=<value>`.
pub open spec fn is_short_with_value(t: Seq<char>) -> bool {
    t.len() > 2 && t[0] == '-' && t[1] == 'p'
}

/// The value attached to the port option in `t`.
pub open spec fn attached_value(t: Seq<char>) -> Seq<char> {
    if is_long_with_value(t) {
        t.skip(7)
    } else if t.len() > 2 && t[2] == '=' {
        t.skip(3)
    } else {
        t.skip(2)
    }
}

/// Whether an argument that follows the port option is taken as its value:
/// anything but a word that begins with `-` (a lone `-` is a value).
pub open spec fn is_value(t: Seq<char>) -> bool {
    !(t.len() > 1 && t[0] == '-')
}

/// The outcome of reading `args` from index `i` on, where `port` is the port
/// given so far and `trailing` says whether `--` has been seen.
pub open spec fn scan(args: Seq<Seq<char>>, i: int, port: Option<u16>, trailing: bool) -> Result<
    Invocation,
    ArgumentError,
>
    decreases args.len() - i,
{
    if i < 0 || i >= args.len() {
        Ok(
            Invocation::Run(
                Configuration {
                    port: match port {
                        Some(p) => p,
                        None => DEFAULT_PORT,
                    },
                },
            ),
        )
    } else if trailing {
        Err(ArgumentError::UnexpectedArgument)
    } else if is_escape(args[i]) {
        scan(args, i + 1, port, true)
    } else if is_help(args[i]) {
        Ok(Invocation::Help)
    } else if is_port_flag(args[i]) {
        if port is Some {
            Err(ArgumentError::RepeatedOption)
        } else if i + 1 >= args.len() || !is_value(args[i + 1]) {
            Err(ArgumentError::MissingValue)
        } else {
            match port_of(args[i + 1]) {
                Some(p) => scan(args, i + 2, Some(p), false),
                None => Err(ArgumentError::InvalidValue),
            }
        }
    } else if is_long_with_value(args[i]) || is_short_with_value(args[i]) {
        if port is Some {
            Err(ArgumentError::RepeatedOption)
        } else {
            match port_of(attached_value(args[i])) {
                Some(p) => scan(args, i + 1, Some(p), false),
                None => Err(ArgumentError::InvalidValue),
            }
        }
    } else {
        Err(ArgumentError::UnexpectedArgument)
    }
}

/// The outcome of a command line, program name excluded.
pub open spec fn parse_spec(args: Seq<Seq<char>>) -> Result<Invocation, ArgumentError> {
    scan(args, 0, None, false)
}

/// The texts of a list of strings.
pub open spec fn texts(args: Seq<String>) -> Seq<Seq<char>> {
    args.map_values(|s: String| s@)
}

/// Whether `t` is exactly the text `lit`.
fn same_text(t: &Vec<char>, lit: &str) -> (r: bool)
    ensures
        r == (t@ == lit@),
{
    let l = to_chars(lit);
    if t.len() != l.len() {
        return false;
    }
    let mut i: usize = 0;
    while i < t.len()
        invariant
            i <= t@.len(),
            t@.len() == l@.len(),
            l@ == lit@,
            t@.subrange(0, i as int) == l@.subrange(0, i as int),
        decreases t@.len() - i,
    {
        if t[i] != l[i] {
            return false;
        }
        assert(t@.subrange(0, i + 1) =~= t@.subrange(0, i as int).push(t@[i as int]));
        assert(l@.subrange(0, i + 1) =~= l@.subrange(0, i as int).push(l@[i as int]));
        i += 1;
    }
    assert(t@ =~= t@.subrange(0, i as int));
    assert(l@ =~= l@.subrange(0, i as int));
    true
}

/// Whether `t` begins with the text `lit`.
fn starts_with_text(t: &Vec<char>, lit: &str) -> (r: bool)
    ensures
        r == (lit@.len() <= t@.len() && t@.take(lit@.len() as int) == lit@),
{
    let l = to_chars(lit);
    if t.len() < l.len() {
        return false;
    }
    let mut i: usize = 0;
    while i < l.len()
        invariant
            i <= l@.len() <= t@.len(),
            l@ == lit@,
            t@.subrange(0, i as int) == l@.subrange(0, i as int),
        decreases l@.len() - i,
    {
        if t[i] != l[i] {
            assert(t@.take(l@.len() as int)[i as int] != l@[i as int]);
            return false;
        }
        assert(t@.subrange(0, i + 1) =~= t@.subrange(0, i as int).push(t@[i as int]));
        assert(l@.subrange(0, i + 1) =~= l@.subrange(0, i as int).push(l@[i as int]));
        i += 1;
    }
    assert(l@ =~= l@.subrange(0, i as int));
    assert(t@.take(l@.len() as int) =~= t@.subrange(0, i as int));
    true
}

/// Reads a command line, program name excluded. The port option is
/// `--port <value>`, `-p <value>`, `--port=<value>`, `-p<value>` or
/// `-p=<value>`, at most once; `-h` and `--help` ask for the usage text; `--`
/// ends the options, and no positional argument is taken. Arguments are read
/// from left to right and the first that decides the outcome settles it.
pub fn parse_args(args: &Vec<String>) -> (r: Result<Invocation, ArgumentError>)
    ensures
        r == parse_spec(texts(args@)),
{
    let ghost a = texts(args@);
    let mut toks: Vec<Vec<char>> = Vec::new();
    let mut k: usize = 0;
    while k < args.len()
        invariant
            k <= args@.len(),
            a == texts(args@),
            toks@.len() == k,
            forall|j: int| 0 <= j < k ==> (#[trigger] toks@[j])@ == a[j],
        decreases args@.len() - k,
    {
        toks.push(to_chars(args[k].as_str()));
        k += 1;
    }
    let n = toks.len();
    let mut i: usize = 0;
    let mut port: Option<u16> = None;
    let mut trailing = false;
    while i < n
        invariant
            a == texts(args@),
            n == a.len(),
            n == toks@.len(),
            i <= n,
            forall|j: int| 0 <= j < n ==> (#[trigger] toks@[j])@ == a[j],
            scan(a, i as int, port, trailing) == parse_spec(a),
        decreases n - i,
    {
        let t = &toks[i];
        assert(t@ == a[i as int]);
        proof {
            reveal_strlit("--");
            reveal_strlit("--help");
            reveal_strlit("--port");
            reveal_strlit("-p");
            reveal_strlit("--port=");
            assert("--"@ =~= seq!['-', '-']);
            assert("--help"@ =~= seq!['-', '-', 'h', 'e', 'l', 'p']);
            assert("--port"@ =~= seq!['-', '-', 'p', 'o', 'r', 't']);
            assert("-p"@ =~= seq!['-', 'p']);
            assert("--port="@ =~= seq!['-', '-', 'p', 'o', 'r', 't', '=']);
        }
        if trailing {
            return Err(ArgumentError::UnexpectedArgument);
        }
        if same_text(t, "--") {
            trailing = true;
            i += 1;
        } else if same_text(t, "--help") || (t.len() >= 2 && t[0] == '-' && t[1] == 'h') {
            return Ok(Invocation::Help);
        } else if same_text(t, "--port") || same_text(t, "-p") {
            if port.is_some() {
                return Err(ArgumentError::RepeatedOption);
            }
            if i + 1 >= n {
                return Err(ArgumentError::MissingValue);
            }
            let v = &toks[i + 1];
            assert(v@ == a[i + 1]);
            if v.len() > 1 && v[0] == '-' {
                return Err(ArgumentError::MissingValue);
            }
            assert(v@.skip(0) =~= v@);
            match port_from(v, 0) {
                Some(p) => {
                    port = Some(p);
                    i += 2;
                },
                None => {
                    return Err(ArgumentError::InvalidValue);
                },
            }
        } else if starts_with_text(t, "--port=") || (t.len() > 2 && t[0] == '-' && t[1] == 'p') {
            if port.is_some() {
                return Err(ArgumentError::RepeatedOption);
            }
            let start: usize = if starts_with_text(t, "--port=") {
                7
            } else if t[2] == '=' {
                3
            } else {
                2
            };
            match port_from(t, start) {
                Some(p) => {
                    port = Some(p);
                    i += 1;
                },
                None => {
                    return Err(ArgumentError::InvalidValue);
                },
            }
        } else {
            return Err(ArgumentError::UnexpectedArgument);
        }
    }
    Ok(
        Invocation::Run(
            Configuration {
                port: match port {
                    Some(p) => p,
                    None => DEFAULT_PORT,
                },
            },
        ),
    )
}

/// Reading goes the same way on two command lines that differ only at index
/// `k`, where both hold a port option that takes the next argument.
proof fn scan_same_but_port_flag(
    a1: Seq<Seq<char>>,
    a2: Seq<Seq<char>>,
    k: int,
    i: int,
    port: Option<u16>,
    trailing: bool,
)
    requires
        a1.len() == a2.len(),
        0 <= k < a1.len(),
        forall|j: int| 0 <= j < a1.len() && j != k ==> a1[j] == a2[j],
        is_port_flag(a1[k]),
        is_port_flag(a2[k]),
    ensures
        scan(a1, i, port, trailing) == scan(a2, i, port, trailing),
    decreases a1.len() - i,
{
    if 0 <= i < a1.len() {
        scan_same_but_port_flag(a1, a2, k, i + 1, port, true);
        if i + 1 < a1.len() {
            if let Some(p) = port_of(a1[i + 1]) {
                scan_same_but_port_flag(a1, a2, k, i + 2, Some(p), false);
            }
        }
        if let Some(p) = port_of(attached_value(a1[i])) {
            scan_same_but_port_flag(a1, a2, k, i + 1, Some(p), false);
        }
    }
}

/// `-p` and `--port` are interchangeable: writing one in place of the other
/// anywhere on a command line leaves its outcome unchanged.
pub proof fn short_and_long_port_agree(args: Seq<Seq<char>>, k: int)
    requires
        0 <= k < args.len(),
    ensures
        parse_spec(args.update(k, seq!['-', 'p'])) == parse_spec(
            args.update(k, seq!['-', '-', 'p', 'o', 'r', 't']),
        ),
{
    scan_same_but_port_flag(
        args.update(k, seq!['-', 'p']),
        args.update(k, seq!['-', '-', 'p', 'o', 'r', 't']),
        k,
        0,
        None,
        false,
    );
}

} // verus!
