use vstd::prelude::*;
use vstd::string::*;

verus! {

/// What `str::trim` leaves of a text: it without its leading and trailing
/// white space.
pub uninterp spec fn trimmed(s: Seq<char>) -> Seq<char>;

/// Relies on str::trim: the text without leading and trailing white space,
/// which depends on the characters alone.
#[verifier::external_body]
fn trim_text(s: &str) -> (r: String)
    ensures
        r@ == trimmed(s@),
{
    s.trim().to_string()
}

/// Relies on str::strip_prefix: the rest of `s` after `prefix` where `s`
/// starts with `prefix`, and nothing otherwise.
#[verifier::external_body]
fn strip_prefix_text(s: &str, prefix: &str) -> (r: Option<String>)
    ensures
        r is Some <==> prefix@.is_prefix_of(s@),
        r matches Some(t) ==> t@ == s@.subrange(prefix@.len() as int, s@.len() as int),
{
    s.strip_prefix(prefix).map(|t| t.to_string())
}

pub open spec fn start_prefix() -> Seq<char> {
    seq!['s', 't', 'a', 'r', 't', ':', ' ']
}

pub open spec fn ready_prefix() -> Seq<char> {
    seq!['r', 'e', 'a', 'd', 'y', ':', ' ']
}

pub open spec fn stop_word() -> Seq<char> {
    seq!['s', 't', 'o', 'p']
}

/// The payload of the start line: the text after the required `start: `
/// prefix, without surrounding white space. Any other line is refused.
pub fn start_payload(line: &str) -> (r: Option<String>)
    ensures
        r is Some <==> start_prefix().is_prefix_of(line@),
        r matches Some(p) ==> p@ == trimmed(line@.subrange(7, line@.len() as int)),
{
    proof {
        reveal_strlit("start: ");
    }
    match strip_prefix_text(line, "start: ") {
        Some(rest) => {
            proof {
                assert("start: "@ =~= start_prefix());
            }
            Some(trim_text(rest.as_str()))
        },
        None => {
            proof {
                assert("start: "@ =~= start_prefix());
            }
            None
        },
    }
}

/// The line that reports this process's own addresses.
pub fn ready_line(payload: &str) -> (r: String)
    ensures
        r@ == ready_prefix() + payload@,
{
    let r = String::from_str("ready: ").concat(payload);
    proof {
        reveal_strlit("ready: ");
        assert("ready: "@ =~= ready_prefix());
    }
    r
}

/// Whether a control line is the stop request: exactly `stop`, with or
/// without its line terminator.
pub open spec fn is_stop_text(line: Seq<char>) -> bool {
    line == stop_word() || line == stop_word().push('\n') || line == stop_word().push(
        '\r',
    ).push('\n')
}

/// Whether a control line is the stop request.
pub fn is_stop_line(line: &str) -> (r: bool)
    ensures
        r == is_stop_text(line@),
{
    let t = String::from_str(line);
    let bare = String::from_str("stop");
    let lf = String::from_str("stop\n");
    let crlf = String::from_str("stop\r\n");
    proof {
        reveal_strlit("stop");
        reveal_strlit("stop\n");
        reveal_strlit("stop\r\n");
        assert(bare@ =~= stop_word());
        assert(lf@ =~= stop_word().push('\n'));
        assert(crlf@ =~= stop_word().push('\r').push('\n'));
    }
    t == bare || t == lf || t == crlf
}

/// Where a launched process stands in the bootstrap handshake.
#[derive(Debug, Clone, Copy, PartialEq, Eq, Structural)]
pub enum Phase {
    /// Waiting for the line of bind configurations.
    AwaitBindConfig,
    /// Bound and reported ready; waiting for the start line.
    AwaitStart,
    /// Connected and running; waiting for the stop line.
    Running,
    /// Stopped: no further line is expected.
    Stopped,
}

/// What the process does on a control line.
#[derive(Debug)]
pub enum ControlAction {
    /// Bind the ports described by this JSON text, then report ready.
    Bind(String),
    /// Connect to the peers described by this JSON text.
    Connect(String),
    /// End the run.
    Stop,
}

/// A control line that breaks the protocol; the process cannot go on.
#[derive(Debug, Clone, Copy, PartialEq, Eq, Structural)]
pub enum ProtocolError {
    /// The second line lacks the `start: ` prefix.
    ExpectedStart,
    /// A line after the start line is not the stop request.
    ExpectedStop,
    /// A line came after the stop request.
    AfterStop,
}

/// Whether `r` is the protocol's answer to `line` in `phase`.
pub open spec fn control_step_spec(
    phase: Phase,
    line: Seq<char>,
    r: Result<(Phase, ControlAction), ProtocolError>,
) -> bool {
    match phase {
        Phase::AwaitBindConfig => r matches Ok((Phase::AwaitStart, ControlAction::Bind(j)))
            && j@ == trimmed(line),
        Phase::AwaitStart => if start_prefix().is_prefix_of(line) {
            r matches Ok((Phase::Running, ControlAction::Connect(j))) && j@ == trimmed(
                line.subrange(7, line.len() as int),
            )
        } else {
            r matches Err(ProtocolError::ExpectedStart)
        },
        Phase::Running => if is_stop_text(line) {
            r matches Ok((Phase::Stopped, ControlAction::Stop))
        } else {
            r matches Err(ProtocolError::ExpectedStop)
        },
        Phase::Stopped => r matches Err(ProtocolError::AfterStop),
    }
}

/// Advances the handshake by one control line.
pub fn control_step(phase: Phase, line: &str) -> (r: Result<(Phase, ControlAction), ProtocolError>)
    ensures
        control_step_spec(phase, line@, r),
{
    match phase {
        Phase::AwaitBindConfig => Ok((Phase::AwaitStart, ControlAction::Bind(trim_text(line)))),
        Phase::AwaitStart => match start_payload(line) {
            Some(p) => Ok((Phase::Running, ControlAction::Connect(p))),
            None => Err(ProtocolError::ExpectedStart),
        },
        Phase::Running => if is_stop_line(line) {
            Ok((Phase::Stopped, ControlAction::Stop))
        } else {
            Err(ProtocolError::ExpectedStop)
        },
        Phase::Stopped => Err(ProtocolError::AfterStop),
    }
}

/// A port of the final table: an address to dial out to, or a connection
/// that is already listening.
pub enum ServerOrBound<S, B> {
    Server(S),
    Bound(B),
}

/// The names of a list of named entries.
pub open spec fn names_of<T>(entries: Seq<(String, T)>) -> Seq<Seq<char>> {
    entries.map_values(|e: (String, T)| e.0@)
}

/// The dial-out entries, in order, each as a server port.
pub open spec fn dial_entries<S, B>(dial: Seq<(String, S)>) -> Seq<(Seq<char>, ServerOrBound<S, B>)> {
    dial.map_values(|e: (String, S)| (e.0@, ServerOrBound::<S, B>::Server(e.1)))
}

/// The bound entries, in order, whose names `taken` does not hold, each as a
/// bound connection.
pub open spec fn bound_entries<S, B>(bound: Seq<(String, B)>, taken: Seq<Seq<char>>) -> Seq<
    (Seq<char>, ServerOrBound<S, B>),
>
    decreases bound.len(),
{
    if bound.len() == 0 {
        Seq::empty()
    } else {
        let rest = bound_entries::<S, B>(bound.drop_last(), taken);
        if taken.contains(bound.last().0@) {
            rest
        } else {
            rest.push((bound.last().0@, ServerOrBound::<S, B>::Bound(bound.last().1)))
        }
    }
}

/// The merged port table: every port to dial out to, then every bound
/// port whose name is not among them.
pub open spec fn merged_table<S, B>(bound: Seq<(String, B)>, dial: Seq<(String, S)>) -> Seq<
    (Seq<char>, ServerOrBound<S, B>),
> {
    dial_entries::<S, B>(dial) + bound_entries::<S, B>(bound, names_of(dial))
}

/// The table as names and ports.
pub open spec fn table_view<S, B>(t: Seq<(String, ServerOrBound<S, B>)>) -> Seq<
    (Seq<char>, ServerOrBound<S, B>),
> {
    t.map_values(|e: (String, ServerOrBound<S, B>)| (e.0@, e.1))
}

/// Whether a name is among the names of `entries`.
pub fn name_listed<T>(entries: &Vec<(String, T)>, name: &String) -> (r: bool)
    ensures
        r == names_of(entries@).contains(name@),
{
    let mut k: usize = 0;
    while k < entries.len()
        invariant
            k <= entries@.len(),
            forall|j: int| 0 <= j < k ==> #[trigger] entries@[j].0@ != name@,
        decreases entries@.len() - k,
    {
        if entries[k].0 == *name {
            assert(names_of(entries@)[k as int] == name@);
            return true;
        }
        k += 1;
    }
    proof {
        if names_of(entries@).contains(name@) {
            let j = choose|j: int|
                0 <= j < names_of(entries@).len() && names_of(entries@)[j] == name@;
            assert(entries@[j].0@ != name@);
        }
    }
    false
}

/// Merges the ports this process bound with the peer addresses it was told
/// to dial into one table. A name given an address to dial keeps that
/// address; every other bound port stays bound.
pub fn merge_port_table<S, B>(bound: Vec<(String, B)>, dial: Vec<(String, S)>) -> (r: Vec<
    (String, ServerOrBound<S, B>),
>)
    ensures
        table_view(r@) == merged_table(bound@, dial@),
{
    let ghost bound0 = bound@;
    let ghost dial0 = dial@;
    let mut bound = bound;
    let mut kept: Vec<(String, ServerOrBound<S, B>)> = Vec::new();
    let ghost mut i: int = 0;
    while bound.len() > 0
        invariant
            0 <= i <= bound0.len(),
            bound@ == bound0.subrange(i, bound0.len() as int),
            dial@ == dial0,
            table_view(kept@) == bound_entries::<S, B>(bound0.subrange(0, i), names_of(dial0)),
        decreases bound@.len(),
    {
        let (name, b) = bound.remove(0);
        proof {
            assert(bound0.subrange(0, i + 1).drop_last() =~= bound0.subrange(0, i));
            assert(bound0.subrange(0, i + 1).last() == bound0[i]);
        }
        if !name_listed(&dial, &name) {
            let ghost k0 = kept@;
            kept.push((name, ServerOrBound::Bound(b)));
            proof {
                assert(table_view(kept@) =~= table_view(k0).push((kept@.last().0@, kept@.last().1)));
            }
        }
        proof {
            i = i + 1;
            assert(bound@ =~= bound0.subrange(i, bound0.len() as int));
        }
    }
    let mut table: Vec<(String, ServerOrBound<S, B>)> = Vec::new();
    let mut dial = dial;
    let ghost mut d: int = 0;
    while dial.len() > 0
        invariant
            0 <= d <= dial0.len(),
            dial@ == dial0.subrange(d, dial0.len() as int),
            table_view(table@) == dial_entries::<S, B>(dial0.subrange(0, d)),
        decreases dial@.len(),
    {
        let ghost t0 = table@;
        let (name, s) = dial.remove(0);
        proof {
            assert((name, s) == dial0[d]);
        }
        table.push((name, ServerOrBound::Server(s)));
        proof {
            assert(table_view(table@) =~= table_view(t0).push((name@, ServerOrBound::Server(s))));
            assert(dial0.subrange(0, d + 1) =~= dial0.subrange(0, d).push(dial0[d]));
            d = d + 1;
            assert(dial@ =~= dial0.subrange(d, dial0.len() as int));
            assert(table_view(table@) =~= dial_entries::<S, B>(dial0.subrange(0, d)));
        }
    }
    proof {
        assert(bound0.subrange(0, bound0.len() as int) =~= bound0);
        assert(dial0.subrange(0, dial0.len() as int) =~= dial0);
    }
    let ghost t0 = table@;
    let ghost k1 = kept@;
    table.append(&mut kept);
    proof {
        assert(table_view(table@) =~= table_view(t0) + table_view(k1));
    }
    table
}

} // verus!
