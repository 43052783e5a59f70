//! The probe that tells whether the development server answers, made before the window is shown.
//!
//! The address comes from a URL. The probe itself is a small machine: it asks
//! its driver to connect, to sleep or to report, and the driver tells it what
//! came of each. Nothing here touches the network or the clock.

use vstd::prelude::*;
use vstd::string::*;
use crate::text::{
    eq_ignore_ascii_case, find_first, find_last, first_index_of, last_index_of, parse_u16,
    parsed_u16, same_ignoring_ascii_case, strip_prefix, stripped, text_of, texts, trim, trimmed,
};

verus! {

/// How many times a connection is tried before the server counts as unreachable.
pub const MAX_ATTEMPTS: u32 = 10;

/// How long one connection attempt may take, in milliseconds.
pub const CONNECT_TIMEOUT_MS: u64 = 250;

/// How long the probe waits after a failed attempt, in milliseconds.
pub const RETRY_DELAY_MS: u64 = 200;

/// The URL that is probed where the environment names none.
pub open spec fn default_dev_url() -> Seq<char> {
    "http://localhost:1420"@
}

/// The URL to probe: the first candidate that is set, else the default.
pub open spec fn dev_url_of(first: Option<Seq<char>>, second: Option<Seq<char>>) -> Seq<char> {
    match first {
        Some(url) => url,
        None => match second {
            Some(url) => url,
            None => default_dev_url(),
        },
    }
}

/// The port that the URL's scheme implies: 443 for `https://`, else 80.
pub open spec fn scheme_port(url: Seq<char>) -> u16 {
    if "https://"@.is_prefix_of(url) {
        443
    } else {
        80
    }
}

/// The URL without its `https://` or `http://`.
pub open spec fn without_scheme(url: Seq<char>) -> Seq<char> {
    if stripped(url, "https://"@).is_some() {
        stripped(url, "https://"@).unwrap()
    } else if stripped(url, "http://"@).is_some() {
        stripped(url, "http://"@).unwrap()
    } else {
        url
    }
}

/// The part of a URL without scheme that names host and port: all before the first slash.
pub open spec fn authority(rest: Seq<char>) -> Seq<char> {
    rest.take(first_index_of(rest, '/'))
}

/// The host and port that a URL names, if it names a host. The port is the
/// number behind the last colon, where there is a colon and a number behind
/// it, else the port that the scheme implies.
pub open spec fn host_port_of(url: Seq<char>) -> Option<(Seq<char>, u16)> {
    let whole = trimmed(url);
    let named = authority(without_scheme(whole));
    let colon = last_index_of(named, ':');
    if colon < 0 {
        if named.len() == 0 {
            None
        } else {
            Some((named, scheme_port(whole)))
        }
    } else if colon == 0 {
        None
    } else {
        Some(
            (
                named.take(colon),
                match parsed_u16(named.skip(colon + 1)) {
                    Some(port) => port,
                    None => scheme_port(whole),
                },
            ),
        )
    }
}

/// The hosts to try for a host: the host itself, and for `localhost` in any
/// case also the two loopback addresses.
pub open spec fn candidate_hosts_of(host: Seq<char>) -> Seq<Seq<char>> {
    if same_ignoring_ascii_case(host, "localhost"@) {
        seq![host, "127.0.0.1"@, "::1"@]
    } else {
        seq![host]
    }
}

/// Where to connect: the hosts to try in turn, and the port.
#[derive(Clone, Debug, PartialEq, Eq)]
pub struct ProbeTarget {
    pub hosts: Vec<String>,
    pub port: u16,
}

/// A probe target as plain values.
pub struct ProbeTargetView {
    pub hosts: Seq<Seq<char>>,
    pub port: u16,
}

impl View for ProbeTarget {
    type V = ProbeTargetView;

    open spec fn view(&self) -> ProbeTargetView {
        ProbeTargetView { hosts: texts(self.hosts@), port: self.port }
    }
}

/// The target that a URL gives, if it names a host.
pub open spec fn probe_target_of(url: Seq<char>) -> Option<ProbeTargetView> {
    match host_port_of(url) {
        Some((host, port)) => Some(ProbeTargetView { hosts: candidate_hosts_of(host), port }),
        None => None,
    }
}

/// Where the probe stands.
#[derive(Clone, Copy, Debug, PartialEq, Eq, Structural)]
pub enum ProbeState {
    /// A connection attempt is due; `failures` attempts have failed so far.
    Connecting { failures: u32 },
    /// The wait after the failed attempt number `failures` is due.
    Waiting { failures: u32 },
    /// The probe is over.
    Finished { reachable: bool },
}

/// What the driver tells the probe.
#[derive(Clone, Copy, Debug, PartialEq, Eq, Structural)]
pub enum ProbeEvent {
    /// One of the candidate addresses accepted the connection.
    Connected,
    /// No candidate address accepted the connection.
    Refused,
    /// The wait is over.
    Slept,
}

/// What the probe asks of its driver.
#[derive(Clone, Copy, Debug, PartialEq, Eq, Structural)]
pub enum ProbeAction {
    /// Try the candidate addresses in turn, each within the timeout.
    Connect { timeout_ms: u64 },
    /// Wait.
    Sleep { millis: u64 },
    /// Stop: the server is reachable or not.
    Report { reachable: bool },
}

/// The state in which the probe starts: with a target it connects, without
/// one it is over at once and the server counts as unreachable.
pub open spec fn initial_state(has_target: bool) -> ProbeState {
    if has_target {
        ProbeState::Connecting { failures: 0 }
    } else {
        ProbeState::Finished { reachable: false }
    }
}

/// The state after an event. An event that does not answer what the state
/// asked for changes nothing.
pub open spec fn next_state(state: ProbeState, event: ProbeEvent) -> ProbeState {
    match (state, event) {
        (ProbeState::Connecting { failures }, ProbeEvent::Connected) => ProbeState::Finished {
            reachable: true,
        },
        (ProbeState::Connecting { failures }, ProbeEvent::Refused) => ProbeState::Waiting {
            failures: if failures < MAX_ATTEMPTS {
                (failures + 1) as u32
            } else {
                MAX_ATTEMPTS
            },
        },
        (ProbeState::Waiting { failures }, ProbeEvent::Slept) => if failures < MAX_ATTEMPTS {
            ProbeState::Connecting { failures }
        } else {
            ProbeState::Finished { reachable: false }
        },
        _ => state,
    }
}

/// What a state asks of the driver.
pub open spec fn action_of(state: ProbeState) -> ProbeAction {
    match state {
        ProbeState::Connecting { failures } => ProbeAction::Connect {
            timeout_ms: CONNECT_TIMEOUT_MS,
        },
        ProbeState::Waiting { failures } => ProbeAction::Sleep { millis: RETRY_DELAY_MS },
        ProbeState::Finished { reachable } => ProbeAction::Report { reachable },
    }
}

impl ProbeState {
    /// The states that a probe can be in: an attempt is due only while fewer
    /// than the limit have failed, and a wait follows at least one failure.
    pub open spec fn well_formed(self) -> bool {
        match self {
            ProbeState::Connecting { failures } => failures < MAX_ATTEMPTS,
            ProbeState::Waiting { failures } => 1 <= failures <= MAX_ATTEMPTS,
            ProbeState::Finished { reachable } => true,
        }
    }
}

/// The state after `rounds` rounds in each of which the connection was
/// refused and the wait was made.
pub open spec fn after_refused_rounds(rounds: nat) -> ProbeState
    decreases rounds,
{
    if rounds == 0 {
        initial_state(true)
    } else {
        next_state(
            next_state(after_refused_rounds((rounds - 1) as nat), ProbeEvent::Refused),
            ProbeEvent::Slept,
        )
    }
}

/// Picks the URL to probe from the two candidates of the environment.
pub fn choose_dev_url(first: Option<String>, second: Option<String>) -> (url: String)
    ensures
        url@ == dev_url_of(text_of(first), text_of(second)),
{
    match first {
        Some(url) => url,
        None => match second {
            Some(url) => url,
            None => "http://localhost:1420".to_owned(),
        },
    }
}

/// Reads host and port from a URL.
pub fn parse_host_port(url: &str) -> (target: Option<(String, u16)>)
    ensures
        match target {
            Some((host, port)) => host_port_of(url@) == Some((host@, port)),
            None => host_port_of(url@).is_none(),
        },
{
    let whole = trim(url);
    let secure = strip_prefix(whole, "https://");
    let plain = strip_prefix(whole, "http://");
    let (fallback, rest): (u16, &str) = match secure {
        Some(rest) => (443, rest),
        None => match plain {
            Some(rest) => (80, rest),
            None => (80, whole),
        },
    };
    assert(fallback == scheme_port(whole@));
    assert(rest@ == without_scheme(whole@));
    let slash = find_first(rest, '/');
    let named = rest.substring_char(0, slash);
    assert(named@ == authority(rest@));
    let size = named.unicode_len();
    match find_last(named, ':') {
        None => {
            if size == 0 {
                None
            } else {
                Some((named.to_owned(), fallback))
            }
        },
        Some(colon) => {
            if colon == 0 {
                None
            } else {
                let host = named.substring_char(0, colon);
                let port_text = named.substring_char(colon + 1, size);
                let port = match parse_u16(port_text) {
                    Some(port) => port,
                    None => fallback,
                };
                Some((host.to_owned(), port))
            }
        },
    }
}

/// Lists the hosts to try for a host.
pub fn candidate_hosts(host: &str) -> (hosts: Vec<String>)
    ensures
        texts(hosts@) == candidate_hosts_of(host@),
{
    let mut hosts: Vec<String> = Vec::new();
    hosts.push(host.to_owned());
    if eq_ignore_ascii_case(host, "localhost") {
        hosts.push("127.0.0.1".to_owned());
        hosts.push("::1".to_owned());
    }
    assert(texts(hosts@) =~= candidate_hosts_of(host@));
    hosts
}

/// Works out where to connect for a URL.
pub fn probe_target(url: &str) -> (target: Option<ProbeTarget>)
    ensures
        match target {
            Some(found) => probe_target_of(url@) == Some(found@),
            None => probe_target_of(url@).is_none(),
        },
{
    match parse_host_port(url) {
        Some((host, port)) => Some(ProbeTarget { hosts: candidate_hosts(host.as_str()), port }),
        None => None,
    }
}

/// Starts a probe of the server at `url`: gives the first state and the
/// target. A URL that names no host gives no target and a probe that is over
/// before any attempt.
pub fn start_probe(url: &str) -> (started: (ProbeState, Option<ProbeTarget>))
    ensures
        started.0 == initial_state(host_port_of(url@).is_some()),
        started.0.well_formed(),
        match started.1 {
            Some(found) => probe_target_of(url@) == Some(found@),
            None => probe_target_of(url@).is_none(),
        },
{
    let target = probe_target(url);
    let state = if target.is_some() {
        ProbeState::Connecting { failures: 0 }
    } else {
        ProbeState::Finished { reachable: false }
    };
    (state, target)
}

/// Tells what the probe asks of its driver next.
pub fn pending_action(state: ProbeState) -> (action: ProbeAction)
    ensures
        action == action_of(state),
{
    match state {
        ProbeState::Connecting { failures } => ProbeAction::Connect {
            timeout_ms: CONNECT_TIMEOUT_MS,
        },
        ProbeState::Waiting { failures } => ProbeAction::Sleep { millis: RETRY_DELAY_MS },
        ProbeState::Finished { reachable } => ProbeAction::Report { reachable },
    }
}

/// Moves the probe on by one event.
pub fn advance(state: ProbeState, event: ProbeEvent) -> (next: ProbeState)
    ensures
        next == next_state(state, event),
        state.well_formed() ==> next.well_formed(),
{
    match state {
        ProbeState::Connecting { failures } => match event {
            ProbeEvent::Connected => ProbeState::Finished { reachable: true },
            ProbeEvent::Refused => ProbeState::Waiting {
                failures: if failures < MAX_ATTEMPTS {
                    failures + 1
                } else {
                    MAX_ATTEMPTS
                },
            },
            ProbeEvent::Slept => state,
        },
        ProbeState::Waiting { failures } => match event {
            ProbeEvent::Slept => if failures < MAX_ATTEMPTS {
                ProbeState::Connecting { failures }
            } else {
                ProbeState::Finished { reachable: false }
            },
            _ => state,
        },
        ProbeState::Finished { reachable } => state,
    }
}

/// A URL that is empty, or blank, names no host.
pub proof fn law_blank_url_has_no_target(url: Seq<char>)
    requires
        trimmed(url).len() == 0,
    ensures
        host_port_of(url).is_none(),
        probe_target_of(url).is_none(),
{
    reveal_strlit("https://");
    reveal_strlit("http://");
    let whole = trimmed(url);
    assert(without_scheme(whole) == whole);
    crate::text::lemma_first_index_unique(whole, '/', 0);
    let named = authority(whole);
    assert(named.len() == 0);
    crate::text::lemma_last_index_unique(named, ':', -1);
}

/// The empty URL is blank.
pub proof fn law_empty_url_has_no_target()
    ensures
        host_port_of(Seq::<char>::empty()).is_none(),
{
    law_blank_url_has_no_target(Seq::<char>::empty());
}

/// For a URL that names no host the probe is over before any attempt: its
/// first state asks for the report that the server is unreachable, and no
/// event leads it anywhere else.
pub proof fn law_unreadable_url_reports_at_once(url: Seq<char>, event: ProbeEvent)
    requires
        host_port_of(url).is_none(),
    ensures
        action_of(initial_state(host_port_of(url).is_some())) == (ProbeAction::Report {
            reachable: false,
        }),
        next_state(initial_state(host_port_of(url).is_some()), event) == initial_state(false),
{
}

/// While every connection is refused, the probe asks for ten attempts and
/// ten waits, one wait after each attempt, and only then reports the server
/// as unreachable: after fewer than ten such rounds the next attempt is due.
pub proof fn law_refused_probe_takes_all_attempts(rounds: nat)
    requires
        rounds <= MAX_ATTEMPTS,
    ensures
        rounds < MAX_ATTEMPTS ==> after_refused_rounds(rounds) == (ProbeState::Connecting {
            failures: rounds as u32,
        }),
        rounds < MAX_ATTEMPTS ==> action_of(after_refused_rounds(rounds)) == (ProbeAction::Connect {
            timeout_ms: CONNECT_TIMEOUT_MS,
        }),
        rounds < MAX_ATTEMPTS ==> action_of(
            next_state(after_refused_rounds(rounds), ProbeEvent::Refused),
        ) == (ProbeAction::Sleep { millis: RETRY_DELAY_MS }),
        rounds == MAX_ATTEMPTS ==> after_refused_rounds(rounds) == (ProbeState::Finished {
            reachable: false,
        }),
    decreases rounds,
{
    if rounds > 0 {
        law_refused_probe_takes_all_attempts((rounds - 1) as nat);
    }
}

/// The report that the server is unreachable comes only at the start, for a
/// URL without host, or after the wait that follows the last allowed attempt.
pub proof fn law_unreachable_only_after_last_wait(state: ProbeState, event: ProbeEvent)
    requires
        state.well_formed(),
        state != (ProbeState::Finished { reachable: false }),
        next_state(state, event) == (ProbeState::Finished { reachable: false }),
    ensures
        state == (ProbeState::Waiting { failures: MAX_ATTEMPTS }),
        event == ProbeEvent::Slept,
{
}

/// One success ends the probe at once, whatever failed before.
pub proof fn law_connection_ends_probe(failures: u32)
    ensures
        next_state(ProbeState::Connecting { failures }, ProbeEvent::Connected) == (
        ProbeState::Finished { reachable: true }),
{
}

} // verus!
