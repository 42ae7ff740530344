//! Commands, events and the decisions of the instance supervisor.

use vstd::prelude::*;
use vstd::string::*;
use crate::cache::VmixState;
use crate::config::{spec_endpoint_key, VmixInstanceConfig};
use crate::status::{ConnectionStatus, InstanceStatus};
use crate::text::{
    is_ws, trim_end, trim_start, string_views, dec, ends_with, has_suffix, owned, pair_text, push_decimal,
    split_all, str_eq, trim, trim_str,
};

verus! {

/// Tunables for connection and retry behaviour, in milliseconds.
#[derive(Clone, Debug)]
pub struct PoolOptions {
    pub connect_timeout_ms: u64,
    pub initial_backoff_ms: u64,
    pub max_backoff_ms: u64,
}

impl Default for PoolOptions {
    fn default() -> (r: Self)
        ensures
            r.connect_timeout_ms == 5000,
            r.initial_backoff_ms == 500,
            r.max_backoff_ms == 30000,
    {
        PoolOptions { connect_timeout_ms: 5000, initial_backoff_ms: 500, max_backoff_ms: 30000 }
    }
}

impl PoolOptions {
    /// Short timeouts for tests against a local stand-in server.
    pub fn for_tests() -> (r: Self)
        ensures
            r.connect_timeout_ms == 2000,
            r.initial_backoff_ms == 40,
            r.max_backoff_ms == 200,
    {
        PoolOptions { connect_timeout_ms: 2000, initial_backoff_ms: 40, max_backoff_ms: 200 }
    }
}

/// Outbound command owned by the instance thread.
#[derive(Clone, Debug, PartialEq, Eq)]
pub enum Command {
    Function { name: String, query: Option<String> },
    Raw(String),
}

/// The text content of a command.
pub enum CommandView {
    Function { name: Seq<char>, query: Option<Seq<char>> },
    Raw(Seq<char>),
}

pub open spec fn opt_text(o: Option<String>) -> Option<Seq<char>> {
    match o {
        Some(s) => Some(s@),
        None => None,
    }
}

pub open spec fn command_view(c: Command) -> CommandView {
    match c {
        Command::Function { name, query } => CommandView::Function {
            name: name@,
            query: opt_text(query),
        },
        Command::Raw(raw) => CommandView::Raw(raw@),
    }
}

pub open spec fn opt_command_view(c: Option<Command>) -> Option<CommandView> {
    match c {
        Some(c) => Some(command_view(c)),
        None => None,
    }
}

/// Events emitted by every supervised instance.
#[derive(Clone, Debug)]
pub enum PoolEvent {
    Status(InstanceStatus),
    Activator { id: String, name: String },
    Snapshot { id: String },
    Function { id: String, ok: bool },
}

/// Why a command could not be handed to an instance.
#[derive(Clone, Debug, PartialEq, Eq)]
pub enum CallError {
    /// The instance is not configured.
    Unknown(String),
    /// The instance is not connected.
    Unavailable(String),
}


/// The first configured instance with this id.
pub open spec fn find_config(configs: Seq<VmixInstanceConfig>, id: Seq<char>) -> Option<VmixInstanceConfig>
    decreases configs.len(),
{
    if configs.len() == 0 {
        None
    } else if configs[0].id@ == id {
        Some(configs[0])
    } else {
        find_config(configs.drop_first(), id)
    }
}

/// The configuration of an instance, looked up by id.
pub fn config_for<'a>(configs: &'a [VmixInstanceConfig], id: &str) -> (r: Option<&'a VmixInstanceConfig>)
    ensures
        match r {
            Some(c) => find_config(configs@, id@) == Some(*c),
            None => find_config(configs@, id@) is None,
        },
{
    let mut i: usize = 0;
    assert(configs@.subrange(0, configs@.len() as int) =~= configs@);
    while i < configs.len()
        invariant
            i <= configs@.len(),
            find_config(configs@, id@) == find_config(
                configs@.subrange(i as int, configs@.len() as int),
                id@,
            ),
        decreases configs@.len() - i,
    {
        assert(configs@.subrange(i as int, configs@.len() as int).drop_first() =~= configs@.subrange(
            i + 1,
            configs@.len() as int,
        ));
        if str_eq(configs[i].id.as_str(), id) {
            return Some(&configs[i]);
        }
        i = i + 1;
    }
    None
}

/// Whether a command for `id` can be handed over: the instance must be configured
/// and have a live session (`live`).
pub fn send_check(configs: &[VmixInstanceConfig], id: &str, live: bool) -> (r: Result<(), CallError>)
    ensures
        match r {
            Ok(()) => find_config(configs@, id@) is Some && live,
            Err(CallError::Unknown(s)) => s@ == id@ && find_config(configs@, id@) is None,
            Err(CallError::Unavailable(s)) => s@ == id@ && find_config(configs@, id@) is Some
                && !live,
        },
{
    if config_for(configs, id).is_none() {
        return Err(CallError::Unknown(owned(id)));
    }
    if !live {
        return Err(CallError::Unavailable(owned(id)));
    }
    Ok(())
}

/// The status row of a configured instance; an instance nothing was heard from
/// yet is `Connecting`.
pub fn instance_status(
    configs: &[VmixInstanceConfig],
    id: &str,
    status: Option<ConnectionStatus>,
) -> (r: Option<InstanceStatus>)
    ensures
        match find_config(configs@, id@) {
            None => r is None,
            Some(c) => r matches Some(row) && row.id@ == c.id@ && row.name@ == c.name@
                && row.color@ == c.color@ && row.host@ == c.host@ && row.port == c.port
                && row.enabled == c.enabled && row.status == (match status {
                Some(s) => s,
                None => ConnectionStatus::Connecting,
            }),
        },
{
    let config = match config_for(configs, id) {
        Some(c) => c,
        None => {
            return None;
        },
    };
    let status = match status {
        Some(s) => s,
        None => ConnectionStatus::Connecting,
    };
    Some(
        InstanceStatus {
            id: config.id.clone(),
            name: config.name.clone(),
            color: config.color.clone(),
            host: config.host.clone(),
            port: config.port,
            enabled: config.enabled,
            status,
        },
    )
}

/// The text of an optional string, empty when absent.
pub open spec fn text_or_empty(o: Option<String>) -> Seq<char> {
    match o {
        Some(s) => s@,
        None => seq![],
    }
}

/// Status after a `VERSION` reply: connected, with the edition the cache has seen.
pub fn status_after_version(version: Option<String>, cached: Option<&VmixState>) -> (r: ConnectionStatus)
    ensures
        r matches ConnectionStatus::Connected { vmix_version, edition } && vmix_version@
            == text_or_empty(version) && edition@ == (match cached {
            Some(s) => s.edition@,
            None => Seq::<char>::empty(),
        }),
{
    let vmix_version = match version {
        Some(v) => v,
        None => String::new(),
    };
    let edition = match cached {
        Some(s) => s.edition.clone(),
        None => String::new(),
    };
    ConnectionStatus::Connected { vmix_version, edition }
}

/// Status after an XML snapshot was merged: connected once the snapshot named a version.
pub fn status_after_snapshot(state: &VmixState) -> (r: Option<ConnectionStatus>)
    ensures
        state.version@.len() == 0 ==> r is None,
        state.version@.len() > 0 ==> (r matches Some(ConnectionStatus::Connected { vmix_version, edition })
            && vmix_version@ == state.version@ && edition@ == state.edition@),
{
    if state.version.unicode_len() == 0 {
        None
    } else {
        Some(
            ConnectionStatus::Connected {
                vmix_version: state.version.clone(),
                edition: state.edition.clone(),
            },
        )
    }
}

/// `host:port` as the supervisor hands it to the address parser.
pub open spec fn spec_address_text(c: VmixInstanceConfig) -> Seq<char> {
    trim(c.host@) + ":"@ + dec(c.port as nat)
}

pub fn address_text(config: &VmixInstanceConfig) -> (r: String)
    ensures
        r@ == spec_address_text(*config),
{
    let mut s = owned(trim_str(config.host.as_str()));
    s.append(":");
    push_decimal(&mut s, config.port as u64);
    s
}

/// What the supervisor does before opening a session.
pub enum Gate {
    /// The instance is no longer configured: the supervisor ends.
    Stop,
    /// The instance is switched off: report `Disabled` and look again later.
    Disabled,
    /// Open a session to this `host:port`.
    Connect { address: String },
}

pub fn gate(config: Option<&VmixInstanceConfig>) -> (r: Gate)
    ensures
        match config {
            None => r is Stop,
            Some(c) => if c.enabled {
                r matches Gate::Connect { address } && address@ == spec_address_text(*c)
            } else {
                r is Disabled
            },
        },
{
    match config {
        None => Gate::Stop,
        Some(c) => if c.enabled {
            Gate::Connect { address: address_text(c) }
        } else {
            Gate::Disabled
        },
    }
}

/// The next retry delay: twice the last one, capped at `max_ms`.
pub open spec fn spec_next_backoff(backoff_ms: u64, max_ms: u64) -> u64 {
    if 2 * backoff_ms <= max_ms {
        (2 * backoff_ms) as u64
    } else {
        max_ms
    }
}

pub fn next_backoff(backoff_ms: u64, max_ms: u64) -> (r: u64)
    ensures
        r == spec_next_backoff(backoff_ms, max_ms),
{
    if backoff_ms <= max_ms / 2 {
        backoff_ms * 2
    } else {
        max_ms
    }
}

/// What the supervisor does once a session has ended.
pub enum AfterSession {
    /// The slot was stopped: the supervisor ends.
    Stop,
    /// A reconnect was asked for: open a new session at once, backoff reset.
    Reconnect { backoff_ms: u64 },
    /// The connection dropped: report it, wait `wait_ms`, then retry with `backoff_ms`.
    Retry { wait_ms: u64, backoff_ms: u64 },
}

pub fn after_session(stop: bool, recycle: bool, backoff_ms: u64, options: &PoolOptions) -> (r: AfterSession)
    ensures
        stop ==> r is Stop,
        !stop && recycle ==> r == (AfterSession::Reconnect { backoff_ms: options.initial_backoff_ms }),
        !stop && !recycle ==> r == (AfterSession::Retry {
            wait_ms: backoff_ms,
            backoff_ms: spec_next_backoff(backoff_ms, options.max_backoff_ms),
        }),
{
    if stop {
        AfterSession::Stop
    } else if recycle {
        AfterSession::Reconnect { backoff_ms: options.initial_backoff_ms }
    } else {
        AfterSession::Retry {
            wait_ms: backoff_ms,
            backoff_ms: next_backoff(backoff_ms, options.max_backoff_ms),
        }
    }
}

/// Whether the session polls XML and activators now: polling is on, the startup
/// requests are all sent, and the poll is due.
pub fn should_poll(interval_ms: u64, startup_left: usize, due: bool) -> (r: bool)
    ensures
        r == (interval_ms != 0 && startup_left == 0 && due),
{
    interval_ms != 0 && startup_left == 0 && due
}

/// A request the session sends right after connecting.
#[derive(Clone, Debug, PartialEq, Eq)]
pub enum StartupCommand {
    SubscribeActs,
    Version,
    Function { name: String },
    Xml,
    Acts { name: String },
}

/// The text content of a startup request.
pub enum StartupView {
    SubscribeActs,
    Version,
    Function { name: Seq<char> },
    Xml,
    Acts { name: Seq<char> },
}

pub open spec fn startup_view(c: StartupCommand) -> StartupView {
    match c {
        StartupCommand::SubscribeActs => StartupView::SubscribeActs,
        StartupCommand::Version => StartupView::Version,
        StartupCommand::Function { name } => StartupView::Function { name: name@ },
        StartupCommand::Xml => StartupView::Xml,
        StartupCommand::Acts { name } => StartupView::Acts { name: name@ },
    }
}

pub open spec fn startup_views(v: Seq<StartupCommand>) -> Seq<StartupView> {
    v.map_values(|c: StartupCommand| startup_view(c))
}

/// Subscribe to activators, ask the version, refresh activators and XML, then ask
/// the current state of each activator that keys show, overlays 1 to 8 last.
pub open spec fn spec_startup_commands() -> Seq<StartupView> {
    seq![
        StartupView::SubscribeActs,
        StartupView::Version,
        StartupView::Function { name: "ActivatorRefresh"@ },
        StartupView::Xml,
        StartupView::Acts { name: "Recording"@ },
        StartupView::Acts { name: "Streaming"@ },
        StartupView::Acts { name: "External"@ },
        StartupView::Acts { name: "FadeToBlack"@ },
        StartupView::Acts { name: "Fullscreen"@ },
        StartupView::Acts { name: "ReplayPlaying"@ },
        StartupView::Acts { name: "Input"@ },
        StartupView::Acts { name: "InputPreview"@ },
    ] + Seq::new(8, |k: int| StartupView::Acts { name: "Overlay"@ + dec((k + 1) as nat) })
}

pub fn startup_commands() -> (r: Vec<StartupCommand>)
    ensures
        startup_views(r@) == spec_startup_commands(),
{
    let mut commands: Vec<StartupCommand> = Vec::new();
    commands.push(StartupCommand::SubscribeActs);
    commands.push(StartupCommand::Version);
    commands.push(StartupCommand::Function { name: owned("ActivatorRefresh") });
    commands.push(StartupCommand::Xml);
    commands.push(StartupCommand::Acts { name: owned("Recording") });
    commands.push(StartupCommand::Acts { name: owned("Streaming") });
    commands.push(StartupCommand::Acts { name: owned("External") });
    commands.push(StartupCommand::Acts { name: owned("FadeToBlack") });
    commands.push(StartupCommand::Acts { name: owned("Fullscreen") });
    commands.push(StartupCommand::Acts { name: owned("ReplayPlaying") });
    commands.push(StartupCommand::Acts { name: owned("Input") });
    commands.push(StartupCommand::Acts { name: owned("InputPreview") });
    let ghost head = startup_views(commands@);
    let ghost overlays = Seq::new(8, |k: int| StartupView::Acts { name: "Overlay"@ + dec((k + 1) as nat) });
    let mut channel: u64 = 1;
    while channel <= 8
        invariant
            1 <= channel <= 9,
            head.len() == 12,
            overlays == Seq::new(8, |k: int| StartupView::Acts { name: "Overlay"@ + dec((k + 1) as nat) }),
            startup_views(commands@) == head + overlays.subrange(0, channel - 1),
        decreases 9 - channel,
    {
        let mut name = owned("Overlay");
        push_decimal(&mut name, channel);
        let ghost before = commands@;
        commands.push(StartupCommand::Acts { name });
        assert(startup_views(commands@) =~= startup_views(before).push(startup_view(commands@.last())));
        assert(overlays.subrange(0, channel as int) =~= overlays.subrange(0, channel - 1).push(
            overlays[channel - 1],
        ));
        channel = channel + 1;
    }
    assert(overlays.subrange(0, 8) =~= overlays);
    assert(head =~= seq![
        StartupView::SubscribeActs,
        StartupView::Version,
        StartupView::Function { name: "ActivatorRefresh"@ },
        StartupView::Xml,
        StartupView::Acts { name: "Recording"@ },
        StartupView::Acts { name: "Streaming"@ },
        StartupView::Acts { name: "External"@ },
        StartupView::Acts { name: "FadeToBlack"@ },
        StartupView::Acts { name: "Fullscreen"@ },
        StartupView::Acts { name: "ReplayPlaying"@ },
        StartupView::Acts { name: "Input"@ },
        StartupView::Acts { name: "InputPreview"@ },
    ]);
    commands
}

/// The lines of a raw command that are sent: each trimmed, blank ones skipped,
/// each ended with CRLF.
pub open spec fn payload_lines(lines: Seq<Seq<char>>) -> Seq<Seq<char>>
    decreases lines.len(),
{
    if lines.len() == 0 {
        seq![]
    } else {
        let rest = payload_lines(lines.drop_last());
        let t = trim(lines.last());
        if t.len() == 0 {
            rest
        } else if has_suffix(t, "\r\n"@) {
            rest.push(t)
        } else {
            rest.push(t + "\r\n"@)
        }
    }
}

pub open spec fn spec_raw_payloads(raw: Seq<char>) -> Seq<Seq<char>> {
    payload_lines(split_all(raw, '\n'))
}

fn push_payload(out: &mut Vec<String>, line: &str)
    ensures
        ({
            let t = trim(line@);
            string_views(final(out)@) == if t.len() == 0 {
                string_views(old(out)@)
            } else if has_suffix(t, "\r\n"@) {
                string_views(old(out)@).push(t)
            } else {
                string_views(old(out)@).push(t + "\r\n"@)
            }
        }),
{
    let line = trim_str(line);
    if line.unicode_len() == 0 {
        return ;
    }
    let mut payload = owned(line);
    if !ends_with(line, "\r\n") {
        payload.append("\r\n");
    }
    let ghost before = out@;
    out.push(payload);
    assert(string_views(out@) =~= string_views(before).push(payload@));
}

/// The payloads of a raw command: one per non-blank line.
pub fn raw_payloads(raw: &str) -> (r: Vec<String>)
    ensures
        string_views(r@) == spec_raw_payloads(raw@),
{
    let mut out: Vec<String> = Vec::new();
    let n = raw.unicode_len();
    let mut start: usize = 0;
    let mut i: usize = 0;
    proof {
        assert(raw@.subrange(0, 0) =~= Seq::<char>::empty());
        assert(split_all(raw@.subrange(0, 0), '\n') =~= seq![Seq::<char>::empty()]);
        assert(split_all(raw@.subrange(0, 0), '\n').drop_last() =~= Seq::<Seq<char>>::empty());
        assert(string_views(out@) =~= Seq::<Seq<char>>::empty());
    }
    while i < n
        invariant
            n == raw@.len(),
            start <= i <= n,
            split_all(raw@.subrange(0, i as int), '\n').len() >= 1,
            split_all(raw@.subrange(0, i as int), '\n').last() == raw@.subrange(
                start as int,
                i as int,
            ),
            string_views(out@) == payload_lines(
                split_all(raw@.subrange(0, i as int), '\n').drop_last(),
            ),
        decreases n - i,
    {
        let c = raw.get_char(i);
        let ghost pre = raw@.subrange(0, i as int);
        let ghost r = split_all(pre, '\n');
        assert(raw@.subrange(0, i + 1).drop_last() =~= pre);
        assert(raw@.subrange(0, i + 1).last() == c);
        if c == '\n' {
            let piece = raw.substring_char(start, i);
            push_payload(&mut out, piece);
            proof {
                let r2 = r.push(seq![]);
                assert(r2.drop_last() =~= r);
                assert(r =~= r.drop_last().push(r.last()));
                assert(raw@.subrange(i + 1, i + 1) =~= Seq::<char>::empty());
            }
            start = i + 1;
        } else {
            proof {
                let r2 = r.update(r.len() - 1, r.last().push(c));
                assert(r2.drop_last() =~= r.drop_last());
                assert(r2.last() =~= raw@.subrange(start as int, i + 1));
            }
        }
        i = i + 1;
    }
    let last = raw.substring_char(start, n);
    push_payload(&mut out, last);
    proof {
        let r = split_all(raw@.subrange(0, n as int), '\n');
        assert(raw@.subrange(0, n as int) =~= raw@);
        assert(r =~= r.drop_last().push(r.last()));
    }
    out
}


/// The endpoint recorded last for `id` in a list of `(id, endpoint)` slots.
pub open spec fn last_endpoint(w: Seq<(Seq<char>, Seq<char>)>, id: Seq<char>) -> Option<Seq<char>>
    decreases w.len(),
{
    if w.len() == 0 {
        None
    } else if w.last().0 == id {
        Some(w.last().1)
    } else {
        last_endpoint(w.drop_last(), id)
    }
}

/// Sessions to (re)start, in configuration order: one for each configured id whose
/// slot is missing or runs against another endpoint than its first configuration's.
pub open spec fn planned_starts(
    slots: Seq<(Seq<char>, Seq<char>)>,
    all: Seq<VmixInstanceConfig>,
    prefix: Seq<VmixInstanceConfig>,
) -> Seq<(Seq<char>, Seq<char>)>
    decreases prefix.len(),
{
    if prefix.len() == 0 {
        seq![]
    } else {
        let s = planned_starts(slots, all, prefix.drop_last());
        let id = prefix.last().id@;
        match find_config(all, id) {
            Some(c) => {
                let e = spec_endpoint_key(c);
                if last_endpoint(slots + s, id) == Some(e) {
                    s
                } else {
                    s.push((id, e))
                }
            },
            None => s,
        }
    }
}

/// Slots whose instance is no longer configured, in slot order.
pub open spec fn stale_slots(slots: Seq<(Seq<char>, Seq<char>)>, configs: Seq<VmixInstanceConfig>) -> Seq<Seq<char>>
    decreases slots.len(),
{
    if slots.len() == 0 {
        seq![]
    } else {
        let r = stale_slots(slots.drop_last(), configs);
        if find_config(configs, slots.last().0) is None {
            r.push(slots.last().0)
        } else {
            r
        }
    }
}

/// What a reconcile changes: sessions to stop, and sessions to (re)start with the
/// endpoint they run against.
pub struct ReconcilePlan {
    pub stop: Vec<String>,
    pub start: Vec<(String, String)>,
}

fn find_last(w: &Vec<(String, String)>, id: &str) -> (r: Option<usize>)
    ensures
        match r {
            Some(k) => k < w@.len() && last_endpoint(pair_text(w@), id@) == Some(w@[k as int].1@),
            None => last_endpoint(pair_text(w@), id@) is None,
        },
{
    let mut k: usize = w.len();
    assert(w@.subrange(0, w@.len() as int) =~= w@);
    while k > 0
        invariant
            k <= w@.len(),
            last_endpoint(pair_text(w@), id@) == last_endpoint(pair_text(w@.subrange(0, k as int)), id@),
        decreases k,
    {
        assert(pair_text(w@.subrange(0, k as int)).drop_last() =~= pair_text(w@.subrange(0, k - 1)));
        if str_eq(w[k - 1].0.as_str(), id) {
            return Some(k - 1);
        }
        k = k - 1;
    }
    None
}

proof fn lemma_last_endpoint_concat(a: Seq<(Seq<char>, Seq<char>)>, b: Seq<(Seq<char>, Seq<char>)>, id: Seq<char>)
    ensures
        last_endpoint(a + b, id) == (match last_endpoint(b, id) {
            Some(e) => Some(e),
            None => last_endpoint(a, id),
        }),
    decreases b.len(),
{
    if b.len() == 0 {
        assert(a + b =~= a);
    } else {
        assert((a + b).drop_last() =~= a + b.drop_last());
        lemma_last_endpoint_concat(a, b.drop_last(), id);
    }
}

/// Which sessions a reconcile stops and which it (re)starts.
pub fn plan_reconcile(slots: &Vec<(String, String)>, configs: &[VmixInstanceConfig]) -> (r: ReconcilePlan)
    ensures
        string_views(r.stop@) == stale_slots(pair_text(slots@), configs@),
        pair_text(r.start@) == planned_starts(pair_text(slots@), configs@, configs@),
{
    let ghost sv = pair_text(slots@);
    let mut stop: Vec<String> = Vec::new();
    let mut i: usize = 0;
    while i < slots.len()
        invariant
            i <= slots@.len(),
            sv == pair_text(slots@),
            string_views(stop@) == stale_slots(sv.subrange(0, i as int), configs@),
        decreases slots@.len() - i,
    {
        assert(sv.subrange(0, i + 1).drop_last() =~= sv.subrange(0, i as int));
        if config_for(configs, slots[i].0.as_str()).is_none() {
            let ghost before = stop@;
            stop.push(slots[i].0.clone());
            assert(string_views(stop@) =~= string_views(before).push(slots@[i as int].0@));
        }
        i = i + 1;
    }
    assert(sv.subrange(0, sv.len() as int) =~= sv);
    let mut start: Vec<(String, String)> = Vec::new();
    let mut j: usize = 0;
    assert(pair_text(start@) =~= Seq::<(Seq<char>, Seq<char>)>::empty());
    while j < configs.len()
        invariant
            j <= configs@.len(),
            sv == pair_text(slots@),
            pair_text(start@) == planned_starts(sv, configs@, configs@.subrange(0, j as int)),
        decreases configs@.len() - j,
    {
        assert(configs@.subrange(0, j + 1).drop_last() =~= configs@.subrange(0, j as int));
        let id = configs[j].id.as_str();
        match config_for(configs, id) {
            Some(config) => {
                let endpoint = config.endpoint_key();
                let found = match find_last(&start, id) {
                    Some(k) => Some(&start[k].1),
                    None => match find_last(slots, id) {
                        Some(k) => Some(&slots[k].1),
                        None => None,
                    },
                };
                proof {
                    lemma_last_endpoint_concat(sv, pair_text(start@), id@);
                }
                let same = match found {
                    Some(e) => str_eq(e.as_str(), endpoint.as_str()),
                    None => false,
                };
                if !same {
                    let ghost before = start@;
                    start.push((configs[j].id.clone(), endpoint));
                    assert(pair_text(start@) =~= pair_text(before).push((id@, spec_endpoint_key(*config))));
                }
            },
            None => {},
        }
        j = j + 1;
    }
    assert(configs@.subrange(0, configs@.len() as int) =~= configs@);
    ReconcilePlan { stop, start }
}

proof fn lemma_find_config_some(all: Seq<VmixInstanceConfig>, j: int)
    requires
        0 <= j < all.len(),
    ensures
        find_config(all, all[j].id@) is Some,
    decreases j,
{
    if j > 0 && all[0].id@ != all[j].id@ {
        lemma_find_config_some(all.drop_first(), j - 1);
        assert(all.drop_first()[j - 1] == all[j]);
    }
}

proof fn lemma_starts_cover(slots: Seq<(Seq<char>, Seq<char>)>, all: Seq<VmixInstanceConfig>, k: int)
    requires
        0 <= k <= all.len(),
    ensures
        forall|j: int|
            0 <= j < k ==> #[trigger] last_endpoint(
                slots + planned_starts(slots, all, all.subrange(0, k)),
                all[j].id@,
            ) == Some(spec_endpoint_key(find_config(all, all[j].id@)->0)),
    decreases k,
{
    if k > 0 {
        lemma_starts_cover(slots, all, k - 1);
        let p = all.subrange(0, k);
        assert(p.drop_last() =~= all.subrange(0, k - 1));
        let s = planned_starts(slots, all, all.subrange(0, k - 1));
        let id = all[k - 1].id@;
        lemma_find_config_some(all, k - 1);
        let e = spec_endpoint_key(find_config(all, id)->0);
        assert forall|j: int| 0 <= j < k implies #[trigger] last_endpoint(
            slots + planned_starts(slots, all, p),
            all[j].id@,
        ) == Some(spec_endpoint_key(find_config(all, all[j].id@)->0)) by {
            if last_endpoint(slots + s, id) != Some(e) {
                assert(slots + s.push((id, e)) =~= (slots + s).push((id, e)));
                assert((slots + s).push((id, e)).drop_last() =~= slots + s);
            }
            if j < k - 1 {
                assert(last_endpoint(slots + s, all[j].id@) == Some(
                    spec_endpoint_key(find_config(all, all[j].id@)->0),
                ));
            }
        }
    }
}

/// After a reconcile every configured instance has a session, and it runs against
/// the endpoint of that instance's configuration.
pub proof fn reconcile_covers_every_instance(slots: Seq<(Seq<char>, Seq<char>)>, configs: Seq<VmixInstanceConfig>)
    ensures
        forall|j: int|
            0 <= j < configs.len() ==> #[trigger] last_endpoint(
                slots + planned_starts(slots, configs, configs),
                configs[j].id@,
            ) == Some(spec_endpoint_key(find_config(configs, configs[j].id@)->0)),
{
    lemma_starts_cover(slots, configs, configs.len() as int);
    assert(configs.subrange(0, configs.len() as int) =~= configs);
}

proof fn lemma_starts_skip(
    slots: Seq<(Seq<char>, Seq<char>)>,
    all: Seq<VmixInstanceConfig>,
    prefix: Seq<VmixInstanceConfig>,
    id: Seq<char>,
)
    requires
        find_config(all, id) is Some,
        last_endpoint(slots, id) == Some(spec_endpoint_key(find_config(all, id)->0)),
    ensures
        forall|k: int|
            0 <= k < planned_starts(slots, all, prefix).len() ==> #[trigger] planned_starts(
                slots,
                all,
                prefix,
            )[k].0 != id,
    decreases prefix.len(),
{
    if prefix.len() > 0 {
        lemma_starts_skip(slots, all, prefix.drop_last(), id);
        let s = planned_starts(slots, all, prefix.drop_last());
        lemma_no_entry(s, id);
        lemma_last_endpoint_concat(slots, s, id);
    }
}

proof fn lemma_no_entry(b: Seq<(Seq<char>, Seq<char>)>, id: Seq<char>)
    requires
        forall|k: int| 0 <= k < b.len() ==> #[trigger] b[k].0 != id,
    ensures
        last_endpoint(b, id) is None,
    decreases b.len(),
{
    if b.len() > 0 {
        lemma_no_entry(b.drop_last(), id);
    }
}

/// A reconcile leaves a session alone when its instance's endpoint is unchanged:
/// renaming or recolouring an instance does not force a reconnect.
pub proof fn reconcile_keeps_unchanged_sessions(
    slots: Seq<(Seq<char>, Seq<char>)>,
    configs: Seq<VmixInstanceConfig>,
    id: Seq<char>,
)
    requires
        find_config(configs, id) is Some,
        last_endpoint(slots, id) == Some(spec_endpoint_key(find_config(configs, id)->0)),
    ensures
        forall|k: int|
            0 <= k < planned_starts(slots, configs, configs).len() ==> #[trigger] planned_starts(
                slots,
                configs,
                configs,
            )[k].0 != id,
{
    lemma_starts_skip(slots, configs, configs, id);
}


/// The retry delay doubles and never passes the cap: from a delay within the cap
/// the next one is at least as long and still within it.
pub proof fn backoff_stays_within_cap(backoff_ms: u64, max_ms: u64)
    ensures
        spec_next_backoff(backoff_ms, max_ms) <= max_ms,
        backoff_ms <= max_ms ==> backoff_ms <= spec_next_backoff(backoff_ms, max_ms),
{
}

proof fn lemma_trim_end_last(s: Seq<char>)
    ensures
        trim_end(s).len() > 0 ==> !is_ws(trim_end(s).last()),
    decreases s.len(),
{
    if s.len() > 0 && is_ws(s.last()) {
        lemma_trim_end_last(s.drop_last());
    }
}

/// Every payload of a raw command is one non-blank line followed by a single CRLF.
pub proof fn raw_payloads_are_crlf_lines(lines: Seq<Seq<char>>)
    ensures
        forall|k: int|
            0 <= k < payload_lines(lines).len() ==> {
                let p = #[trigger] payload_lines(lines)[k];
                p.len() > 2 && has_suffix(p, "\r\n"@) && !is_ws(p[p.len() - 3])
            },
    decreases lines.len(),
{
    reveal_strlit("\r\n");
    if lines.len() > 0 {
        raw_payloads_are_crlf_lines(lines.drop_last());
        let t = trim(lines.last());
        lemma_trim_end_last(trim_start(lines.last()));
        if t.len() > 0 {
            assert(!has_suffix(t, "\r\n"@)) by {
                if has_suffix(t, "\r\n"@) {
                    assert(t.subrange(t.len() - 2, t.len() as int)[1] == t.last());
                }
            }
            let p = t + "\r\n"@;
            assert(p.subrange(p.len() - 2, p.len() as int) =~= "\r\n"@);
            assert(p[p.len() - 3] == t.last());
        }
        let rest = payload_lines(lines.drop_last());
        assert forall|k: int| 0 <= k < payload_lines(lines).len() implies {
            let p = #[trigger] payload_lines(lines)[k];
            p.len() > 2 && has_suffix(p, "\r\n"@) && !is_ws(p[p.len() - 3])
        } by {
            if k < rest.len() {
                assert(payload_lines(lines)[k] == rest[k]);
            }
        }
    }
}

} // verus!
