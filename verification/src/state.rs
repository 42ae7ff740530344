//! Decisions of the plugin runtime: which instances a key targets, what it shows,
//! what a press sends, and how saved settings become connections.

use vstd::prelude::*;
use vstd::string::*;
use crate::config;
use crate::config::{resolve_targets, selected_ids, VmixInstanceConfig};
use crate::cache::VmixState;
use crate::contracts::{
    copies_group, copies_instance, is_localhost_instance, localhost_instance, pool_selector,
    pool_view, spec_params_for, supervised_group, supervised_instance, ActionSettings,
    GlobalSettings, TargetSelector,
};
use crate::kind::{has_toggle, is_one_shot, ActionKind};
use crate::ops::{
    command_for, mute_command, segment_for, spec_command_for, spec_mute_command,
    spec_segment_for, spec_shortcut_panics, spec_title_for, title_for,
};
use crate::pool::{command_view, find_config, config_for, Command, CommandView};
use crate::render::{all_active, hardware_state, Segment, SegmentState};
use crate::text::{
    eq_ic, eq_ignore_ascii_case, join_with, owned, pair_text, str_eq,
    string_views, trim, trim_str,
};

verus! {

/// The title a target shows, looked up by instance id: the first entry for it.
pub open spec fn lookup_text(entries: Seq<(String, String)>, id: Seq<char>) -> Option<Seq<char>>
    decreases entries.len(),
{
    if entries.len() == 0 {
        None
    } else if entries[0].0@ == id {
        Some(entries[0].1@)
    } else {
        lookup_text(entries.drop_first(), id)
    }
}

fn lookup_text_exec<'a>(entries: &'a Vec<(String, String)>, id: &str) -> (r: Option<&'a String>)
    ensures
        match r {
            Some(t) => lookup_text(entries@, id@) == Some(t@),
            None => lookup_text(entries@, id@) is None,
        },
{
    let mut i: usize = 0;
    assert(entries@.subrange(0, entries@.len() as int) =~= entries@);
    while i < entries.len()
        invariant
            i <= entries@.len(),
            lookup_text(entries@, id@) == lookup_text(
                entries@.subrange(i as int, entries@.len() as int),
                id@,
            ),
        decreases entries@.len() - i,
    {
        assert(entries@.subrange(i as int, entries@.len() as int).drop_first() =~= entries@.subrange(
            i + 1,
            entries@.len() as int,
        ));
        assert(entries@.subrange(i as int, entries@.len() as int)[0] == entries@[i as int]);
        if str_eq(entries[i].0.as_str(), id) {
            return Some(&entries[i].1);
        }
        i = i + 1;
    }
    None
}

/// The distinct non-empty titles of the targets, in target order.
pub open spec fn unique_titles(targets: Seq<Seq<char>>, titles: Seq<(String, String)>) -> Seq<Seq<char>>
    decreases targets.len(),
{
    if targets.len() == 0 {
        seq![]
    } else {
        let u = unique_titles(targets.drop_last(), titles);
        match lookup_text(titles, targets.last()) {
            Some(t) => if t.len() > 0 && !u.contains(t) {
                u.push(t)
            } else {
                u
            },
            None => u,
        }
    }
}

/// The key title: the distinct titles of its targets, one per line.
pub open spec fn spec_join_titles(targets: Seq<Seq<char>>, titles: Seq<(String, String)>) -> Seq<char> {
    join_with(unique_titles(targets, titles), "\n"@)
}

fn seq_contains_text(v: &Vec<String>, s: &String) -> (r: bool)
    ensures
        r == string_views(v@).contains(s@),
{
    let mut i: usize = 0;
    while i < v.len()
        invariant
            i <= v@.len(),
            forall|k: int| 0 <= k < i ==> v@[k]@ != s@,
        decreases v@.len() - i,
    {
        if str_eq(v[i].as_str(), s.as_str()) {
            assert(string_views(v@)[i as int] == s@);
            return true;
        }
        i = i + 1;
    }
    proof {
        if string_views(v@).contains(s@) {
            let k = choose|k: int| 0 <= k < string_views(v@).len() && string_views(v@)[k] == s@;
            assert(v@[k]@ == s@);
        }
    }
    false
}

fn join_lines(parts: &Vec<String>) -> (r: String)
    ensures
        r@ == join_with(string_views(parts@), "\n"@),
{
    let mut out = String::new();
    let mut i: usize = 0;
    while i < parts.len()
        invariant
            i <= parts@.len(),
            out@ == join_with(string_views(parts@.subrange(0, i as int)), "\n"@),
        decreases parts@.len() - i,
    {
        let ghost before = string_views(parts@.subrange(0, i as int));
        assert(string_views(parts@.subrange(0, i + 1)).drop_last() =~= before);
        assert(string_views(parts@.subrange(0, i + 1)).last() == parts@[i as int]@);
        if i > 0 {
            out.append("\n");
        }
        out.append(parts[i].as_str());
        proof {
            if i == 0 {
                assert(out@ =~= parts@[0]@);
            }
        }
        i = i + 1;
    }
    assert(parts@.subrange(0, parts@.len() as int) =~= parts@);
    out
}

/// One line per distinct non-empty title, in target order.
pub fn join_titles(targets: &[String], titles: &Vec<(String, String)>) -> (r: String)
    ensures
        r@ == spec_join_titles(string_views(targets@), titles@),
{
    let mut unique: Vec<String> = Vec::new();
    let mut i: usize = 0;
    while i < targets.len()
        invariant
            i <= targets@.len(),
            string_views(unique@) == unique_titles(string_views(targets@.subrange(0, i as int)), titles@),
        decreases targets@.len() - i,
    {
        let ghost pre = string_views(targets@.subrange(0, i as int));
        assert(string_views(targets@.subrange(0, i + 1)).drop_last() =~= pre);
        assert(string_views(targets@.subrange(0, i + 1)).last() == targets@[i as int]@);
        match lookup_text_exec(titles, targets[i].as_str()) {
            Some(line) => {
                if line.unicode_len() != 0 && !seq_contains_text(&unique, line) {
                    let ghost before = unique@;
                    unique.push(line.clone());
                    assert(string_views(unique@) =~= string_views(before).push(line@));
                }
            },
            None => {},
        }
        i = i + 1;
    }
    assert(targets@.subrange(0, targets@.len() as int) =~= targets@);
    join_lines(&unique)
}

/// `acc` extended with the ids of `ids` that are non-empty and not in it yet.
pub open spec fn add_new_ids(acc: Seq<Seq<char>>, ids: Seq<String>) -> Seq<Seq<char>>
    decreases ids.len(),
{
    if ids.len() == 0 {
        acc
    } else {
        let a = add_new_ids(acc, ids.drop_last());
        let id = ids.last()@;
        if id.len() > 0 && !a.contains(id) {
            a.push(id)
        } else {
            a
        }
    }
}

/// Ids named by the explicit-instance selectors, in order, without repeats.
pub open spec fn named_ids(sels: Seq<TargetSelector>) -> Seq<Seq<char>>
    decreases sels.len(),
{
    if sels.len() == 0 {
        seq![]
    } else {
        let a = named_ids(sels.drop_last());
        match sels.last() {
            TargetSelector::Instances { ids } => add_new_ids(a, ids@),
            _ => a,
        }
    }
}

/// Instance ids to connect before saved settings arrive: those the keys name,
/// or `localhost` when no key names one.
pub open spec fn spec_provisional_ids(sels: Seq<TargetSelector>) -> Seq<Seq<char>> {
    let ids = named_ids(sels);
    if ids.len() == 0 {
        seq!["localhost"@]
    } else {
        ids
    }
}

fn add_ids(acc: &mut Vec<String>, ids: &Vec<String>)
    ensures
        string_views(final(acc)@) == add_new_ids(string_views(old(acc)@), ids@),
{
    let ghost start = string_views(acc@);
    let mut i: usize = 0;
    while i < ids.len()
        invariant
            i <= ids@.len(),
            string_views(acc@) == add_new_ids(start, ids@.subrange(0, i as int)),
        decreases ids@.len() - i,
    {
        assert(ids@.subrange(0, i + 1).drop_last() =~= ids@.subrange(0, i as int));
        assert(ids@.subrange(0, i + 1).last() == ids@[i as int]);
        let id = &ids[i];
        if id.unicode_len() != 0 && !seq_contains_text(acc, id) {
            let ghost before = acc@;
            acc.push(id.clone());
            assert(string_views(acc@) =~= string_views(before).push(id@));
        }
        i = i + 1;
    }
    assert(ids@.subrange(0, ids@.len() as int) =~= ids@);
}

/// Ids to open before saved settings arrive. vMix accepts one TCP client, so only
/// the instance ids shown on the keys are opened.
pub fn provisional_ids(targets: &[TargetSelector]) -> (r: Vec<String>)
    ensures
        string_views(r@) == spec_provisional_ids(targets@),
{
    let mut ids: Vec<String> = Vec::new();
    let mut i: usize = 0;
    while i < targets.len()
        invariant
            i <= targets@.len(),
            string_views(ids@) == named_ids(targets@.subrange(0, i as int)),
        decreases targets@.len() - i,
    {
        assert(targets@.subrange(0, i + 1).drop_last() =~= targets@.subrange(0, i as int));
        assert(targets@.subrange(0, i + 1).last() == targets@[i as int]);
        match &targets[i] {
            TargetSelector::Instances { ids: wanted } => add_ids(&mut ids, wanted),
            _ => {},
        }
        i = i + 1;
    }
    assert(targets@.subrange(0, targets@.len() as int) =~= targets@);
    if ids.len() == 0 {
        ids.push(owned("localhost"));
        assert(string_views(ids@) =~= seq!["localhost"@]);
    }
    ids
}

/// The supervisor configuration for a loopback vMix known only by its id.
pub open spec fn is_local_instance(c: VmixInstanceConfig, id: Seq<char>) -> bool {
    &&& c.id@ == id
    &&& c.name@ == "Localhost"@
    &&& c.host@ == "127.0.0.1"@
    &&& c.port == 8099
    &&& c.color@ == "#4c8dff"@
    &&& c.enabled
    &&& c.xml_interval_ms == 2000
}

pub fn local_instance(id: String) -> (r: VmixInstanceConfig)
    ensures
        is_local_instance(r, id@),
{
    let mut instance = localhost_instance();
    instance.id = id;
    VmixInstanceConfig::from(instance)
}

/// Whether `c` is one of the characters `trim_matches(['[', ']'])` strips.
pub open spec fn is_bracket(c: char) -> bool {
    c == '[' || c == ']'
}

pub open spec fn strip_brackets_start(s: Seq<char>) -> Seq<char>
    decreases s.len(),
{
    if s.len() > 0 && is_bracket(s[0]) {
        strip_brackets_start(s.drop_first())
    } else {
        s
    }
}

pub open spec fn strip_brackets_end(s: Seq<char>) -> Seq<char>
    decreases s.len(),
{
    if s.len() > 0 && is_bracket(s.last()) {
        strip_brackets_end(s.drop_last())
    } else {
        s
    }
}

/// A host with surrounding white space and brackets removed.
pub open spec fn bare_host(host: Seq<char>) -> Seq<char> {
    strip_brackets_end(strip_brackets_start(trim(host)))
}

fn strip_brackets(s: &str) -> (r: &str)
    ensures
        r@ == strip_brackets_end(strip_brackets_start(s@)),
{
    let n = s.unicode_len();
    let mut i: usize = 0;
    assert(s@.subrange(0, n as int) =~= s@);
    while i < n && (s.get_char(i) == '[' || s.get_char(i) == ']')
        invariant
            n == s@.len(),
            i <= n,
            strip_brackets_start(s@) == strip_brackets_start(s@.subrange(i as int, n as int)),
        decreases n - i,
    {
        assert(s@.subrange(i as int, n as int).drop_first() =~= s@.subrange(i + 1, n as int));
        i = i + 1;
    }
    let ghost t = s@.subrange(i as int, n as int);
    let mut j: usize = n;
    while j > i && (s.get_char(j - 1) == '[' || s.get_char(j - 1) == ']')
        invariant
            n == s@.len(),
            i <= j <= n,
            t == s@.subrange(i as int, n as int),
            strip_brackets_end(t) == strip_brackets_end(s@.subrange(i as int, j as int)),
        decreases j,
    {
        assert(s@.subrange(i as int, j as int).drop_last() =~= s@.subrange(i as int, j - 1));
        j = j - 1;
    }
    s.substring_char(i, j)
}

/// A host that names this machine: `localhost` in any ASCII case, `127.0.0.1` or `::1`.
pub open spec fn spec_is_loopback_host(host: Seq<char>) -> bool {
    let h = bare_host(host);
    eq_ic(h, "localhost"@) || h == "127.0.0.1"@ || h == "::1"@
}

pub fn is_loopback_host(host: &str) -> (r: bool)
    ensures
        r == spec_is_loopback_host(host@),
{
    let h = strip_brackets(trim_str(host));
    eq_ignore_ascii_case(h, "localhost") || str_eq(h, "127.0.0.1") || str_eq(h, "::1")
}

/// Some configured instance has this id.
pub open spec fn has_config_id(configs: Seq<VmixInstanceConfig>, id: Seq<char>) -> bool {
    exists|j: int| 0 <= j < configs.len() && #[trigger] configs[j].id@ == id
}

/// Some id of the list belongs to a configured instance.
pub open spec fn any_configured(ids: Seq<String>, configs: Seq<VmixInstanceConfig>) -> bool {
    exists|i: int| 0 <= i < ids.len() && has_config_id(configs, #[trigger] ids[i]@)
}

/// Ids of the enabled instances on this machine, in configuration order.
pub open spec fn local_ids(configs: Seq<VmixInstanceConfig>) -> Seq<Seq<char>>
    decreases configs.len(),
{
    if configs.len() == 0 {
        seq![]
    } else {
        let r = local_ids(configs.drop_last());
        let c = configs.last();
        if c.enabled && spec_is_loopback_host(c.host@) {
            r.push(c.id@)
        } else {
            r
        }
    }
}

/// Keys saved against instance ids that none of the configured instances has
/// still drive the local vMix: the enabled loopback instances.
pub open spec fn spec_loopback_fallback(sel: TargetSelector, configs: Seq<VmixInstanceConfig>) -> Option<Seq<Seq<char>>> {
    match sel {
        TargetSelector::Instances { ids } => if ids@.len() == 0 || any_configured(ids@, configs) {
            None
        } else if local_ids(configs).len() == 0 {
            None
        } else {
            Some(local_ids(configs))
        },
        _ => None,
    }
}

fn config_has_id(configs: &[VmixInstanceConfig], id: &String) -> (r: bool)
    ensures
        r == has_config_id(configs@, id@),
{
    let mut j: usize = 0;
    while j < configs.len()
        invariant
            j <= configs@.len(),
            forall|k: int| 0 <= k < j ==> configs@[k].id@ != id@,
        decreases configs@.len() - j,
    {
        if str_eq(configs[j].id.as_str(), id.as_str()) {
            assert(configs@[j as int].id@ == id@);
            return true;
        }
        j = j + 1;
    }
    false
}

fn collect_local_ids(configs: &[VmixInstanceConfig]) -> (r: Vec<String>)
    ensures
        string_views(r@) == local_ids(configs@),
{
    let mut out: Vec<String> = Vec::new();
    let mut i: usize = 0;
    while i < configs.len()
        invariant
            i <= configs@.len(),
            string_views(out@) == local_ids(configs@.subrange(0, i as int)),
        decreases configs@.len() - i,
    {
        assert(configs@.subrange(0, i + 1).drop_last() =~= configs@.subrange(0, i as int));
        assert(configs@.subrange(0, i + 1).last() == configs@[i as int]);
        let c = &configs[i];
        if c.enabled && is_loopback_host(c.host.as_str()) {
            let ghost before = out@;
            out.push(c.id.clone());
            assert(string_views(out@) =~= string_views(before).push(c.id@));
        }
        i = i + 1;
    }
    assert(configs@.subrange(0, configs@.len() as int) =~= configs@);
    out
}

pub open spec fn opt_ids(o: Option<Vec<String>>) -> Option<Seq<Seq<char>>> {
    match o {
        Some(v) => Some(string_views(v@)),
        None => None,
    }
}

/// Keys saved against an instance id that is not loaded yet still drive the local vMix.
pub fn loopback_fallback(selector: &TargetSelector, configs: &[VmixInstanceConfig]) -> (r: Option<Vec<String>>)
    ensures
        opt_ids(r) == spec_loopback_fallback(*selector, configs@),
{
    let ids = match selector {
        TargetSelector::Instances { ids } => ids,
        _ => {
            return None;
        },
    };
    if ids.len() == 0 {
        return None;
    }
    let mut i: usize = 0;
    while i < ids.len()
        invariant
            i <= ids@.len(),
            ids@.len() > 0,
            *selector == (TargetSelector::Instances { ids: *ids }),
            forall|k: int| 0 <= k < i ==> !has_config_id(configs@, #[trigger] ids@[k]@),
        decreases ids@.len() - i,
    {
        if config_has_id(configs, &ids[i]) {
            assert(has_config_id(configs@, ids@[i as int]@));
            return None;
        }
        i = i + 1;
    }
    let local = collect_local_ids(configs);
    if local.len() == 0 {
        None
    } else {
        Some(local)
    }
}

/// The instances a key talks to: what its selector resolves to, or, when that is
/// nothing, the loopback fallback.
pub open spec fn spec_targets_for(
    sel: TargetSelector,
    configs: Seq<VmixInstanceConfig>,
    groups: Seq<config::TargetGroup>,
) -> Seq<Seq<char>> {
    let resolved = selected_ids(pool_view(sel), groups, configs);
    if resolved.len() > 0 {
        resolved
    } else {
        match spec_loopback_fallback(sel, configs) {
            Some(l) => l,
            None => resolved,
        }
    }
}

pub fn targets_for(
    selector: &TargetSelector,
    configs: &[VmixInstanceConfig],
    groups: &[config::TargetGroup],
) -> (r: Vec<String>)
    ensures
        string_views(r@) == spec_targets_for(*selector, configs@, groups@),
{
    let ps = pool_selector(selector);
    let resolved = resolve_targets(&ps, configs, groups);
    proof {
        assert forall|c: VmixInstanceConfig| #[trigger]
            config::selects(ps, groups@, c) == config::selects(pool_view(*selector), groups@, c) by {}
        config::lemma_selected_ids_agree(ps, pool_view(*selector), groups@, configs@);
    }
    if resolved.len() != 0 {
        return resolved;
    }
    match loopback_fallback(selector, configs) {
        Some(l) => l,
        None => resolved,
    }
}


/// First launch: an empty instance list gets the Localhost instance, and the
/// settings are marked seeded. Returns whether the settings must be saved.
pub fn seed(settings: &mut GlobalSettings) -> (persist: bool)
    ensures
        persist == !old(settings).seeded,
        final(settings).seeded,
        !old(settings).seeded ==> final(settings).instances@.len() > 0,
        final(settings).groups@ == old(settings).groups@,
        final(settings).fg_color == old(settings).fg_color,
        old(settings).seeded ==> final(settings).instances@ == old(settings).instances@,
        !old(settings).seeded && old(settings).instances@.len() == 0 ==> final(settings).instances@.len()
            == 1 && is_localhost_instance(final(settings).instances@[0]),
        !old(settings).seeded && old(settings).instances@.len() > 0 ==> final(settings).instances@
            == old(settings).instances@,
{
    if settings.seeded {
        return false;
    }
    if settings.instances.len() == 0 {
        settings.instances.push(localhost_instance());
    }
    settings.seeded = true;
    true
}

/// What the supervisor is given for saved settings: their instances and groups,
/// or the Localhost instance when the saved list is empty.
pub fn connect_plan(settings: &GlobalSettings) -> (r: (Vec<VmixInstanceConfig>, Vec<config::TargetGroup>))
    ensures
        r.0@.len() > 0,
        settings.instances@.len() == 0 ==> r.0@.len() == 1 && is_local_instance(r.0@[0], "localhost"@),
        settings.instances@.len() > 0 ==> r.0@.len() == settings.instances@.len() && forall|k: int|
            0 <= k < r.0@.len() ==> copies_instance(#[trigger] r.0@[k], settings.instances@[k]),
        r.1@.len() == settings.groups@.len(),
        forall|k: int| 0 <= k < r.1@.len() ==> copies_group(#[trigger] r.1@[k], settings.groups@[k]),
{
    let mut instances: Vec<VmixInstanceConfig> = Vec::new();
    if settings.instances.len() == 0 {
        instances.push(local_instance(owned("localhost")));
    } else {
        let mut i: usize = 0;
        while i < settings.instances.len()
            invariant
                i <= settings.instances@.len(),
                instances@.len() == i,
                forall|k: int| 0 <= k < i ==> copies_instance(#[trigger] instances@[k], settings.instances@[k]),
            decreases settings.instances@.len() - i,
        {
            instances.push(supervised_instance(&settings.instances[i]));
            i = i + 1;
        }
    }
    let mut groups: Vec<config::TargetGroup> = Vec::new();
    let mut j: usize = 0;
    while j < settings.groups.len()
        invariant
            j <= settings.groups@.len(),
            groups@.len() == j,
            forall|k: int| 0 <= k < j ==> copies_group(#[trigger] groups@[k], settings.groups@[k]),
        decreases settings.groups@.len() - j,
    {
        groups.push(supervised_group(&settings.groups[j]));
        j = j + 1;
    }
    (instances, groups)
}

/// What a property inspector message asks for.
#[derive(Clone, Copy, Debug, PartialEq, Eq, Structural)]
pub enum InspectorRequest {
    /// Reconnect the instance named in the message.
    Reconnect,
    /// Apply the settings the inspector delivered.
    GlobalSettings,
    /// The inspector has loaded: connect, and send it status and inputs.
    Ready,
    /// Anything else is ignored.
    Other,
}

/// The request a message's `type` field names.
pub fn inspector_request(kind: Option<&str>) -> (r: InspectorRequest)
    ensures
        r == match kind {
            Some(k) => if k@ == "reconnect"@ {
                InspectorRequest::Reconnect
            } else if k@ == "globalSettings"@ {
                InspectorRequest::GlobalSettings
            } else if k@ == "ready"@ {
                InspectorRequest::Ready
            } else {
                InspectorRequest::Other
            },
            None => InspectorRequest::Other,
        },
{
    match kind {
        Some(k) => if str_eq(k, "reconnect") {
            InspectorRequest::Reconnect
        } else if str_eq(k, "globalSettings") {
            InspectorRequest::GlobalSettings
        } else if str_eq(k, "ready") {
            InspectorRequest::Ready
        } else {
            InspectorRequest::Other
        },
        None => InspectorRequest::Other,
    }
}

/// Some supervised instance serves `id` on this machine at port 8099.
pub open spec fn served_locally(current: Seq<VmixInstanceConfig>, id: Seq<char>) -> bool {
    exists|j: int|
        0 <= j < current.len() && #[trigger] current[j].id@ == id && spec_is_loopback_host(
            current[j].host@,
        ) && current[j].port == 8099
}

/// The supervised instances already are the loopback instances for `ids`: as many,
/// and each id served by a loopback instance on port 8099.
pub open spec fn spec_provisional_in_place(current: Seq<VmixInstanceConfig>, ids: Seq<Seq<char>>) -> bool {
    current.len() == ids.len() && forall|i: int| 0 <= i < ids.len() ==> served_locally(current, #[trigger] ids[i])
}

fn serves_locally(current: &[VmixInstanceConfig], id: &String) -> (r: bool)
    ensures
        r == served_locally(current@, id@),
{
    let mut j: usize = 0;
    while j < current.len()
        invariant
            j <= current@.len(),
            forall|k: int|
                0 <= k < j ==> !(#[trigger] current@[k].id@ == id@ && spec_is_loopback_host(
                    current@[k].host@,
                ) && current@[k].port == 8099),
        decreases current@.len() - j,
    {
        let c = &current[j];
        if str_eq(c.id.as_str(), id.as_str()) && is_loopback_host(c.host.as_str()) && c.port == 8099 {
            return true;
        }
        j = j + 1;
    }
    false
}

/// Whether the provisional connection for `ids` is already in place.
pub fn provisional_in_place(current: &[VmixInstanceConfig], ids: &Vec<String>) -> (r: bool)
    ensures
        r == spec_provisional_in_place(current@, string_views(ids@)),
{
    if current.len() != ids.len() {
        return false;
    }
    let ghost sv = string_views(ids@);
    let mut i: usize = 0;
    while i < ids.len()
        invariant
            i <= ids@.len(),
            sv == string_views(ids@),
            current@.len() == ids@.len(),
            forall|k: int| 0 <= k < i ==> served_locally(current@, #[trigger] sv[k]),
        decreases ids@.len() - i,
    {
        assert(sv[i as int] == ids@[i as int]@);
        if !serves_locally(current, &ids[i]) {
            return false;
        }
        i = i + 1;
    }
    true
}

/// The loopback instances that stand in for `ids` until saved settings arrive.
pub fn provisional_configs(ids: &Vec<String>) -> (r: Vec<VmixInstanceConfig>)
    ensures
        r@.len() == ids@.len(),
        forall|k: int| 0 <= k < ids@.len() ==> is_local_instance(#[trigger] r@[k], ids@[k]@),
{
    let mut out: Vec<VmixInstanceConfig> = Vec::new();
    let mut i: usize = 0;
    while i < ids.len()
        invariant
            i <= ids@.len(),
            out@.len() == i,
            forall|k: int| 0 <= k < i ==> is_local_instance(#[trigger] out@[k], ids@[k]@),
        decreases ids@.len() - i,
    {
        out.push(local_instance(ids[i].clone()));
        i = i + 1;
    }
    out
}

/// What the runtime knows of one target when it repaints a key.
pub struct TargetView {
    pub id: String,
    pub connected: bool,
    pub state: VmixState,
}

/// A key's shortcut lines can all be read for its targets.
pub open spec fn shortcut_readable(kind: ActionKind, settings: ActionSettings, ids: Seq<Seq<char>>) -> bool {
    kind is Shortcut ==> forall|k: int|
        0 <= k < ids.len() ==> !spec_shortcut_panics(
            #[trigger] spec_params_for(settings, ids[k]).function_name@,
        )
}

pub open spec fn view_ids(views: Seq<TargetView>) -> Seq<Seq<char>> {
    views.map_values(|v: TargetView| v.id@)
}

/// The non-empty titles of the targets, in target order.
pub open spec fn face_titles(kind: ActionKind, settings: ActionSettings, views: Seq<TargetView>) -> Seq<(Seq<char>, Seq<char>)>
    decreases views.len(),
{
    if views.len() == 0 {
        seq![]
    } else {
        let rest = face_titles(kind, settings, views.drop_last());
        let v = views.last();
        let t = spec_title_for(kind, spec_params_for(settings, v.id@), v.state@);
        if t.len() > 0 {
            rest.push((v.id@, t))
        } else {
            rest
        }
    }
}

/// What a key shows: one segment per target, the titles by target, and the key title.
pub struct KeyFace {
    pub segments: Vec<(String, SegmentState)>,
    pub titles: Vec<(String, String)>,
    pub title: String,
}

pub fn key_face(kind: ActionKind, settings: &ActionSettings, views: &Vec<TargetView>) -> (r: KeyFace)
    requires
        shortcut_readable(kind, *settings, view_ids(views@)),
    ensures
        r.segments@.len() == views@.len(),
        forall|k: int|
            0 <= k < views@.len() ==> (#[trigger] r.segments@[k]).0@ == views@[k].id@
                && r.segments@[k].1 == spec_segment_for(
                kind,
                spec_params_for(*settings, views@[k].id@),
                views@[k].state@,
                views@[k].connected,
            ),
        pair_text(r.titles@) == face_titles(kind, *settings, views@),
        r.title@ == spec_join_titles(view_ids(views@), r.titles@),
{
    let mut segments: Vec<(String, SegmentState)> = Vec::new();
    let mut titles: Vec<(String, String)> = Vec::new();
    let mut targets: Vec<String> = Vec::new();
    let mut i: usize = 0;
    assert(pair_text(titles@) =~= Seq::<(Seq<char>, Seq<char>)>::empty());
    while i < views.len()
        invariant
            i <= views@.len(),
            shortcut_readable(kind, *settings, view_ids(views@)),
            segments@.len() == i,
            forall|k: int|
                0 <= k < i ==> (#[trigger] segments@[k]).0@ == views@[k].id@ && segments@[k].1
                    == spec_segment_for(
                    kind,
                    spec_params_for(*settings, views@[k].id@),
                    views@[k].state@,
                    views@[k].connected,
                ),
            pair_text(titles@) == face_titles(kind, *settings, views@.subrange(0, i as int)),
            string_views(targets@) == view_ids(views@.subrange(0, i as int)),
        decreases views@.len() - i,
    {
        let v = &views[i];
        assert(view_ids(views@)[i as int] == v.id@);
        let params = settings.params_for(v.id.as_str());
        segments.push((v.id.clone(), segment_for(kind, params, &v.state, v.connected)));
        let title = title_for(kind, params, &v.state);
        assert(views@.subrange(0, i + 1).drop_last() =~= views@.subrange(0, i as int));
        if title.unicode_len() != 0 {
            let ghost before = titles@;
            titles.push((v.id.clone(), title));
            assert(pair_text(titles@) =~= pair_text(before).push((v.id@, titles@.last().1@)));
        }
        let ghost tb = targets@;
        targets.push(v.id.clone());
        assert(string_views(targets@) =~= string_views(tb).push(v.id@));
        assert(view_ids(views@.subrange(0, i + 1)) =~= view_ids(views@.subrange(0, i as int)).push(v.id@));
        i = i + 1;
    }
    assert(views@.subrange(0, views@.len() as int) =~= views@);
    let title = join_titles(targets.as_slice(), &titles);
    KeyFace { segments, titles, title }
}

/// The segment state recorded for `id`: the first entry for it.
pub open spec fn segment_of(entries: Seq<(String, SegmentState)>, id: Seq<char>) -> Option<SegmentState>
    decreases entries.len(),
{
    if entries.len() == 0 {
        None
    } else if entries[0].0@ == id {
        Some(entries[0].1)
    } else {
        segment_of(entries.drop_first(), id)
    }
}

fn segment_lookup(entries: &Vec<(String, SegmentState)>, id: &str) -> (r: Option<SegmentState>)
    ensures
        r == segment_of(entries@, id@),
{
    let mut i: usize = 0;
    assert(entries@.subrange(0, entries@.len() as int) =~= entries@);
    while i < entries.len()
        invariant
            i <= entries@.len(),
            segment_of(entries@, id@) == segment_of(
                entries@.subrange(i as int, entries@.len() as int),
                id@,
            ),
        decreases entries@.len() - i,
    {
        assert(entries@.subrange(i as int, entries@.len() as int).drop_first() =~= entries@.subrange(
            i + 1,
            entries@.len() as int,
        ));
        assert(entries@.subrange(i as int, entries@.len() as int)[0] == entries@[i as int]);
        if str_eq(entries[i].0.as_str(), id) {
            return Some(entries[i].1);
        }
        i = i + 1;
    }
    None
}

/// How one target is drawn: the instance's name and colour, or its id and the
/// default blue when it is not configured; unavailable when nothing is known.
pub open spec fn drawn_as(
    s: Segment,
    id: Seq<char>,
    configs: Seq<VmixInstanceConfig>,
    segments: Seq<(String, SegmentState)>,
) -> bool {
    &&& s.label@ == (match find_config(configs, id) {
        Some(c) => c.name@,
        None => id,
    })
    &&& s.color@ == (match find_config(configs, id) {
        Some(c) => c.color@,
        None => "#4c8dff"@,
    })
    &&& s.state == (match segment_of(segments, id) {
        Some(st) => st,
        None => SegmentState::Unavailable,
    })
}

/// The segments drawn on a key, one per target, in target order.
pub fn visual_segments(
    targets: &Vec<String>,
    configs: &[VmixInstanceConfig],
    segments: &Vec<(String, SegmentState)>,
) -> (r: Vec<Segment>)
    ensures
        r@.len() == targets@.len(),
        forall|k: int| 0 <= k < targets@.len() ==> drawn_as(#[trigger] r@[k], targets@[k]@, configs@, segments@),
{
    let mut out: Vec<Segment> = Vec::new();
    let mut i: usize = 0;
    while i < targets.len()
        invariant
            i <= targets@.len(),
            out@.len() == i,
            forall|k: int| 0 <= k < i ==> drawn_as(#[trigger] out@[k], targets@[k]@, configs@, segments@),
        decreases targets@.len() - i,
    {
        let id = &targets[i];
        let config = config_for(configs, id.as_str());
        let label = match config {
            Some(c) => c.name.clone(),
            None => id.clone(),
        };
        let color = match config {
            Some(c) => c.color.clone(),
            None => owned("#4c8dff"),
        };
        let state = match segment_lookup(segments, id.as_str()) {
            Some(st) => st,
            None => SegmentState::Unavailable,
        };
        out.push(Segment { label, color, state });
        i = i + 1;
    }
    out
}

pub open spec fn segment_states(v: Seq<Segment>) -> Seq<SegmentState> {
    v.map_values(|s: Segment| s.state)
}

/// The key's on/off state for Stream Deck: only keys with a toggle state get one,
/// `0` when every segment is active.
pub fn toggle_state(kind: ActionKind, visual: &Vec<Segment>) -> (r: Option<i32>)
    ensures
        !has_toggle(kind) ==> r is None,
        has_toggle(kind) ==> r == Some(if all_active(segment_states(visual@)) { 0i32 } else { 1i32 }),
{
    if !kind.has_toggle_state() {
        return None;
    }
    let mut states: Vec<SegmentState> = Vec::new();
    let mut i: usize = 0;
    while i < visual.len()
        invariant
            i <= visual@.len(),
            states@ == segment_states(visual@.subrange(0, i as int)),
        decreases visual@.len() - i,
    {
        states.push(visual[i].state);
        assert(segment_states(visual@.subrange(0, i + 1)) =~= segment_states(visual@.subrange(0, i as int)).push(visual@[i as int].state));
        i = i + 1;
    }
    assert(visual@.subrange(0, visual@.len() as int) =~= visual@);
    Some(hardware_state(states.as_slice()))
}

/// A key title is drawn unless the key is a multi-action or the title is empty.
pub fn shows_title(multi: bool, title: &str) -> (r: bool)
    ensures
        r == (!multi && title@.len() > 0),
{
    !multi && title.unicode_len() != 0
}

/// The commands a press sends, one per target that has one.
pub open spec fn press_sends(kind: ActionKind, settings: ActionSettings, ids: Seq<Seq<char>>) -> Seq<(Seq<char>, CommandView)>
    decreases ids.len(),
{
    if ids.len() == 0 {
        seq![]
    } else {
        let rest = press_sends(kind, settings, ids.drop_last());
        match spec_command_for(kind, spec_params_for(settings, ids.last())) {
            Some(c) => rest.push((ids.last(), c)),
            None => rest,
        }
    }
}

pub open spec fn send_views(v: Seq<(String, Command)>) -> Seq<(Seq<char>, CommandView)> {
    v.map_values(|p: (String, Command)| (p.0@, command_view(p.1)))
}

/// What a press does: the commands to send, and whether some target had none.
pub struct PressPlan {
    pub sends: Vec<(String, Command)>,
    pub failed: bool,
}

pub fn press_plan(kind: ActionKind, settings: &ActionSettings, targets: &Vec<String>) -> (r: PressPlan)
    requires
        shortcut_readable(kind, *settings, string_views(targets@)),
    ensures
        send_views(r.sends@) == press_sends(kind, *settings, string_views(targets@)),
        r.failed == exists|k: int|
            0 <= k < targets@.len() && (#[trigger] spec_command_for(
                kind,
                spec_params_for(*settings, targets@[k]@),
            )) is None,
{
    let mut sends: Vec<(String, Command)> = Vec::new();
    let mut failed = false;
    let mut i: usize = 0;
    let ghost ids = string_views(targets@);
    while i < targets.len()
        invariant
            i <= targets@.len(),
            ids == string_views(targets@),
            shortcut_readable(kind, *settings, ids),
            send_views(sends@) == press_sends(kind, *settings, ids.subrange(0, i as int)),
            failed == exists|k: int|
                0 <= k < i && (#[trigger] spec_command_for(kind, spec_params_for(*settings, targets@[k]@)))
                    is None,
        decreases targets@.len() - i,
    {
        let id = &targets[i];
        assert(ids[i as int] == id@);
        assert(ids.subrange(0, i + 1).drop_last() =~= ids.subrange(0, i as int));
        let params = settings.params_for(id.as_str());
        match command_for(kind, params) {
            Some(command) => {
                let ghost before = sends@;
                sends.push((id.clone(), command));
                assert(send_views(sends@) =~= send_views(before).push((id@, command_view(sends@.last().1))));
            },
            None => {
                failed = true;
            },
        }
        i = i + 1;
    }
    assert(ids.subrange(0, ids.len() as int) =~= ids);
    PressPlan { sends, failed }
}

/// A press is answered with an alert when its kind confirms presses and some
/// target failed or there was no target at all.
pub fn press_alert(kind: ActionKind, failed: bool, no_targets: bool) -> (r: bool)
    ensures
        r == (is_one_shot(kind) && (failed || no_targets)),
{
    kind.confirms_press() && (failed || no_targets)
}

/// How vMix's answer to a confirmed press is shown: `Some(true)` for an alert,
/// `Some(false)` for a check mark, nothing for keys that do not confirm.
pub fn function_feedback(kind: Option<ActionKind>, ok: bool) -> (r: Option<bool>)
    ensures
        match kind {
            Some(k) => if is_one_shot(k) {
                r == Some(!ok)
            } else {
                r is None
            },
            None => r is None,
        },
{
    match kind {
        Some(k) => if k.confirms_press() {
            Some(!ok)
        } else {
            None
        },
        None => None,
    }
}

/// The mute toggles a dial press sends, one per target.
pub fn dial_commands(settings: &ActionSettings, targets: &Vec<String>) -> (r: Vec<(String, Command)>)
    ensures
        r@.len() == targets@.len(),
        forall|k: int|
            0 <= k < targets@.len() ==> (#[trigger] r@[k]).0@ == targets@[k]@ && command_view(r@[k].1)
                == spec_mute_command(spec_params_for(*settings, targets@[k]@)),
{
    let mut out: Vec<(String, Command)> = Vec::new();
    let mut i: usize = 0;
    while i < targets.len()
        invariant
            i <= targets@.len(),
            out@.len() == i,
            forall|k: int|
                0 <= k < i ==> (#[trigger] out@[k]).0@ == targets@[k]@ && command_view(out@[k].1)
                    == spec_mute_command(spec_params_for(*settings, targets@[k]@)),
        decreases targets@.len() - i,
    {
        let id = &targets[i];
        let params = settings.params_for(id.as_str());
        out.push((id.clone(), mute_command(params)));
        i = i + 1;
    }
    out
}

/// Records the title one target shows; an empty title removes it.
pub fn put_title(titles: &mut Vec<(String, String)>, id: &str, title: String)
    ensures
        forall|x: Seq<char>|
            #[trigger] lookup_text(final(titles)@, x) == if x == id@ {
                if title@.len() == 0 {
                    None
                } else {
                    Some(title@)
                }
            } else {
                lookup_text(old(titles)@, x)
            },
{
    let ghost start = titles@;
    let mut kept: Vec<(String, String)> = Vec::new();
    let mut i: usize = 0;
    assert(start.subrange(0, start.len() as int) =~= start);
    while i < titles.len()
        invariant
            i <= titles@.len(),
            titles@ == start,
            forall|x: Seq<char>|
                x != id@ ==> #[trigger] lookup_text(start, x) == match lookup_text(kept@, x) {
                    Some(t) => Some(t),
                    None => lookup_text(start.subrange(i as int, start.len() as int), x),
                },
            forall|k: int| 0 <= k < kept@.len() ==> (#[trigger] kept@[k]).0@ != id@,
        decreases titles@.len() - i,
    {
        proof {
            assert(start.subrange(i as int, start.len() as int).drop_first() =~= start.subrange(
                i + 1,
                start.len() as int,
            ));
            assert(start.subrange(i as int, start.len() as int)[0] == start[i as int]);
        }
        if !str_eq(titles[i].0.as_str(), id) {
            let ghost before = kept@;
            let entry = (titles[i].0.clone(), titles[i].1.clone());
            kept.push(entry);
            proof {
                assert forall|x: Seq<char>| x != id@ implies #[trigger] lookup_text(start, x) == match lookup_text(kept@, x) {
                    Some(t) => Some(t),
                    None => lookup_text(start.subrange(i + 1, start.len() as int), x),
                } by {
                    lemma_lookup_text_push(before, entry, x);
                }
            }
        }
        i = i + 1;
    }
    proof {
        assert forall|x: Seq<char>| x != id@ implies #[trigger] lookup_text(start, x) == lookup_text(kept@, x) by {
            assert(start.subrange(start.len() as int, start.len() as int).len() == 0);
        }
        lemma_lookup_text_absent(kept@, id@);
    }
    let ghost kv = kept@;
    if title.unicode_len() != 0 {
        kept.push((owned(id), title));
        proof {
            assert forall|x: Seq<char>| #[trigger] lookup_text(kept@, x) == if x == id@ {
                Some(title@)
            } else {
                lookup_text(kv, x)
            } by {
                lemma_lookup_text_push(kv, kept@.last(), x);
            }
        }
    }
    *titles = kept;
}

/// Records the segment state of one target.
pub fn put_segment(segments: &mut Vec<(String, SegmentState)>, id: &str, state: SegmentState)
    ensures
        forall|x: Seq<char>|
            #[trigger] segment_of(final(segments)@, x) == if x == id@ {
                Some(state)
            } else {
                segment_of(old(segments)@, x)
            },
{
    let ghost start = segments@;
    let mut kept: Vec<(String, SegmentState)> = Vec::new();
    let mut i: usize = 0;
    assert(start.subrange(0, start.len() as int) =~= start);
    while i < segments.len()
        invariant
            i <= segments@.len(),
            segments@ == start,
            forall|x: Seq<char>|
                x != id@ ==> #[trigger] segment_of(start, x) == match segment_of(kept@, x) {
                    Some(t) => Some(t),
                    None => segment_of(start.subrange(i as int, start.len() as int), x),
                },
        decreases segments@.len() - i,
    {
        proof {
            assert(start.subrange(i as int, start.len() as int).drop_first() =~= start.subrange(
                i + 1,
                start.len() as int,
            ));
            assert(start.subrange(i as int, start.len() as int)[0] == start[i as int]);
        }
        if !str_eq(segments[i].0.as_str(), id) {
            let ghost before = kept@;
            let entry = (segments[i].0.clone(), segments[i].1);
            kept.push(entry);
            proof {
                assert forall|x: Seq<char>| x != id@ implies #[trigger] segment_of(start, x) == match segment_of(kept@, x) {
                    Some(t) => Some(t),
                    None => segment_of(start.subrange(i + 1, start.len() as int), x),
                } by {
                    lemma_segment_of_push(before, entry, x);
                }
            }
        }
        i = i + 1;
    }
    let ghost kv = kept@;
    let mut out: Vec<(String, SegmentState)> = Vec::new();
    out.push((owned(id), state));
    proof {
        assert(out@.drop_first() =~= Seq::<(String, SegmentState)>::empty());
        assert(segment_of(out@.drop_first(), id@) is None);
        assert forall|x: Seq<char>| x != id@ implies #[trigger] segment_of(out@, x) == segment_of(
            kv.subrange(0, 0),
            x,
        ) by {
            assert(segment_of(out@.drop_first(), x) is None);
            assert(kv.subrange(0, 0).len() == 0);
        }
    }
    let mut j: usize = 0;
    while j < kept.len()
        invariant
            j <= kept@.len(),
            kept@ == kv,
            out@.len() == j + 1,
            out@[0].0@ == id@,
            out@[0].1 == state,
            forall|x: Seq<char>|
                x != id@ ==> #[trigger] segment_of(out@, x) == segment_of(kv.subrange(0, j as int), x),
        decreases kept@.len() - j,
    {
        let ghost before = out@;
        let entry = (kept[j].0.clone(), kept[j].1);
        out.push(entry);
        proof {
            assert forall|x: Seq<char>| x != id@ implies #[trigger] segment_of(out@, x) == segment_of(kv.subrange(0, j + 1), x) by {
                lemma_segment_of_push(before, entry, x);
                lemma_segment_of_push(kv.subrange(0, j as int), entry, x);
                assert(kv.subrange(0, j + 1) =~= kv.subrange(0, j as int).push(entry));
            }
        }
        j = j + 1;
    }
    proof {
        assert(kv.subrange(0, kv.len() as int) =~= kv);
        assert forall|x: Seq<char>| x != id@ implies #[trigger] segment_of(start, x) == segment_of(kv, x) by {
            assert(start.subrange(start.len() as int, start.len() as int).len() == 0);
        }
    }
    *segments = out;
}

proof fn lemma_segment_of_push(v: Seq<(String, SegmentState)>, e: (String, SegmentState), x: Seq<char>)
    ensures
        segment_of(v.push(e), x) == match segment_of(v, x) {
            Some(t) => Some(t),
            None => if e.0@ == x {
                Some(e.1)
            } else {
                None
            },
        },
    decreases v.len(),
{
    let w = v.push(e);
    if v.len() > 0 {
        assert(w.drop_first() =~= v.drop_first().push(e));
        assert(w[0] == v[0]);
        lemma_segment_of_push(v.drop_first(), e, x);
        if v[0].0@ != x {
            assert(segment_of(w, x) == segment_of(w.drop_first(), x));
            assert(segment_of(v, x) == segment_of(v.drop_first(), x));
        }
    } else {
        assert(w.drop_first() =~= Seq::<(String, SegmentState)>::empty());
        assert(w[0] == e);
        assert(segment_of(w.drop_first(), x) is None);
    }
}

proof fn lemma_lookup_text_push(v: Seq<(String, String)>, e: (String, String), x: Seq<char>)
    ensures
        lookup_text(v.push(e), x) == match lookup_text(v, x) {
            Some(t) => Some(t),
            None => if e.0@ == x {
                Some(e.1@)
            } else {
                None
            },
        },
    decreases v.len(),
{
    let w = v.push(e);
    if v.len() > 0 {
        assert(w.drop_first() =~= v.drop_first().push(e));
        assert(w[0] == v[0]);
        lemma_lookup_text_push(v.drop_first(), e, x);
        if v[0].0@ != x {
            assert(lookup_text(w, x) == lookup_text(w.drop_first(), x));
            assert(lookup_text(v, x) == lookup_text(v.drop_first(), x));
        }
    } else {
        assert(w.drop_first() =~= Seq::<(String, String)>::empty());
        assert(w[0] == e);
        assert(lookup_text(w.drop_first(), x) is None);
    }
}

proof fn lemma_lookup_text_absent(v: Seq<(String, String)>, id: Seq<char>)
    requires
        forall|k: int| 0 <= k < v.len() ==> (#[trigger] v[k]).0@ != id,
    ensures
        lookup_text(v, id) is None,
    decreases v.len(),
{
    if v.len() > 0 {
        assert forall|k: int| 0 <= k < v.drop_first().len() implies (#[trigger] v.drop_first()[k]).0@ != id by {
            assert(v.drop_first()[k] == v[k + 1]);
        }
        lemma_lookup_text_absent(v.drop_first(), id);
    }
}


/// No id twice, and none empty.
pub open spec fn distinct_nonempty(ids: Seq<Seq<char>>) -> bool {
    &&& forall|k: int| 0 <= k < ids.len() ==> (#[trigger] ids[k]).len() > 0
    &&& forall|a: int, b: int| 0 <= a < b < ids.len() ==> #[trigger] ids[a] != #[trigger] ids[b]
}

proof fn lemma_add_new_ids(acc: Seq<Seq<char>>, ids: Seq<String>)
    requires
        distinct_nonempty(acc),
    ensures
        distinct_nonempty(add_new_ids(acc, ids)),
    decreases ids.len(),
{
    if ids.len() > 0 {
        lemma_add_new_ids(acc, ids.drop_last());
    }
}

proof fn lemma_named_ids(sels: Seq<TargetSelector>)
    ensures
        distinct_nonempty(named_ids(sels)),
    decreases sels.len(),
{
    if sels.len() > 0 {
        lemma_named_ids(sels.drop_last());
        match sels.last() {
            TargetSelector::Instances { ids } => lemma_add_new_ids(named_ids(sels.drop_last()), ids@),
            _ => {},
        }
    }
}

/// Before saved settings arrive, at least one instance is connected, and no id is
/// opened twice or empty: vMix accepts a single TCP client.
pub proof fn provisional_ids_are_distinct_and_never_empty(sels: Seq<TargetSelector>)
    ensures
        spec_provisional_ids(sels).len() > 0,
        distinct_nonempty(spec_provisional_ids(sels)),
{
    lemma_named_ids(sels);
    if named_ids(sels).len() == 0 {
        assert(distinct_nonempty(seq!["localhost"@])) by {
            reveal_strlit("localhost");
        }
    }
}

proof fn lemma_local_ids(configs: Seq<VmixInstanceConfig>)
    ensures
        forall|k: int|
            0 <= k < local_ids(configs).len() ==> exists|j: int|
                0 <= j < configs.len() && #[trigger] configs[j].id@ == #[trigger] local_ids(configs)[k]
                    && configs[j].enabled && spec_is_loopback_host(configs[j].host@),
    decreases configs.len(),
{
    if configs.len() > 0 {
        let p = configs.drop_last();
        lemma_local_ids(p);
        assert forall|k: int| 0 <= k < local_ids(configs).len() implies exists|j: int|
            0 <= j < configs.len() && #[trigger] configs[j].id@ == #[trigger] local_ids(configs)[k]
                && configs[j].enabled && spec_is_loopback_host(configs[j].host@) by {
            if k < local_ids(p).len() {
                let j = choose|j: int|
                    0 <= j < p.len() && #[trigger] p[j].id@ == #[trigger] local_ids(p)[k] && p[j].enabled
                        && spec_is_loopback_host(p[j].host@);
                assert(configs[j] == p[j]);
                assert(local_ids(configs)[k] == local_ids(p)[k]);
            } else {
                assert(configs[configs.len() - 1] == configs.last());
            }
        }
    }
}

/// The loopback fallback only ever names enabled instances on this machine, never
/// nothing, and only for keys none of whose ids is configured.
pub proof fn loopback_fallback_names_enabled_local_instances(sel: TargetSelector, configs: Seq<VmixInstanceConfig>)
    ensures
        spec_loopback_fallback(sel, configs) matches Some(l) ==> {
            &&& l.len() > 0
            &&& sel matches TargetSelector::Instances { ids } && ids@.len() > 0 && !any_configured(
                ids@,
                configs,
            )
            &&& forall|k: int|
                0 <= k < l.len() ==> exists|j: int|
                    0 <= j < configs.len() && #[trigger] configs[j].id@ == #[trigger] l[k]
                        && configs[j].enabled && spec_is_loopback_host(configs[j].host@)
        },
{
    lemma_local_ids(configs);
}

proof fn lemma_unique_titles(targets: Seq<Seq<char>>, titles: Seq<(String, String)>)
    ensures
        distinct_nonempty(unique_titles(targets, titles)),
    decreases targets.len(),
{
    if targets.len() > 0 {
        lemma_unique_titles(targets.drop_last(), titles);
    }
}

/// A key title lists each distinct non-empty target title once.
pub proof fn key_title_lines_are_distinct(targets: Seq<Seq<char>>, titles: Seq<(String, String)>)
    ensures
        distinct_nonempty(unique_titles(targets, titles)),
        spec_join_titles(targets, titles) == join_with(unique_titles(targets, titles), "\n"@),
{
    lemma_unique_titles(targets, titles);
}

} // verus!
