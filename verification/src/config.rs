//! Configured vMix instances, target groups, and how a key picks its targets.

use vstd::prelude::*;
use vstd::string::*;
use crate::text::{
    bool_text, contains_string, dec, has_string, owned, push_decimal, str_eq, string_views, trim,
    trim_str,
};

verus! {

/// One named vMix instance. `id` stays stable so keys can refer to it after a reorder.
#[derive(Clone, Debug, PartialEq, Eq)]
pub struct VmixInstanceConfig {
    pub id: String,
    pub name: String,
    pub host: String,
    pub port: u16,
    pub color: String,
    pub enabled: bool,
    /// How often to refresh the XML snapshot, in milliseconds. `0` disables polling.
    pub xml_interval_ms: u64,
}

/// A named set of instance ids used as an action target.
#[derive(Clone, Debug, PartialEq, Eq)]
pub struct TargetGroup {
    pub id: String,
    pub name: String,
    pub members: Vec<String>,
}

/// Which instances an action should talk to.
#[derive(Clone, Debug, PartialEq, Eq)]
pub enum TargetSelector {
    All,
    Group { id: String },
    Instances { ids: Vec<String> },
}

pub fn default_host() -> (r: String)
    ensures
        r@ == "127.0.0.1"@,
{
    owned("127.0.0.1")
}

pub fn default_port() -> (r: u16)
    ensures
        r == 8099,
{
    8099
}

pub fn default_color() -> (r: String)
    ensures
        r@ == "#4c8dff"@,
{
    owned("#4c8dff")
}

pub fn default_true() -> (r: bool)
    ensures
        r,
{
    true
}

pub fn default_interval() -> (r: u64)
    ensures
        r == 2000,
{
    2000
}

/// Connection identity: trimmed host, port, enabled flag and polling interval.
pub open spec fn spec_endpoint_key(c: VmixInstanceConfig) -> Seq<char> {
    trim(c.host@) + "|"@ + dec(c.port as nat) + "|"@ + bool_text(c.enabled) + "|"@ + dec(
        c.xml_interval_ms as nat,
    )
}

impl VmixInstanceConfig {
    /// Connection identity. Name and color changes do not force a reconnect.
    pub fn endpoint_key(&self) -> (r: String)
        ensures
            r@ == spec_endpoint_key(*self),
    {
        let mut s = owned(trim_str(self.host.as_str()));
        s.append("|");
        push_decimal(&mut s, self.port as u64);
        s.append("|");
        if self.enabled {
            s.append("true");
        } else {
            s.append("false");
        }
        s.append("|");
        push_decimal(&mut s, self.xml_interval_ms);
        s
    }
}

/// The first group whose id is `id`.
pub open spec fn find_group(groups: Seq<TargetGroup>, id: Seq<char>) -> Option<TargetGroup>
    decreases groups.len(),
{
    if groups.len() == 0 {
        None
    } else if groups[0].id@ == id {
        Some(groups[0])
    } else {
        find_group(groups.drop_first(), id)
    }
}

/// Whether a selector picks the instance `c`, given the configured groups.
pub open spec fn selects(sel: TargetSelector, groups: Seq<TargetGroup>, c: VmixInstanceConfig) -> bool {
    match sel {
        TargetSelector::All => c.enabled,
        TargetSelector::Group { id } => match find_group(groups, id@) {
            Some(g) => has_string(g.members@, c.id@),
            None => false,
        },
        TargetSelector::Instances { ids } => has_string(ids@, c.id@),
    }
}

/// Ids of the instances that a selector picks, in configuration order.
pub open spec fn selected_ids(
    sel: TargetSelector,
    groups: Seq<TargetGroup>,
    cs: Seq<VmixInstanceConfig>,
) -> Seq<Seq<char>>
    decreases cs.len(),
{
    if cs.len() == 0 {
        seq![]
    } else {
        let rest = selected_ids(sel, groups, cs.drop_last());
        if selects(sel, groups, cs.last()) {
            rest.push(cs.last().id@)
        } else {
            rest
        }
    }
}

fn group_by_id<'a>(groups: &'a [TargetGroup], id: &str) -> (r: Option<&'a TargetGroup>)
    ensures
        match r {
            Some(g) => find_group(groups@, id@) == Some(*g),
            None => find_group(groups@, id@) is None,
        },
{
    let mut i: usize = 0;
    assert(groups@.subrange(0, groups@.len() as int) =~= groups@);
    while i < groups.len()
        invariant
            i <= groups@.len(),
            find_group(groups@, id@) == find_group(groups@.subrange(i as int, groups@.len() as int), id@),
        decreases groups@.len() - i,
    {
        assert(groups@.subrange(i as int, groups@.len() as int).drop_first() =~= groups@.subrange(
            i + 1,
            groups@.len() as int,
        ));
        if str_eq(groups[i].id.as_str(), id) {
            return Some(&groups[i]);
        }
        i = i + 1;
    }
    None
}

/// Resolve a selector to existing instance ids, preserving configuration order.
///
/// `All` includes only enabled instances. An explicit group or id list keeps
/// disabled instances so the key can show them as unavailable.
pub fn resolve_targets(
    selector: &TargetSelector,
    instances: &[VmixInstanceConfig],
    groups: &[TargetGroup],
) -> (r: Vec<String>)
    ensures
        string_views(r@) == selected_ids(*selector, groups@, instances@),
{
    let group = match selector {
        TargetSelector::Group { id } => group_by_id(groups, id.as_str()),
        _ => None,
    };
    if let TargetSelector::Group { .. } = selector {
        if group.is_none() {
            proof {
                lemma_selected_none(*selector, groups@, instances@);
            }
            return Vec::new();
        }
    }
    let mut out: Vec<String> = Vec::new();
    let mut i: usize = 0;
    while i < instances.len()
        invariant
            i <= instances@.len(),
            string_views(out@) == selected_ids(*selector, groups@, instances@.subrange(0, i as int)),
            match *selector {
                TargetSelector::Group { id } => match group {
                    Some(g) => find_group(groups@, id@) == Some(*g),
                    None => false,
                },
                _ => true,
            },
        decreases instances@.len() - i,
    {
        let c = &instances[i];
        let keep = match selector {
            TargetSelector::All => c.enabled,
            TargetSelector::Group { .. } => match group {
                Some(g) => contains_string(g.members.as_slice(), c.id.as_str()),
                None => false,
            },
            TargetSelector::Instances { ids } => contains_string(ids.as_slice(), c.id.as_str()),
        };
        assert(keep == selects(*selector, groups@, *c));
        let ghost before = out@;
        if keep {
            out.push(c.id.clone());
            assert(string_views(out@) =~= string_views(before).push(c.id@));
        }
        assert(instances@.subrange(0, i + 1).drop_last() =~= instances@.subrange(0, i as int));
        i = i + 1;
    }
    assert(instances@.subrange(0, instances@.len() as int) =~= instances@);
    out
}

/// Two selectors that pick the same instances resolve to the same ids.
pub proof fn lemma_selected_ids_agree(
    a: TargetSelector,
    b: TargetSelector,
    groups: Seq<TargetGroup>,
    cs: Seq<VmixInstanceConfig>,
)
    requires
        forall|c: VmixInstanceConfig| #[trigger] selects(a, groups, c) == selects(b, groups, c),
    ensures
        selected_ids(a, groups, cs) == selected_ids(b, groups, cs),
    decreases cs.len(),
{
    if cs.len() > 0 {
        lemma_selected_ids_agree(a, b, groups, cs.drop_last());
        assert(selects(a, groups, cs.last()) == selects(b, groups, cs.last()));
    }
}

/// A selector that picks nothing yields no ids.
proof fn lemma_selected_none(sel: TargetSelector, groups: Seq<TargetGroup>, cs: Seq<VmixInstanceConfig>)
    requires
        forall|c: VmixInstanceConfig| !selects(sel, groups, c),
    ensures
        selected_ids(sel, groups, cs) == Seq::<Seq<char>>::empty(),
    decreases cs.len(),
{
    if cs.len() > 0 {
        lemma_selected_none(sel, groups, cs.drop_last());
    }
}


/// Some configured instance with this id is picked by the selector.
pub open spec fn picked_by(sel: TargetSelector, groups: Seq<TargetGroup>, cs: Seq<VmixInstanceConfig>, id: Seq<char>) -> bool {
    exists|j: int| 0 <= j < cs.len() && #[trigger] cs[j].id@ == id && selects(sel, groups, cs[j])
}

/// Some enabled configured instance has this id.
pub open spec fn enabled_id(cs: Seq<VmixInstanceConfig>, id: Seq<char>) -> bool {
    exists|j: int| 0 <= j < cs.len() && #[trigger] cs[j].id@ == id && cs[j].enabled
}

proof fn lemma_selected_has_source(sel: TargetSelector, groups: Seq<TargetGroup>, cs: Seq<VmixInstanceConfig>)
    ensures
        forall|k: int|
            0 <= k < selected_ids(sel, groups, cs).len() ==> picked_by(
                sel,
                groups,
                cs,
                #[trigger] selected_ids(sel, groups, cs)[k],
            ),
    decreases cs.len(),
{
    if cs.len() > 0 {
        let rest = cs.drop_last();
        lemma_selected_has_source(sel, groups, rest);
        let r = selected_ids(sel, groups, rest);
        assert forall|k: int| 0 <= k < selected_ids(sel, groups, cs).len() implies picked_by(
            sel,
            groups,
            cs,
            #[trigger] selected_ids(sel, groups, cs)[k],
        ) by {
            if k < r.len() {
                assert(picked_by(sel, groups, rest, r[k]));
                let j = choose|j: int| 0 <= j < rest.len() && #[trigger] rest[j].id@ == r[k] && selects(sel, groups, rest[j]);
                assert(cs[j] == rest[j]);
                assert(selected_ids(sel, groups, cs)[k] == r[k]);
            } else {
                assert(cs[cs.len() - 1] == cs.last());
            }
        }
    }
}

proof fn lemma_selected_includes(sel: TargetSelector, groups: Seq<TargetGroup>, cs: Seq<VmixInstanceConfig>, j: int)
    requires
        0 <= j < cs.len(),
        selects(sel, groups, cs[j]),
    ensures
        selected_ids(sel, groups, cs).contains(cs[j].id@),
    decreases cs.len(),
{
    let r = selected_ids(sel, groups, cs.drop_last());
    if j < cs.len() - 1 {
        lemma_selected_includes(sel, groups, cs.drop_last(), j);
        assert(cs.drop_last()[j] == cs[j]);
        let k = choose|k: int| 0 <= k < r.len() && r[k] == cs[j].id@;
        if selects(sel, groups, cs.last()) {
            assert(r.push(cs.last().id@)[k] == cs[j].id@);
        }
    } else {
        assert(r.push(cs.last().id@)[r.len() as int] == cs[j].id@);
    }
}

/// Every resolved id belongs to a configured instance that the selector picks;
/// for `All`, that instance is enabled.
pub proof fn resolved_targets_are_configured(sel: TargetSelector, groups: Seq<TargetGroup>, cs: Seq<VmixInstanceConfig>)
    ensures
        forall|k: int|
            0 <= k < selected_ids(sel, groups, cs).len() ==> picked_by(
                sel,
                groups,
                cs,
                #[trigger] selected_ids(sel, groups, cs)[k],
            ),
        sel is All ==> forall|k: int|
            0 <= k < selected_ids(sel, groups, cs).len() ==> enabled_id(
                cs,
                #[trigger] selected_ids(sel, groups, cs)[k],
            ),
{
    lemma_selected_has_source(sel, groups, cs);
    if sel is All {
        assert forall|k: int| 0 <= k < selected_ids(sel, groups, cs).len() implies enabled_id(
            cs,
            #[trigger] selected_ids(sel, groups, cs)[k],
        ) by {
            assert(picked_by(sel, groups, cs, selected_ids(sel, groups, cs)[k]));
        }
    }
}

/// `All` resolves to every enabled instance.
pub proof fn all_targets_every_enabled_instance(groups: Seq<TargetGroup>, cs: Seq<VmixInstanceConfig>, j: int)
    requires
        0 <= j < cs.len(),
        cs[j].enabled,
    ensures
        selected_ids(TargetSelector::All, groups, cs).contains(cs[j].id@),
{
    lemma_selected_includes(TargetSelector::All, groups, cs, j);
}

/// An explicit id list keeps a listed instance even when it is disabled, so the
/// key can show it as unavailable.
pub proof fn explicit_ids_keep_disabled_instances(
    ids: Vec<String>,
    groups: Seq<TargetGroup>,
    cs: Seq<VmixInstanceConfig>,
    j: int,
)
    requires
        0 <= j < cs.len(),
        has_string(ids@, cs[j].id@),
    ensures
        selected_ids(TargetSelector::Instances { ids }, groups, cs).contains(cs[j].id@),
{
    lemma_selected_includes(TargetSelector::Instances { ids }, groups, cs, j);
}

/// A group keeps its member instances, enabled or not.
pub proof fn group_keeps_its_members(
    id: String,
    groups: Seq<TargetGroup>,
    cs: Seq<VmixInstanceConfig>,
    j: int,
)
    requires
        0 <= j < cs.len(),
        find_group(groups, id@) is Some,
        has_string(find_group(groups, id@)->0.members@, cs[j].id@),
    ensures
        selected_ids(TargetSelector::Group { id }, groups, cs).contains(cs[j].id@),
{
    lemma_selected_includes(TargetSelector::Group { id }, groups, cs, j);
}

/// The connection identity ignores name and colour: renaming or recolouring an
/// instance leaves its endpoint as it was.
pub proof fn endpoint_ignores_name_and_color(a: VmixInstanceConfig, b: VmixInstanceConfig)
    requires
        a.host@ == b.host@,
        a.port == b.port,
        a.enabled == b.enabled,
        a.xml_interval_ms == b.xml_interval_ms,
    ensures
        spec_endpoint_key(a) == spec_endpoint_key(b),
{
}

} // verus!
