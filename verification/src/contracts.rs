//! Settings shared with the property inspector: instances, groups and per-key parameters.

use vstd::prelude::*;
use vstd::string::*;
use crate::config;
use crate::config::VmixInstanceConfig;
use crate::text::{owned, str_eq};

verus! {

/// A vMix instance as the property inspector edits it.
#[derive(Clone, Debug, PartialEq, Eq)]
pub struct InstanceConfig {
    pub id: String,
    pub name: String,
    pub host: String,
    pub port: u16,
    pub color: String,
    pub enabled: bool,
    pub xml_interval_ms: u32,
}

pub fn default_host() -> (r: String)
    ensures
        r@ == "127.0.0.1"@,
{
    owned("127.0.0.1")
}

pub fn default_port() -> (r: u16)
    ensures
        r == 8099,
{
    8099
}

pub fn default_color() -> (r: String)
    ensures
        r@ == "#4c8dff"@,
{
    owned("#4c8dff")
}

pub fn default_true() -> (r: bool)
    ensures
        r,
{
    true
}

pub fn default_interval() -> (r: u32)
    ensures
        r == 2000,
{
    2000
}

impl From<InstanceConfig> for VmixInstanceConfig {
    fn from(value: InstanceConfig) -> (r: Self) {
        VmixInstanceConfig {
            id: value.id,
            name: value.name,
            host: value.host,
            port: value.port,
            color: value.color,
            enabled: value.enabled,
            xml_interval_ms: value.xml_interval_ms as u64,
        }
    }
}

impl vstd::std_specs::convert::FromSpecImpl<InstanceConfig> for VmixInstanceConfig {
    open spec fn obeys_from_spec() -> bool {
        true
    }

    open spec fn from_spec(value: InstanceConfig) -> Self {
        VmixInstanceConfig {
            id: value.id,
            name: value.name,
            host: value.host,
            port: value.port,
            color: value.color,
            enabled: value.enabled,
            xml_interval_ms: value.xml_interval_ms as u64,
        }
    }
}

/// A named set of instance ids, as the property inspector edits it.
#[derive(Clone, Debug, PartialEq, Eq)]
pub struct TargetGroup {
    pub id: String,
    pub name: String,
    pub members: Vec<String>,
}

impl From<TargetGroup> for config::TargetGroup {
    fn from(value: TargetGroup) -> (r: Self) {
        config::TargetGroup { id: value.id, name: value.name, members: value.members }
    }
}

impl vstd::std_specs::convert::FromSpecImpl<TargetGroup> for config::TargetGroup {
    open spec fn obeys_from_spec() -> bool {
        true
    }

    open spec fn from_spec(value: TargetGroup) -> Self {
        config::TargetGroup { id: value.id, name: value.name, members: value.members }
    }
}

/// `p` is the supervisor's copy of the edited instance `c`.
pub open spec fn copies_instance(p: VmixInstanceConfig, c: InstanceConfig) -> bool {
    &&& p.id@ == c.id@
    &&& p.name@ == c.name@
    &&& p.host@ == c.host@
    &&& p.port == c.port
    &&& p.color@ == c.color@
    &&& p.enabled == c.enabled
    &&& p.xml_interval_ms == c.xml_interval_ms
}

/// The supervisor's copy of an edited instance.
pub fn supervised_instance(c: &InstanceConfig) -> (r: VmixInstanceConfig)
    ensures
        copies_instance(r, *c),
{
    VmixInstanceConfig {
        id: c.id.clone(),
        name: c.name.clone(),
        host: c.host.clone(),
        port: c.port,
        color: c.color.clone(),
        enabled: c.enabled,
        xml_interval_ms: c.xml_interval_ms as u64,
    }
}

/// `p` is the supervisor's copy of the edited group `g`.
pub open spec fn copies_group(p: config::TargetGroup, g: TargetGroup) -> bool {
    &&& p.id@ == g.id@
    &&& p.name@ == g.name@
    &&& p.members@ == g.members@
}

/// The supervisor's copy of an edited group.
pub fn supervised_group(g: &TargetGroup) -> (r: config::TargetGroup)
    ensures
        copies_group(r, *g),
{
    config::TargetGroup { id: g.id.clone(), name: g.name.clone(), members: copy_strings(&g.members) }
}

/// Which instances a key talks to, as the property inspector edits it.
#[derive(Clone, Debug, PartialEq, Eq)]
pub enum TargetSelector {
    All,
    Group { id: String },
    Instances { ids: Vec<String> },
}

impl Default for TargetSelector {
    fn default() -> (r: Self)
        ensures
            r is All,
    {
        TargetSelector::All
    }
}

/// The supervisor's selector picks the same instances as the inspector's.
pub open spec fn same_selector(a: TargetSelector, b: config::TargetSelector) -> bool {
    match (a, b) {
        (TargetSelector::All, config::TargetSelector::All) => true,
        (TargetSelector::Group { id: x }, config::TargetSelector::Group { id: y }) => x == y,
        (TargetSelector::Instances { ids: x }, config::TargetSelector::Instances { ids: y }) => x@
            == y@,
        _ => false,
    }
}

/// The pool selector that a plugin selector stands for.
pub open spec fn pool_view(a: TargetSelector) -> config::TargetSelector {
    match a {
        TargetSelector::All => config::TargetSelector::All,
        TargetSelector::Group { id } => config::TargetSelector::Group { id },
        TargetSelector::Instances { ids } => config::TargetSelector::Instances { ids },
    }
}

pub fn copy_strings(v: &Vec<String>) -> (r: Vec<String>)
    ensures
        r@ == v@,
{
    let mut out: Vec<String> = Vec::new();
    let mut i: usize = 0;
    while i < v.len()
        invariant
            i <= v@.len(),
            out@ == v@.subrange(0, i as int),
        decreases v@.len() - i,
    {
        out.push(v[i].clone());
        assert(out@ =~= v@.subrange(0, i + 1));
        i = i + 1;
    }
    assert(v@.subrange(0, v@.len() as int) =~= v@);
    out
}

/// The supervisor's form of a selector.
pub fn pool_selector(value: &TargetSelector) -> (r: config::TargetSelector)
    ensures
        same_selector(*value, r),
{
    match value {
        TargetSelector::All => config::TargetSelector::All,
        TargetSelector::Group { id } => config::TargetSelector::Group { id: id.clone() },
        TargetSelector::Instances { ids } => config::TargetSelector::Instances {
            ids: copy_strings(ids),
        },
    }
}

pub const LOCALHOST_ID: &'static str = "localhost";

/// The instance that every fresh install starts with: vMix on this machine.
pub open spec fn is_localhost_instance(c: InstanceConfig) -> bool {
    &&& c.id@ == "localhost"@
    &&& c.name@ == "Localhost"@
    &&& c.host@ == "127.0.0.1"@
    &&& c.port == 8099
    &&& c.color@ == "#4c8dff"@
    &&& c.enabled
    &&& c.xml_interval_ms == 2000
}

pub fn localhost_instance() -> (r: InstanceConfig)
    ensures
        is_localhost_instance(r),
{
    InstanceConfig {
        id: owned("localhost"),
        name: owned("Localhost"),
        host: default_host(),
        port: default_port(),
        color: default_color(),
        enabled: true,
        xml_interval_ms: default_interval(),
    }
}

/// Plugin-wide settings stored by Stream Deck.
#[derive(Clone, Debug)]
pub struct GlobalSettings {
    pub instances: Vec<InstanceConfig>,
    pub groups: Vec<TargetGroup>,
    pub fg_color: String,
    /// Set after the first launch so an empty list is a user choice, not a missing default.
    pub seeded: bool,
}

pub fn default_fg() -> (r: String)
    ensures
        r@ == "#f4f7fb"@,
{
    owned("#f4f7fb")
}

impl Default for GlobalSettings {
    fn default() -> (r: Self)
        ensures
            r.instances@.len() == 0,
            r.groups@.len() == 0,
            r.fg_color@ == "#f4f7fb"@,
            !r.seeded,
    {
        GlobalSettings {
            instances: Vec::new(),
            groups: Vec::new(),
            fg_color: default_fg(),
            seeded: false,
        }
    }
}

/// Settings every action has: its targets and whether they share one parameter set.
#[derive(Clone, Debug)]
pub struct CommonSettings {
    pub target: TargetSelector,
    pub shared_params: bool,
}

impl Default for CommonSettings {
    fn default() -> (r: Self)
        ensures
            r.target is All,
            r.shared_params,
    {
        CommonSettings { target: TargetSelector::All, shared_params: true }
    }
}

#[derive(Clone, Debug)]
pub struct AdvancedSettings {
    pub long_press: bool,
    pub long_press_ms: u32,
}

impl Default for AdvancedSettings {
    fn default() -> (r: Self)
        ensures
            !r.long_press,
            r.long_press_ms == 0,
    {
        AdvancedSettings { long_press: false, long_press_ms: 0 }
    }
}

/// Fields used by every action. The inspector shows only the ones that apply.
#[derive(Clone, Debug)]
pub struct ActionParams {
    pub input: String,
    /// `0` is Main. `2`..=`16` are Mix 2 through Mix 16.
    pub mix: u8,
    pub effect: String,
    pub duration_ms: String,
    pub overlay: u8,
    pub overlay_mode: String,
    pub stinger: u8,
    pub replay_action: String,
    pub channel: String,
    pub audio_target: String,
    pub bus: String,
    pub list_action: String,
    pub index: String,
    pub title_action: String,
    pub value: String,
    pub selected_name: String,
    pub function_name: String,
    pub extra: String,
    pub raw: String,
}

pub fn default_cut() -> (r: String)
    ensures
        r@ == "Cut"@,
{
    owned("Cut")
}

pub fn default_one() -> (r: u8)
    ensures
        r == 1,
{
    1
}

pub fn default_toggle() -> (r: String)
    ensures
        r@ == "toggle"@,
{
    owned("toggle")
}

pub fn default_play() -> (r: String)
    ensures
        r@ == "play"@,
{
    owned("play")
}

pub fn default_input_target() -> (r: String)
    ensures
        r@ == "input"@,
{
    owned("input")
}

pub fn default_bus() -> (r: String)
    ensures
        r@ == "A"@,
{
    owned("A")
}

pub fn default_next() -> (r: String)
    ensures
        r@ == "next"@,
{
    owned("next")
}

pub fn default_text() -> (r: String)
    ensures
        r@ == "settext"@,
{
    owned("settext")
}

/// Parameters of a freshly placed key.
pub open spec fn is_default_params(p: ActionParams) -> bool {
    &&& p.input@.len() == 0
    &&& p.mix == 0
    &&& p.effect@ == "Cut"@
    &&& p.duration_ms@.len() == 0
    &&& p.overlay == 1
    &&& p.overlay_mode@ == "toggle"@
    &&& p.stinger == 1
    &&& p.replay_action@ == "play"@
    &&& p.channel@.len() == 0
    &&& p.audio_target@ == "input"@
    &&& p.bus@ == "A"@
    &&& p.list_action@ == "next"@
    &&& p.index@.len() == 0
    &&& p.title_action@ == "settext"@
    &&& p.value@.len() == 0
    &&& p.selected_name@.len() == 0
    &&& p.function_name@.len() == 0
    &&& p.extra@.len() == 0
    &&& p.raw@.len() == 0
}

impl Default for ActionParams {
    fn default() -> (r: Self)
        ensures
            is_default_params(r),
    {
        ActionParams {
            input: String::new(),
            mix: 0,
            effect: default_cut(),
            duration_ms: String::new(),
            overlay: default_one(),
            overlay_mode: default_toggle(),
            stinger: default_one(),
            replay_action: default_play(),
            channel: String::new(),
            audio_target: default_input_target(),
            bus: default_bus(),
            list_action: default_next(),
            index: String::new(),
            title_action: default_text(),
            value: String::new(),
            selected_name: String::new(),
            function_name: String::new(),
            extra: String::new(),
            raw: String::new(),
        }
    }
}

/// Everything stored for one key. `params` holds per-instance parameters in key order.
#[derive(Clone, Debug)]
pub struct ActionSettings {
    pub common: CommonSettings,
    pub advanced: AdvancedSettings,
    pub shared: ActionParams,
    pub params: Vec<(String, ActionParams)>,
}

impl Default for ActionSettings {
    fn default() -> (r: Self)
        ensures
            r.common.target is All,
            r.common.shared_params,
            is_default_params(r.shared),
            r.params@.len() == 0,
    {
        ActionSettings {
            common: CommonSettings::default(),
            advanced: AdvancedSettings::default(),
            shared: ActionParams::default(),
            params: Vec::new(),
        }
    }
}

/// Parameters stored for `id`, the first entry with that key.
pub open spec fn lookup_params(ps: Seq<(String, ActionParams)>, id: Seq<char>) -> Option<ActionParams>
    decreases ps.len(),
{
    if ps.len() == 0 {
        None
    } else if ps[0].0@ == id {
        Some(ps[0].1)
    } else {
        lookup_params(ps.drop_first(), id)
    }
}

/// The parameters a key uses for one instance.
pub open spec fn spec_params_for(s: ActionSettings, id: Seq<char>) -> ActionParams {
    if s.common.shared_params {
        s.shared
    } else {
        match lookup_params(s.params@, id) {
            Some(p) => p,
            None => s.shared,
        }
    }
}

impl ActionSettings {
    pub fn params_for(&self, instance_id: &str) -> (r: &ActionParams)
        ensures
            *r == spec_params_for(*self, instance_id@),
    {
        if self.common.shared_params {
            return &self.shared;
        }
        let mut i: usize = 0;
        assert(self.params@.subrange(0, self.params@.len() as int) =~= self.params@);
        while i < self.params.len()
            invariant
                i <= self.params@.len(),
                !self.common.shared_params,
                lookup_params(self.params@, instance_id@) == lookup_params(
                    self.params@.subrange(i as int, self.params@.len() as int),
                    instance_id@,
                ),
            decreases self.params@.len() - i,
        {
            assert(self.params@.subrange(i as int, self.params@.len() as int).drop_first()
                =~= self.params@.subrange(i + 1, self.params@.len() as int));
            assert(self.params@.subrange(i as int, self.params@.len() as int)[0] == self.params@[i as int]);
            if str_eq(self.params[i].0.as_str(), instance_id) {
                return &self.params[i].1;
            }
            i = i + 1;
        }
        &self.shared
    }

    /// Where the parameters for an instance come from: the index of its entry in
    /// `params`, or `None` for the shared set.
    pub fn params_source(&self, instance_id: &str) -> (r: Option<usize>)
        ensures
            match r {
                Some(k) => !self.common.shared_params && k < self.params@.len() && self.params@[k as int].0@
                    == instance_id@ && spec_params_for(*self, instance_id@) == self.params@[k as int].1
                    && forall|j: int| 0 <= j < k ==> self.params@[j].0@ != instance_id@,
                None => spec_params_for(*self, instance_id@) == self.shared && (!self.common.shared_params
                    ==> forall|j: int| 0 <= j < self.params@.len() ==> self.params@[j].0@ != instance_id@),
            },
    {
        if self.common.shared_params {
            return None;
        }
        let mut i: usize = 0;
        assert(self.params@.subrange(0, self.params@.len() as int) =~= self.params@);
        while i < self.params.len()
            invariant
                i <= self.params@.len(),
                !self.common.shared_params,
                forall|j: int| 0 <= j < i ==> self.params@[j].0@ != instance_id@,
                lookup_params(self.params@, instance_id@) == lookup_params(
                    self.params@.subrange(i as int, self.params@.len() as int),
                    instance_id@,
                ),
            decreases self.params@.len() - i,
        {
            assert(self.params@.subrange(i as int, self.params@.len() as int).drop_first()
                =~= self.params@.subrange(i + 1, self.params@.len() as int));
            assert(self.params@.subrange(i as int, self.params@.len() as int)[0] == self.params@[i as int]);
            if str_eq(self.params[i].0.as_str(), instance_id) {
                return Some(i);
            }
            i = i + 1;
        }
        None
    }
}

} // verus!
