//! Activator and XML state cached for each vMix instance.

use std::collections::{HashMap, HashSet};
use vstd::prelude::*;
use vstd::string::*;
use crate::numbering::{
    acts_preview_name, acts_program_name, spec_acts_preview_name, spec_acts_program_name,
};
use crate::text::{
    dec, eq_ic, eq_ignore_ascii_case, owned, parse_u64_bounded, parse_unsigned, push_char,
    push_decimal, str_eq, trim, trim_str,
};

verus! {

broadcast use vstd::std_specs::hash::group_hash_axioms;

/// One input row taken from the XML snapshot.
#[derive(Clone, Debug, PartialEq, Eq)]
pub struct CachedInput {
    pub number: u16,
    pub key: String,
    pub title: String,
    pub short_title: String,
    pub selected_index: Option<String>,
}

/// Key of a bus letter in the per-bus maps: its code point.
pub open spec fn bus_key(bus: char) -> u32 {
    bus as u32
}

/// Key of an (input, bus) pair in `input_bus`.
pub open spec fn input_bus_key(input: u16, bus: char) -> u64 {
    (input as u64 * 0x1_0000_0000 + bus as u64) as u64
}

pub fn bus_key_of(bus: char) -> (r: u32)
    ensures
        r == bus_key(bus),
{
    bus as u32
}

pub fn input_bus_key_of(input: u16, bus: char) -> (r: u64)
    ensures
        r == input_bus_key(input, bus),
{
    (input as u64) * 0x1_0000_0000 + (bus as u32 as u64)
}

/// Copies a set of mix numbers with `HashSet::clone`.
///
/// Trusted: the copy holds the same numbers.
#[verifier::external_body]
fn clone_mix_set(s: &HashSet<u8>) -> (r: HashSet<u8>)
    ensures
        r@ == s@,
{
    s.clone()
}

/// Activator and XML state for a single vMix instance.
///
/// Volumes are stored as whole percent, 0–100, the unit that titles and the dial
/// use. `input_audio` is true when sound is on, matching ACTS. Per-bus maps are
/// keyed by the bus letter's code point, `input_bus` by `input_bus_key`.
#[derive(Debug)]
pub struct VmixState {
    pub version: String,
    pub edition: String,
    /// User mix (0 = Main, 2..=16) to the program input number.
    pub program: HashMap<u8, u16>,
    pub preview: HashMap<u8, u16>,
    /// Overlay channel 1–8 to the input number while that overlay is on.
    pub overlays: HashMap<u8, u16>,
    pub fade_to_black: bool,
    pub recording: bool,
    pub streaming: bool,
    pub external: bool,
    pub fullscreen: bool,
    pub replay_playing: bool,
    pub multi_corder: bool,
    pub input_audio: HashMap<u16, bool>,
    pub master_audio: bool,
    pub bus_audio: HashMap<u32, bool>,
    pub input_solo: HashMap<u16, bool>,
    pub bus_solo: HashMap<u32, bool>,
    pub input_bus: HashMap<u64, bool>,
    pub input_master_audio: HashMap<u16, bool>,
    pub input_playing: HashMap<u16, bool>,
    pub input_volume: HashMap<u16, u8>,
    pub master_volume: u8,
    pub bus_volume: HashMap<u32, u8>,
    pub inputs: Vec<CachedInput>,
    pub mixes_present: HashSet<u8>,
}

/// The mathematical content of a `VmixState`.
pub struct VmixStateView {
    pub version: Seq<char>,
    pub edition: Seq<char>,
    pub program: Map<u8, u16>,
    pub preview: Map<u8, u16>,
    pub overlays: Map<u8, u16>,
    pub fade_to_black: bool,
    pub recording: bool,
    pub streaming: bool,
    pub external: bool,
    pub fullscreen: bool,
    pub replay_playing: bool,
    pub multi_corder: bool,
    pub input_audio: Map<u16, bool>,
    pub master_audio: bool,
    pub bus_audio: Map<u32, bool>,
    pub input_solo: Map<u16, bool>,
    pub bus_solo: Map<u32, bool>,
    pub input_bus: Map<u64, bool>,
    pub input_master_audio: Map<u16, bool>,
    pub input_playing: Map<u16, bool>,
    pub input_volume: Map<u16, u8>,
    pub master_volume: u8,
    pub bus_volume: Map<u32, u8>,
    pub inputs: Seq<CachedInput>,
    pub mixes_present: Set<u8>,
}

impl View for VmixState {
    type V = VmixStateView;

    open spec fn view(&self) -> VmixStateView {
        VmixStateView {
            version: self.version@,
            edition: self.edition@,
            program: self.program@,
            preview: self.preview@,
            overlays: self.overlays@,
            fade_to_black: self.fade_to_black,
            recording: self.recording,
            streaming: self.streaming,
            external: self.external,
            fullscreen: self.fullscreen,
            replay_playing: self.replay_playing,
            multi_corder: self.multi_corder,
            input_audio: self.input_audio@,
            master_audio: self.master_audio,
            bus_audio: self.bus_audio@,
            input_solo: self.input_solo@,
            bus_solo: self.bus_solo@,
            input_bus: self.input_bus@,
            input_master_audio: self.input_master_audio@,
            input_playing: self.input_playing@,
            input_volume: self.input_volume@,
            master_volume: self.master_volume,
            bus_volume: self.bus_volume@,
            inputs: self.inputs@,
            mixes_present: self.mixes_present@,
        }
    }
}

/// The state of an instance nothing has been learned about yet.
pub open spec fn empty_state() -> VmixStateView {
    VmixStateView {
        version: Seq::empty(),
        edition: Seq::empty(),
        program: Map::empty(),
        preview: Map::empty(),
        overlays: Map::empty(),
        fade_to_black: false,
        recording: false,
        streaming: false,
        external: false,
        fullscreen: false,
        replay_playing: false,
        multi_corder: false,
        input_audio: Map::empty(),
        master_audio: false,
        bus_audio: Map::empty(),
        input_solo: Map::empty(),
        bus_solo: Map::empty(),
        input_bus: Map::empty(),
        input_master_audio: Map::empty(),
        input_playing: Map::empty(),
        input_volume: Map::empty(),
        master_volume: 0,
        bus_volume: Map::empty(),
        inputs: Seq::empty(),
        mixes_present: Set::empty(),
    }
}

fn copy_text(s: &Option<String>) -> (r: Option<String>)
    ensures
        r == *s,
{
    match s {
        Some(t) => Some(t.clone()),
        None => None,
    }
}

fn copy_input(c: &CachedInput) -> (r: CachedInput)
    ensures
        r == *c,
{
    CachedInput {
        number: c.number,
        key: c.key.clone(),
        title: c.title.clone(),
        short_title: c.short_title.clone(),
        selected_index: copy_text(&c.selected_index),
    }
}

fn copy_inputs(v: &Vec<CachedInput>) -> (r: Vec<CachedInput>)
    ensures
        r@ == v@,
{
    let mut out: Vec<CachedInput> = Vec::new();
    let mut i: usize = 0;
    while i < v.len()
        invariant
            i <= v@.len(),
            out@ == v@.subrange(0, i as int),
        decreases v@.len() - i,
    {
        out.push(copy_input(&v[i]));
        assert(out@ =~= v@.subrange(0, i + 1));
        i = i + 1;
    }
    assert(v@.subrange(0, v@.len() as int) =~= v@);
    out
}

impl Clone for VmixState {
    fn clone(&self) -> (r: Self)
        ensures
            r@ == self@,
    {
        VmixState {
            version: self.version.clone(),
            edition: self.edition.clone(),
            program: self.program.clone(),
            preview: self.preview.clone(),
            overlays: self.overlays.clone(),
            fade_to_black: self.fade_to_black,
            recording: self.recording,
            streaming: self.streaming,
            external: self.external,
            fullscreen: self.fullscreen,
            replay_playing: self.replay_playing,
            multi_corder: self.multi_corder,
            input_audio: self.input_audio.clone(),
            master_audio: self.master_audio,
            bus_audio: self.bus_audio.clone(),
            input_solo: self.input_solo.clone(),
            bus_solo: self.bus_solo.clone(),
            input_bus: self.input_bus.clone(),
            input_master_audio: self.input_master_audio.clone(),
            input_playing: self.input_playing.clone(),
            input_volume: self.input_volume.clone(),
            master_volume: self.master_volume,
            bus_volume: self.bus_volume.clone(),
            inputs: copy_inputs(&self.inputs),
            mixes_present: clone_mix_set(&self.mixes_present),
        }
    }
}

impl Default for VmixState {
    fn default() -> (r: Self)
        ensures
            r@ == empty_state(),
    {
        VmixState {
            version: String::new(),
            edition: String::new(),
            program: HashMap::new(),
            preview: HashMap::new(),
            overlays: HashMap::new(),
            fade_to_black: false,
            recording: false,
            streaming: false,
            external: false,
            fullscreen: false,
            replay_playing: false,
            multi_corder: false,
            input_audio: HashMap::new(),
            master_audio: false,
            bus_audio: HashMap::new(),
            input_solo: HashMap::new(),
            bus_solo: HashMap::new(),
            input_bus: HashMap::new(),
            input_master_audio: HashMap::new(),
            input_playing: HashMap::new(),
            input_volume: HashMap::new(),
            master_volume: 0,
            bus_volume: HashMap::new(),
            inputs: Vec::new(),
            mixes_present: HashSet::new(),
        }
    }
}

/// An input list entry that an input spec names by title, short title or key,
/// ignoring ASCII case.
pub open spec fn names_input(input: CachedInput, spec: Seq<char>) -> bool {
    eq_ic(input.title@, spec) || eq_ic(input.short_title@, spec) || eq_ic(input.key@, spec)
}

/// Number of the first listed input that `spec` names.
pub open spec fn first_named(inputs: Seq<CachedInput>, spec: Seq<char>) -> Option<u16>
    decreases inputs.len(),
{
    if inputs.len() == 0 {
        None
    } else if names_input(inputs[0], spec) {
        Some(inputs[0].number)
    } else {
        first_named(inputs.drop_first(), spec)
    }
}

/// The input that a user-typed spec refers to: a number, or a title, short title
/// or key from the snapshot. Blank specs refer to nothing.
pub open spec fn spec_resolve_input(inputs: Seq<CachedInput>, spec: Seq<char>) -> Option<u16> {
    let s = trim(spec);
    if s.len() == 0 {
        None
    } else if parse_unsigned(s, 0xffff) is Some {
        Some(parse_unsigned(s, 0xffff)->0 as u16)
    } else {
        first_named(inputs, s)
    }
}

/// Whether a user mix is present: Main always is.
pub open spec fn spec_mix_available(v: VmixStateView, user_mix: u8) -> bool {
    user_mix == 0 || v.mixes_present.contains(user_mix)
}

impl VmixState {
    pub fn resolve_input(&self, spec: &str) -> (r: Option<u16>)
        ensures
            r == spec_resolve_input(self.inputs@, spec@),
    {
        let s = trim_str(spec);
        if s.unicode_len() == 0 {
            return None;
        }
        if let Some(number) = parse_u64_bounded(s, 0xffff) {
            return Some(number as u16);
        }
        let mut i: usize = 0;
        assert(self.inputs@.subrange(0, self.inputs@.len() as int) =~= self.inputs@);
        while i < self.inputs.len()
            invariant
                i <= self.inputs@.len(),
                s@ == trim(spec@),
                s@.len() > 0,
                parse_unsigned(s@, 0xffff) is None,
                first_named(self.inputs@, s@) == first_named(
                    self.inputs@.subrange(i as int, self.inputs@.len() as int),
                    s@,
                ),
            decreases self.inputs@.len() - i,
        {
            let input = &self.inputs[i];
            assert(self.inputs@.subrange(i as int, self.inputs@.len() as int).drop_first()
                =~= self.inputs@.subrange(i + 1, self.inputs@.len() as int));
            assert(self.inputs@.subrange(i as int, self.inputs@.len() as int)[0] == *input);
            if eq_ignore_ascii_case(input.title.as_str(), s) || eq_ignore_ascii_case(
                input.short_title.as_str(),
                s,
            ) || eq_ignore_ascii_case(input.key.as_str(), s) {
                return Some(input.number);
            }
            i = i + 1;
        }
        None
    }

    pub fn mix_available(&self, user_mix: u8) -> (r: bool)
        ensures
            r == spec_mix_available(self@, user_mix),
    {
        user_mix == 0 || self.mixes_present.contains(&user_mix)
    }

    /// The mixes the snapshot listed, in ascending order, for the property inspector.
    pub fn sorted_mixes(&self) -> (r: Vec<u8>)
        ensures
            forall|a: int, b: int| 0 <= a < b < r@.len() ==> r@[a] < r@[b],
            forall|m: u8| r@.contains(m) <==> self@.mixes_present.contains(m),
    {
        let mut out: Vec<u8> = Vec::new();
        let mut m: u16 = 0;
        while m < 256
            invariant
                m <= 256,
                forall|a: int, b: int| 0 <= a < b < out@.len() ==> out@[a] < out@[b],
                forall|k: int| 0 <= k < out@.len() ==> out@[k] < m,
                forall|x: u8| out@.contains(x) <==> (x < m && self@.mixes_present.contains(x)),
            decreases 256 - m,
        {
            let b = m as u8;
            assert(b == m);
            let ghost before = out@;
            let present = self.mixes_present.contains(&b);
            if present {
                out.push(b);
            }
            proof {
                assert forall|x: u8| out@.contains(x) implies (x < m + 1 && self@.mixes_present.contains(x)) by {
                    let k = choose|k: int| 0 <= k < out@.len() && out@[k] == x;
                    if k < before.len() {
                        assert(before[k] == x);
                        assert(before.contains(x));
                    }
                }
                assert forall|x: u8| (x < m + 1 && self@.mixes_present.contains(x)) implies out@.contains(x) by {
                    if x < m {
                        assert(before.contains(x));
                        let k = choose|k: int| 0 <= k < before.len() && before[k] == x;
                        assert(out@[k] == x);
                    } else {
                        assert(out@[out@.len() - 1] == x);
                    }
                }
            }
            m = m + 1;
        }
        out
    }
}

/// A slot map after an activator turns on or off: on claims the slot, off clears
/// it only when the slot still holds that input.
pub open spec fn spec_flag_slot(m: Map<u8, u16>, slot: u8, input: u16, active: bool) -> Map<u8, u16> {
    if active {
        m.insert(slot, input)
    } else if m.contains_key(slot) && m[slot] == input {
        m.remove(slot)
    } else {
        m
    }
}

fn flag_slot(map: &mut HashMap<u8, u16>, slot: u8, input: u16, active: bool)
    ensures
        final(map)@ == spec_flag_slot(old(map)@, slot, input, active),
{
    if active {
        map.insert(slot, input);
    } else {
        let holds = match map.get(&slot) {
            Some(v) => *v == input,
            None => false,
        };
        if holds {
            map.remove(&slot);
        }
    }
}


/// One ACTS activator update, as the TCP API reports it.
///
/// Volumes are whole percent. Program and preview activators carry the user mix
/// (0 = Main), overlay activators their channel.
#[derive(Debug)]
pub enum Activator {
    Program { mix: u8, input: u16, on: bool },
    Preview { mix: u8, input: u16, on: bool },
    Overlay { channel: u8, input: u16, on: bool },
    InputPlaying { input: u16, on: bool },
    InputAudio { input: u16, on: bool },
    InputSolo { input: u16, on: bool },
    InputBusAudio { input: u16, bus: char, on: bool },
    InputMasterAudio { input: u16, on: bool },
    MasterAudio { on: bool },
    BusAudio { bus: char, on: bool },
    BusSolo { bus: char, on: bool },
    FadeToBlack { on: bool },
    Recording { on: bool },
    Streaming { on: bool },
    External { on: bool },
    Fullscreen { on: bool },
    ReplayPlaying { on: bool },
    InputVolume { input: u16, percent: u8 },
    MasterVolume { percent: u8 },
    BusVolume { bus: char, percent: u8 },
    InputHeadphones,
    MasterHeadphones,
    Unknown { parts: Vec<String> },
}

/// The overlay channel an activator name such as `Overlay5` names, 1 to 8.
pub open spec fn overlay_channel(name: Seq<char>) -> Option<u8> {
    if name.len() == 8 && name.subrange(0, 7) == "Overlay"@ && '1' <= name[7] && name[7] <= '8' {
        Some((name[7] as int - 48) as u8)
    } else {
        None
    }
}

/// An activator given only as its parts, `name` then values: overlay channels are
/// read as `OverlayN input state` (input digits, `1` for on, a missing or
/// unreadable input as 0); anything else stays unknown.
pub open spec fn spec_activator_from_parts(parts: Vec<String>) -> Activator {
    if parts@.len() >= 3 && overlay_channel(parts@[0]@) is Some {
        Activator::Overlay {
            channel: overlay_channel(parts@[0]@)->0,
            input: match parse_unsigned(parts@[1]@, 0xffff) {
                Some(n) => n as u16,
                None => 0,
            },
            on: parts@[2]@ == "1"@,
        }
    } else {
        Activator::Unknown { parts }
    }
}

fn overlay_channel_of(name: &str) -> (r: Option<u8>)
    ensures
        r == overlay_channel(name@),
{
    if name.unicode_len() != 8 {
        return None;
    }
    let head = name.substring_char(0, 7);
    if !str_eq(head, "Overlay") {
        return None;
    }
    let c = name.get_char(7);
    if '1' <= c && c <= '8' {
        Some((c as u32 - 48) as u8)
    } else {
        None
    }
}

pub fn activator_from_parts(parts: Vec<String>) -> (r: Activator)
    ensures
        r == spec_activator_from_parts(parts),
{
    if parts.len() >= 3 {
        if let Some(channel) = overlay_channel_of(parts[0].as_str()) {
            let input = match parse_u64_bounded(parts[1].as_str(), 0xffff) {
                Some(n) => n as u16,
                None => 0,
            };
            let on = str_eq(parts[2].as_str(), "1");
            return Activator::Overlay { channel, input, on };
        }
    }
    Activator::Unknown { parts }
}

/// The activator name used to decide which keys an update affects.
pub open spec fn spec_activator_name(a: Activator) -> Seq<char> {
    match a {
        Activator::Program { mix, .. } => spec_acts_program_name(mix),
        Activator::Preview { mix, .. } => spec_acts_preview_name(mix),
        Activator::Overlay { channel, .. } => "Overlay"@ + dec(channel as nat),
        Activator::InputPlaying { .. } => "InputPlaying"@,
        Activator::InputAudio { .. } => "InputAudio"@,
        Activator::InputSolo { .. } => "InputSolo"@,
        Activator::InputBusAudio { bus, .. } => "InputBus"@ + seq![bus] + "Audio"@,
        Activator::InputMasterAudio { .. } => "InputMasterAudio"@,
        Activator::MasterAudio { .. } => "MasterAudio"@,
        Activator::BusAudio { bus, .. } => "Bus"@ + seq![bus] + "Audio"@,
        Activator::BusSolo { bus, .. } => "Bus"@ + seq![bus] + "Solo"@,
        Activator::FadeToBlack { .. } => "FadeToBlack"@,
        Activator::Recording { .. } => "Recording"@,
        Activator::Streaming { .. } => "Streaming"@,
        Activator::External { .. } => "External"@,
        Activator::Fullscreen { .. } => "Fullscreen"@,
        Activator::ReplayPlaying { .. } => "ReplayPlaying"@,
        Activator::InputVolume { .. } => "InputVolume"@,
        Activator::MasterVolume { .. } => "MasterVolume"@,
        Activator::BusVolume { bus, .. } => "Bus"@ + seq![bus] + "Volume"@,
        Activator::InputHeadphones => "InputHeadphones"@,
        Activator::MasterHeadphones => "MasterHeadphones"@,
        Activator::Unknown { parts } => if parts@.len() > 0 {
            parts@[0]@
        } else {
            "Unknown"@
        },
    }
}

/// The cached state after one activator update.
pub open spec fn spec_apply_acts(v: VmixStateView, a: Activator) -> VmixStateView {
    match a {
        Activator::Program { mix, input, on } => VmixStateView {
            program: spec_flag_slot(v.program, mix, input, on),
            ..v
        },
        Activator::Preview { mix, input, on } => VmixStateView {
            preview: spec_flag_slot(v.preview, mix, input, on),
            ..v
        },
        Activator::Overlay { channel, input, on } => VmixStateView {
            overlays: spec_flag_slot(v.overlays, channel, input, on),
            ..v
        },
        Activator::InputPlaying { input, on } => VmixStateView {
            input_playing: v.input_playing.insert(input, on),
            ..v
        },
        Activator::InputAudio { input, on } => VmixStateView {
            input_audio: v.input_audio.insert(input, on),
            ..v
        },
        Activator::InputSolo { input, on } => VmixStateView {
            input_solo: v.input_solo.insert(input, on),
            ..v
        },
        Activator::InputBusAudio { input, bus, on } => VmixStateView {
            input_bus: v.input_bus.insert(input_bus_key(input, bus), on),
            ..v
        },
        Activator::InputMasterAudio { input, on } => VmixStateView {
            input_master_audio: v.input_master_audio.insert(input, on),
            ..v
        },
        Activator::MasterAudio { on } => VmixStateView { master_audio: on, ..v },
        Activator::BusAudio { bus, on } => VmixStateView {
            bus_audio: v.bus_audio.insert(bus_key(bus), on),
            ..v
        },
        Activator::BusSolo { bus, on } => VmixStateView {
            bus_solo: v.bus_solo.insert(bus_key(bus), on),
            ..v
        },
        Activator::FadeToBlack { on } => VmixStateView { fade_to_black: on, ..v },
        Activator::Recording { on } => VmixStateView { recording: on, ..v },
        Activator::Streaming { on } => VmixStateView { streaming: on, ..v },
        Activator::External { on } => VmixStateView { external: on, ..v },
        Activator::Fullscreen { on } => VmixStateView { fullscreen: on, ..v },
        Activator::ReplayPlaying { on } => VmixStateView { replay_playing: on, ..v },
        Activator::InputVolume { input, percent } => VmixStateView {
            input_volume: v.input_volume.insert(input, percent),
            ..v
        },
        Activator::MasterVolume { percent } => VmixStateView { master_volume: percent, ..v },
        Activator::BusVolume { bus, percent } => VmixStateView {
            bus_volume: v.bus_volume.insert(bus_key(bus), percent),
            ..v
        },
        Activator::InputHeadphones => v,
        Activator::MasterHeadphones => v,
        Activator::Unknown { .. } => v,
    }
}

fn bus_name(prefix: &str, bus: char, suffix: &str) -> (r: String)
    ensures
        r@ == prefix@ + seq![bus] + suffix@,
{
    let mut s = owned(prefix);
    push_char(&mut s, bus);
    s.append(suffix);
    s
}

/// Apply one ACTS payload. Returns the activator name used for key filtering.
#[verifier::spinoff_prover]
#[verifier::rlimit(50)]
pub fn apply_acts(state: &mut VmixState, data: Activator) -> (name: String)
    ensures
        final(state)@ == spec_apply_acts(old(state)@, data),
        name@ == spec_activator_name(data),
{
    match data {
        Activator::Program { mix, input, on } => {
            flag_slot(&mut state.program, mix, input, on);
            acts_program_name(mix)
        },
        Activator::Preview { mix, input, on } => {
            flag_slot(&mut state.preview, mix, input, on);
            acts_preview_name(mix)
        },
        Activator::Overlay { channel, input, on } => {
            flag_slot(&mut state.overlays, channel, input, on);
            let mut s = owned("Overlay");
            push_decimal(&mut s, channel as u64);
            s
        },
        Activator::InputPlaying { input, on } => {
            state.input_playing.insert(input, on);
            owned("InputPlaying")
        },
        Activator::InputAudio { input, on } => {
            state.input_audio.insert(input, on);
            owned("InputAudio")
        },
        Activator::InputSolo { input, on } => {
            state.input_solo.insert(input, on);
            owned("InputSolo")
        },
        Activator::InputBusAudio { input, bus, on } => {
            state.input_bus.insert(input_bus_key_of(input, bus), on);
            bus_name("InputBus", bus, "Audio")
        },
        Activator::InputMasterAudio { input, on } => {
            state.input_master_audio.insert(input, on);
            owned("InputMasterAudio")
        },
        Activator::MasterAudio { on } => {
            state.master_audio = on;
            owned("MasterAudio")
        },
        Activator::BusAudio { bus, on } => {
            state.bus_audio.insert(bus_key_of(bus), on);
            bus_name("Bus", bus, "Audio")
        },
        Activator::BusSolo { bus, on } => {
            state.bus_solo.insert(bus_key_of(bus), on);
            bus_name("Bus", bus, "Solo")
        },
        Activator::FadeToBlack { on } => {
            state.fade_to_black = on;
            owned("FadeToBlack")
        },
        Activator::Recording { on } => {
            state.recording = on;
            owned("Recording")
        },
        Activator::Streaming { on } => {
            state.streaming = on;
            owned("Streaming")
        },
        Activator::External { on } => {
            state.external = on;
            owned("External")
        },
        Activator::Fullscreen { on } => {
            state.fullscreen = on;
            owned("Fullscreen")
        },
        Activator::ReplayPlaying { on } => {
            state.replay_playing = on;
            owned("ReplayPlaying")
        },
        Activator::InputVolume { input, percent } => {
            state.input_volume.insert(input, percent);
            owned("InputVolume")
        },
        Activator::MasterVolume { percent } => {
            state.master_volume = percent;
            owned("MasterVolume")
        },
        Activator::BusVolume { bus, percent } => {
            state.bus_volume.insert(bus_key_of(bus), percent);
            bus_name("Bus", bus, "Volume")
        },
        Activator::InputHeadphones => owned("InputHeadphones"),
        Activator::MasterHeadphones => owned("MasterHeadphones"),
        Activator::Unknown { parts } => {
            if parts.len() > 0 {
                parts[0].clone()
            } else {
                owned("Unknown")
            }
        },
    }
}


/// One `<mix>` element of the XML snapshot.
#[derive(Clone, Debug)]
pub struct XmlMix {
    pub number: String,
    pub active: String,
    pub preview: String,
}

/// One `<input>` element of the XML snapshot. `volume` is whole percent, 0–100.
#[derive(Clone, Debug)]
pub struct XmlInput {
    pub number: String,
    pub key: String,
    pub title: String,
    pub short_title: String,
    pub selected_index: Option<String>,
    pub muted: Option<bool>,
    pub volume: Option<u8>,
    pub solo: Option<bool>,
}

/// One audio bus of the XML snapshot. `volume` is whole percent, 0–100.
#[derive(Clone, Debug)]
pub struct XmlBus {
    pub muted: bool,
    pub volume: u8,
    pub solo: Option<bool>,
}

/// One `<overlay>` element of the XML snapshot.
#[derive(Clone, Debug)]
pub struct XmlOverlay {
    pub number: String,
    pub input: Option<String>,
}

/// The parts of a vMix XML snapshot that the cache keeps.
#[derive(Clone, Debug)]
pub struct XmlSnapshot {
    pub version: String,
    pub edition: String,
    pub fade_to_black: bool,
    pub recording: bool,
    pub streaming: bool,
    pub external: bool,
    pub fullscreen: bool,
    pub multi_corder: bool,
    pub active: String,
    pub preview: String,
    pub mixes: Vec<XmlMix>,
    pub inputs: Vec<XmlInput>,
    pub master_volume: u8,
    pub master_muted: bool,
    pub bus_a: Option<XmlBus>,
    pub bus_b: Option<XmlBus>,
    pub bus_c: Option<XmlBus>,
    pub bus_d: Option<XmlBus>,
    pub bus_e: Option<XmlBus>,
    pub bus_f: Option<XmlBus>,
    pub bus_g: Option<XmlBus>,
    pub overlays: Vec<XmlOverlay>,
}

/// Records `text` as the input of `slot` when it is a positive input number.
pub open spec fn put_positive(m: Map<u8, u16>, slot: u8, text: Seq<char>) -> Map<u8, u16> {
    match parse_unsigned(text, 0xffff) {
        Some(n) => if n > 0 {
            m.insert(slot, n as u16)
        } else {
            m
        },
        None => m,
    }
}

/// The user mix that the `index`-th `<mix>` element stands for.
pub open spec fn mix_slot(number: Seq<char>, index: int) -> u8 {
    match parse_unsigned(number, 0xff) {
        Some(n) if 2 <= n <= 16 => n as u8,
        Some(n) if n <= 1 => 0,
        _ => if index == 0 {
            0
        } else if index % 256 + 1 > 255 {
            255
        } else {
            (index % 256 + 1) as u8
        },
    }
}

/// Top-level fields of a snapshot: flags, versions, the Main mix.
pub open spec fn merge_head(v: VmixStateView, x: XmlSnapshot) -> VmixStateView {
    VmixStateView {
        version: if x.version@.len() > 0 { x.version@ } else { v.version },
        edition: if x.edition@.len() > 0 { x.edition@ } else { v.edition },
        fade_to_black: x.fade_to_black,
        recording: x.recording,
        streaming: x.streaming,
        external: x.external,
        fullscreen: x.fullscreen,
        multi_corder: x.multi_corder,
        mixes_present: Set::empty().insert(0),
        program: put_positive(v.program, 0, x.active@),
        preview: put_positive(v.preview, 0, x.preview@),
        ..v
    }
}

pub open spec fn merge_mix(v: VmixStateView, m: XmlMix, index: int) -> VmixStateView {
    let u = mix_slot(m.number@, index);
    VmixStateView {
        mixes_present: v.mixes_present.insert(u),
        program: put_positive(v.program, u, m.active@),
        preview: put_positive(v.preview, u, m.preview@),
        ..v
    }
}

pub open spec fn merge_mixes(v: VmixStateView, ms: Seq<XmlMix>) -> VmixStateView
    decreases ms.len(),
{
    if ms.len() == 0 {
        v
    } else {
        merge_mix(merge_mixes(v, ms.drop_last()), ms.last(), ms.len() - 1)
    }
}

pub open spec fn opt_insert<K, V>(m: Map<K, V>, k: K, o: Option<V>) -> Map<K, V> {
    match o {
        Some(x) => m.insert(k, x),
        None => m,
    }
}

pub open spec fn merge_input(v: VmixStateView, i: XmlInput) -> VmixStateView {
    match parse_unsigned(i.number@, 0xffff) {
        None => v,
        Some(n) => {
            let n = n as u16;
            VmixStateView {
                input_audio: match i.muted {
                    Some(m) => v.input_audio.insert(n, !m),
                    None => v.input_audio,
                },
                input_volume: opt_insert(v.input_volume, n, i.volume),
                input_solo: opt_insert(v.input_solo, n, i.solo),
                inputs: v.inputs.push(
                    CachedInput {
                        number: n,
                        key: i.key,
                        title: i.title,
                        short_title: i.short_title,
                        selected_index: i.selected_index,
                    },
                ),
                ..v
            }
        },
    }
}

pub open spec fn merge_inputs(v: VmixStateView, is: Seq<XmlInput>) -> VmixStateView
    decreases is.len(),
{
    if is.len() == 0 {
        v
    } else {
        merge_input(merge_inputs(v, is.drop_last()), is.last())
    }
}

pub open spec fn merge_bus(v: VmixStateView, bus: char, audio: Option<XmlBus>) -> VmixStateView {
    match audio {
        None => v,
        Some(a) => VmixStateView {
            bus_audio: v.bus_audio.insert(bus_key(bus), !a.muted),
            bus_volume: v.bus_volume.insert(bus_key(bus), a.volume),
            bus_solo: opt_insert(v.bus_solo, bus_key(bus), a.solo),
            ..v
        },
    }
}

/// The input an overlay element names, when it is a positive input number.
pub open spec fn overlay_input(o: XmlOverlay) -> Option<u16> {
    match o.input {
        Some(t) => match parse_unsigned(t@, 0xffff) {
            Some(n) => if n > 0 {
                Some(n as u16)
            } else {
                None
            },
            None => None,
        },
        None => None,
    }
}

pub open spec fn merge_overlay(v: VmixStateView, o: XmlOverlay) -> VmixStateView {
    match parse_unsigned(o.number@, 0xff) {
        None => v,
        Some(c) => VmixStateView {
            overlays: match overlay_input(o) {
                Some(n) => v.overlays.insert(c as u8, n),
                None => v.overlays.remove(c as u8),
            },
            ..v
        },
    }
}

pub open spec fn merge_overlays(v: VmixStateView, os: Seq<XmlOverlay>) -> VmixStateView
    decreases os.len(),
{
    if os.len() == 0 {
        v
    } else {
        merge_overlay(merge_overlays(v, os.drop_last()), os.last())
    }
}

pub open spec fn merge_audio(v: VmixStateView, x: XmlSnapshot) -> VmixStateView {
    let m = VmixStateView { master_volume: x.master_volume, master_audio: !x.master_muted, ..v };
    merge_bus(
        merge_bus(
            merge_bus(
                merge_bus(
                    merge_bus(merge_bus(merge_bus(m, 'A', x.bus_a), 'B', x.bus_b), 'C', x.bus_c),
                    'D',
                    x.bus_d,
                ),
                'E',
                x.bus_e,
            ),
            'F',
            x.bus_f,
        ),
        'G',
        x.bus_g,
    )
}

/// The cached state after merging a whole XML snapshot.
pub open spec fn spec_merge_xml(v: VmixStateView, x: XmlSnapshot) -> VmixStateView {
    let mixed = merge_mixes(merge_head(v, x), x.mixes@);
    let listed = merge_inputs(VmixStateView { inputs: Seq::empty(), ..mixed }, x.inputs@);
    merge_overlays(merge_audio(listed, x), x.overlays@)
}

fn put_positive_exec(m: &mut HashMap<u8, u16>, slot: u8, text: &str)
    ensures
        final(m)@ == put_positive(old(m)@, slot, text@),
{
    if let Some(n) = parse_u64_bounded(text, 0xffff) {
        if n > 0 {
            m.insert(slot, n as u16);
        }
    }
}

fn mix_slot_exec(number: &str, index: usize) -> (r: u8)
    ensures
        r == mix_slot(number@, index as int),
{
    match parse_u64_bounded(number, 0xff) {
        Some(n) => {
            if 2 <= n && n <= 16 {
                return n as u8;
            }
            if n <= 1 {
                return 0;
            }
        },
        None => {},
    }
    if index == 0 {
        0
    } else {
        let low = (index % 256) as u8;
        if low == 255 {
            255
        } else {
            low + 1
        }
    }
}

fn merge_bus_exec(state: &mut VmixState, bus: char, audio: &Option<XmlBus>)
    ensures
        final(state)@ == merge_bus(old(state)@, bus, *audio),
{
    match audio {
        None => {},
        Some(a) => {
            let key = bus_key_of(bus);
            state.bus_audio.insert(key, !a.muted);
            state.bus_volume.insert(key, a.volume);
            if let Some(solo) = a.solo {
                state.bus_solo.insert(key, solo);
            }
        },
    }
}

fn merge_overlay_exec(state: &mut VmixState, o: &XmlOverlay)
    ensures
        final(state)@ == merge_overlay(old(state)@, *o),
{
    let channel = match parse_u64_bounded(o.number.as_str(), 0xff) {
        Some(c) => c as u8,
        None => {
            return ;
        },
    };
    let input = match &o.input {
        Some(t) => match parse_u64_bounded(t.as_str(), 0xffff) {
            Some(n) => if n > 0 {
                Some(n as u16)
            } else {
                None
            },
            None => None,
        },
        None => None,
    };
    match input {
        Some(n) => {
            state.overlays.insert(channel, n);
        },
        None => {
            state.overlays.remove(&channel);
        },
    }
}

fn merge_input_exec(state: &mut VmixState, i: &XmlInput)
    ensures
        final(state)@ == merge_input(old(state)@, *i),
{
    let number = match parse_u64_bounded(i.number.as_str(), 0xffff) {
        Some(n) => n as u16,
        None => {
            return ;
        },
    };
    if let Some(muted) = i.muted {
        state.input_audio.insert(number, !muted);
    }
    if let Some(volume) = i.volume {
        state.input_volume.insert(number, volume);
    }
    if let Some(solo) = i.solo {
        state.input_solo.insert(number, solo);
    }
    state.inputs.push(
        CachedInput {
            number,
            key: i.key.clone(),
            title: i.title.clone(),
            short_title: i.short_title.clone(),
            selected_index: copy_text(&i.selected_index),
        },
    );
}

fn merge_head_exec(state: &mut VmixState, vmix: &XmlSnapshot)
    ensures
        final(state)@ == merge_head(old(state)@, *vmix),
{
    if vmix.version.unicode_len() != 0 {
        state.version = vmix.version.clone();
    }
    if vmix.edition.unicode_len() != 0 {
        state.edition = vmix.edition.clone();
    }
    state.fade_to_black = vmix.fade_to_black;
    state.recording = vmix.recording;
    state.streaming = vmix.streaming;
    state.external = vmix.external;
    state.fullscreen = vmix.fullscreen;
    state.multi_corder = vmix.multi_corder;
    state.mixes_present.clear();
    state.mixes_present.insert(0);
    put_positive_exec(&mut state.program, 0, vmix.active.as_str());
    put_positive_exec(&mut state.preview, 0, vmix.preview.as_str());
    assert(state@.mixes_present =~= Set::empty().insert(0u8));
}

fn merge_mixes_exec(state: &mut VmixState, mixes: &Vec<XmlMix>)
    ensures
        final(state)@ == merge_mixes(old(state)@, mixes@),
{
    let ghost head = state@;
    let mut index: usize = 0;
    while index < mixes.len()
        invariant
            index <= mixes@.len(),
            state@ == merge_mixes(head, mixes@.subrange(0, index as int)),
        decreases mixes@.len() - index,
    {
        let mix = &mixes[index];
        let user = mix_slot_exec(mix.number.as_str(), index);
        state.mixes_present.insert(user);
        put_positive_exec(&mut state.program, user, mix.active.as_str());
        put_positive_exec(&mut state.preview, user, mix.preview.as_str());
        assert(mixes@.subrange(0, index + 1).drop_last() =~= mixes@.subrange(0, index as int));
        index = index + 1;
    }
    assert(mixes@.subrange(0, mixes@.len() as int) =~= mixes@);
}

fn merge_inputs_exec(state: &mut VmixState, inputs: &Vec<XmlInput>)
    ensures
        final(state)@ == merge_inputs(old(state)@, inputs@),
{
    let ghost cleared = state@;
    let mut k: usize = 0;
    while k < inputs.len()
        invariant
            k <= inputs@.len(),
            state@ == merge_inputs(cleared, inputs@.subrange(0, k as int)),
        decreases inputs@.len() - k,
    {
        merge_input_exec(state, &inputs[k]);
        assert(inputs@.subrange(0, k + 1).drop_last() =~= inputs@.subrange(0, k as int));
        k = k + 1;
    }
    assert(inputs@.subrange(0, inputs@.len() as int) =~= inputs@);
}

fn merge_audio_exec(state: &mut VmixState, vmix: &XmlSnapshot)
    ensures
        final(state)@ == merge_audio(old(state)@, *vmix),
{
    state.master_volume = vmix.master_volume;
    state.master_audio = !vmix.master_muted;
    merge_bus_exec(state, 'A', &vmix.bus_a);
    merge_bus_exec(state, 'B', &vmix.bus_b);
    merge_bus_exec(state, 'C', &vmix.bus_c);
    merge_bus_exec(state, 'D', &vmix.bus_d);
    merge_bus_exec(state, 'E', &vmix.bus_e);
    merge_bus_exec(state, 'F', &vmix.bus_f);
    merge_bus_exec(state, 'G', &vmix.bus_g);
}

fn merge_overlays_exec(state: &mut VmixState, overlays: &Vec<XmlOverlay>)
    ensures
        final(state)@ == merge_overlays(old(state)@, overlays@),
{
    let ghost audio = state@;
    let mut j: usize = 0;
    while j < overlays.len()
        invariant
            j <= overlays@.len(),
            state@ == merge_overlays(audio, overlays@.subrange(0, j as int)),
        decreases overlays@.len() - j,
    {
        merge_overlay_exec(state, &overlays[j]);
        assert(overlays@.subrange(0, j + 1).drop_last() =~= overlays@.subrange(0, j as int));
        j = j + 1;
    }
    assert(overlays@.subrange(0, overlays@.len() as int) =~= overlays@);
}

/// Merge a parsed XML snapshot into the cached state.
pub fn merge_xml(state: &mut VmixState, vmix: &XmlSnapshot)
    ensures
        final(state)@ == spec_merge_xml(old(state)@, *vmix),
{
    merge_head_exec(state, vmix);
    merge_mixes_exec(state, &vmix.mixes);
    state.inputs.clear();
    merge_inputs_exec(state, &vmix.inputs);
    merge_audio_exec(state, vmix);
    merge_overlays_exec(state, &vmix.overlays);
}


/// An activator claims its slot when it turns on; turning off clears the slot only
/// while it still holds that input; every other slot is left as it was.
pub proof fn flag_slot_touches_only_its_slot(m: Map<u8, u16>, slot: u8, input: u16, active: bool, other: u8)
    ensures
        active ==> spec_flag_slot(m, slot, input, active).contains_key(slot) && spec_flag_slot(
            m,
            slot,
            input,
            active,
        )[slot] == input,
        !active && m.contains_key(slot) && m[slot] == input ==> !spec_flag_slot(
            m,
            slot,
            input,
            active,
        ).contains_key(slot),
        !active && !(m.contains_key(slot) && m[slot] == input) ==> spec_flag_slot(m, slot, input, active)
            == m,
        other != slot ==> (spec_flag_slot(m, slot, input, active).contains_key(other) == m.contains_key(
            other,
        ) && (m.contains_key(other) ==> spec_flag_slot(m, slot, input, active)[other] == m[other])),
{
}

/// A program update of one mix leaves the program of every other mix, and all the
/// rest of the cache, as it was.
pub proof fn program_update_keeps_other_mixes(v: VmixStateView, mix: u8, input: u16, on: bool, other: u8)
    requires
        other != mix,
    ensures
        ({
            let w = spec_apply_acts(v, Activator::Program { mix, input, on });
            &&& w.program.contains_key(other) == v.program.contains_key(other)
            &&& v.program.contains_key(other) ==> w.program[other] == v.program[other]
            &&& w == VmixStateView { program: w.program, ..v }
        }),
{
    flag_slot_touches_only_its_slot(v.program, mix, input, on, other);
}

proof fn lemma_inputs_keep_mixes(v: VmixStateView, is: Seq<XmlInput>)
    ensures
        merge_inputs(v, is).mixes_present == v.mixes_present,
    decreases is.len(),
{
    if is.len() > 0 {
        lemma_inputs_keep_mixes(v, is.drop_last());
    }
}

proof fn lemma_overlays_keep_mixes(v: VmixStateView, os: Seq<XmlOverlay>)
    ensures
        merge_overlays(v, os).mixes_present == v.mixes_present,
    decreases os.len(),
{
    if os.len() > 0 {
        lemma_overlays_keep_mixes(v, os.drop_last());
    }
}

/// A user mix that one of the listed `<mix>` elements stands for.
pub open spec fn listed_mix(ms: Seq<XmlMix>, u: u8) -> bool {
    exists|i: int| 0 <= i < ms.len() && #[trigger] mix_slot(ms[i].number@, i) == u
}

proof fn lemma_mixes_present(v: VmixStateView, ms: Seq<XmlMix>)
    ensures
        forall|u: u8|
            #[trigger] merge_mixes(v, ms).mixes_present.contains(u) <==> (v.mixes_present.contains(u)
                || listed_mix(ms, u)),
    decreases ms.len(),
{
    if ms.len() > 0 {
        let p = ms.drop_last();
        lemma_mixes_present(v, p);
        assert forall|u: u8|
            #[trigger] merge_mixes(v, ms).mixes_present.contains(u) <==> (v.mixes_present.contains(u)
                || listed_mix(ms, u)) by {
            assert(merge_mixes(v, ms) == merge_mix(merge_mixes(v, p), ms.last(), ms.len() - 1));
            assert(merge_mixes(v, p).mixes_present.contains(u) <==> (v.mixes_present.contains(u)
                || listed_mix(p, u)));
            if listed_mix(ms, u) {
                let i = choose|i: int| 0 <= i < ms.len() && #[trigger] mix_slot(ms[i].number@, i) == u;
                if i < p.len() {
                    assert(p[i] == ms[i]);
                    assert(listed_mix(p, u));
                }
            }
            if listed_mix(p, u) {
                let i = choose|i: int| 0 <= i < p.len() && #[trigger] mix_slot(p[i].number@, i) == u;
                assert(p[i] == ms[i]);
                assert(listed_mix(ms, u));
            }
            let last = ms.len() - 1;
            assert(ms[last] == ms.last());
            if mix_slot(ms.last().number@, last) == u {
                assert(listed_mix(ms, u));
            }
        }
    }
}

/// After a snapshot the mixes present are exactly Main and the mix that each
/// listed `<mix>` element stands for.
pub proof fn snapshot_lists_main_and_each_mix(v: VmixStateView, x: XmlSnapshot)
    ensures
        forall|u: u8|
            #[trigger] spec_merge_xml(v, x).mixes_present.contains(u) <==> (u == 0 || listed_mix(
                x.mixes@,
                u,
            )),
{
    let head = merge_head(v, x);
    lemma_mixes_present(head, x.mixes@);
    let mixed = merge_mixes(head, x.mixes@);
    let cleared = VmixStateView { inputs: Seq::empty(), ..mixed };
    lemma_inputs_keep_mixes(cleared, x.inputs@);
    let listed = merge_inputs(cleared, x.inputs@);
    lemma_overlays_keep_mixes(merge_audio(listed, x), x.overlays@);
}


/// Each on/off flag of the cache changes only through its own activator, and then
/// to exactly the reported value; the master volume likewise.
pub proof fn flags_change_only_through_their_activator(v: VmixStateView, a: Activator)
    ensures
        spec_apply_acts(v, a).recording == match a {
            Activator::Recording { on } => on,
            _ => v.recording,
        },
        spec_apply_acts(v, a).streaming == match a {
            Activator::Streaming { on } => on,
            _ => v.streaming,
        },
        spec_apply_acts(v, a).external == match a {
            Activator::External { on } => on,
            _ => v.external,
        },
        spec_apply_acts(v, a).fade_to_black == match a {
            Activator::FadeToBlack { on } => on,
            _ => v.fade_to_black,
        },
        spec_apply_acts(v, a).fullscreen == match a {
            Activator::Fullscreen { on } => on,
            _ => v.fullscreen,
        },
        spec_apply_acts(v, a).replay_playing == match a {
            Activator::ReplayPlaying { on } => on,
            _ => v.replay_playing,
        },
        spec_apply_acts(v, a).master_audio == match a {
            Activator::MasterAudio { on } => on,
            _ => v.master_audio,
        },
        spec_apply_acts(v, a).master_volume == match a {
            Activator::MasterVolume { percent } => percent,
            _ => v.master_volume,
        },
        spec_apply_acts(v, a).multi_corder == v.multi_corder,
        spec_apply_acts(v, a).version == v.version,
        spec_apply_acts(v, a).edition == v.edition,
        spec_apply_acts(v, a).inputs == v.inputs,
        spec_apply_acts(v, a).mixes_present == v.mixes_present,
{
}

/// Each per-input and per-bus map changes only through its own activator, which
/// records the reported value for that input or bus and leaves every other entry.
pub proof fn maps_change_only_through_their_activator(v: VmixStateView, a: Activator)
    ensures
        spec_apply_acts(v, a).input_playing == match a {
            Activator::InputPlaying { input, on } => v.input_playing.insert(input, on),
            _ => v.input_playing,
        },
        spec_apply_acts(v, a).input_audio == match a {
            Activator::InputAudio { input, on } => v.input_audio.insert(input, on),
            _ => v.input_audio,
        },
        spec_apply_acts(v, a).input_solo == match a {
            Activator::InputSolo { input, on } => v.input_solo.insert(input, on),
            _ => v.input_solo,
        },
        spec_apply_acts(v, a).input_master_audio == match a {
            Activator::InputMasterAudio { input, on } => v.input_master_audio.insert(input, on),
            _ => v.input_master_audio,
        },
        spec_apply_acts(v, a).input_volume == match a {
            Activator::InputVolume { input, percent } => v.input_volume.insert(input, percent),
            _ => v.input_volume,
        },
        spec_apply_acts(v, a).input_bus == match a {
            Activator::InputBusAudio { input, bus, on } => v.input_bus.insert(
                input_bus_key(input, bus),
                on,
            ),
            _ => v.input_bus,
        },
        spec_apply_acts(v, a).bus_audio == match a {
            Activator::BusAudio { bus, on } => v.bus_audio.insert(bus_key(bus), on),
            _ => v.bus_audio,
        },
        spec_apply_acts(v, a).bus_solo == match a {
            Activator::BusSolo { bus, on } => v.bus_solo.insert(bus_key(bus), on),
            _ => v.bus_solo,
        },
        spec_apply_acts(v, a).bus_volume == match a {
            Activator::BusVolume { bus, percent } => v.bus_volume.insert(bus_key(bus), percent),
            _ => v.bus_volume,
        },
        spec_apply_acts(v, a).program == match a {
            Activator::Program { mix, input, on } => spec_flag_slot(v.program, mix, input, on),
            _ => v.program,
        },
        spec_apply_acts(v, a).preview == match a {
            Activator::Preview { mix, input, on } => spec_flag_slot(v.preview, mix, input, on),
            _ => v.preview,
        },
        spec_apply_acts(v, a).overlays == match a {
            Activator::Overlay { channel, input, on } => spec_flag_slot(v.overlays, channel, input, on),
            _ => v.overlays,
        },
{
}

/// The name an activator reports is the ACTS name of what it changed.
pub proof fn activators_report_their_acts_names(on: bool, input: u16, percent: u8)
    ensures
        spec_activator_name(Activator::Recording { on }) == "Recording"@,
        spec_activator_name(Activator::Streaming { on }) == "Streaming"@,
        spec_activator_name(Activator::External { on }) == "External"@,
        spec_activator_name(Activator::FadeToBlack { on }) == "FadeToBlack"@,
        spec_activator_name(Activator::Fullscreen { on }) == "Fullscreen"@,
        spec_activator_name(Activator::ReplayPlaying { on }) == "ReplayPlaying"@,
        spec_activator_name(Activator::MasterAudio { on }) == "MasterAudio"@,
        spec_activator_name(Activator::InputPlaying { input, on }) == "InputPlaying"@,
        spec_activator_name(Activator::InputAudio { input, on }) == "InputAudio"@,
        spec_activator_name(Activator::InputSolo { input, on }) == "InputSolo"@,
        spec_activator_name(Activator::InputMasterAudio { input, on }) == "InputMasterAudio"@,
        spec_activator_name(Activator::InputVolume { input, percent }) == "InputVolume"@,
        spec_activator_name(Activator::MasterVolume { percent }) == "MasterVolume"@,
{
}

/// One listed input that a spec names by title, short title or key, in any ASCII case.
pub open spec fn named_by(input: CachedInput, s: Seq<char>) -> bool {
    eq_ic(input.title@, s) || eq_ic(input.short_title@, s) || eq_ic(input.key@, s)
}

proof fn lemma_first_named_at(inputs: Seq<CachedInput>, s: Seq<char>, j: int)
    requires
        0 <= j < inputs.len(),
        named_by(inputs[j], s),
        forall|k: int| 0 <= k < j ==> !named_by(#[trigger] inputs[k], s),
    ensures
        first_named(inputs, s) == Some(inputs[j].number),
    decreases j,
{
    if j > 0 {
        assert(!named_by(inputs[0], s));
        assert forall|k: int| 0 <= k < j - 1 implies !named_by(#[trigger] inputs.drop_first()[k], s) by {
            assert(inputs.drop_first()[k] == inputs[k + 1]);
        }
        assert(inputs.drop_first()[j - 1] == inputs[j]);
        lemma_first_named_at(inputs.drop_first(), s, j - 1);
    }
}

proof fn lemma_first_named_none(inputs: Seq<CachedInput>, s: Seq<char>)
    requires
        forall|k: int| 0 <= k < inputs.len() ==> !named_by(#[trigger] inputs[k], s),
    ensures
        first_named(inputs, s) is None,
    decreases inputs.len(),
{
    if inputs.len() > 0 {
        assert(!named_by(inputs[0], s));
        assert forall|k: int| 0 <= k < inputs.len() - 1 implies !named_by(#[trigger] inputs.drop_first()[k], s) by {
            assert(inputs.drop_first()[k] == inputs[k + 1]);
        }
        lemma_first_named_none(inputs.drop_first(), s);
    }
}

/// An input spec is read after trimming: blank names nothing, a number names that
/// input, and anything else names the first listed input whose title, short
/// title or key equals it ignoring ASCII case, or nothing when none does.
pub proof fn input_specs_resolve_by_number_title_or_key(inputs: Seq<CachedInput>, spec: Seq<char>, j: int)
    ensures
        trim(spec).len() == 0 ==> spec_resolve_input(inputs, spec) is None,
        trim(spec).len() > 0 && parse_unsigned(trim(spec), 0xffff) is Some ==> spec_resolve_input(
            inputs,
            spec,
        ) == Some(parse_unsigned(trim(spec), 0xffff)->0 as u16),
        trim(spec).len() > 0 && parse_unsigned(trim(spec), 0xffff) is None && 0 <= j < inputs.len()
            && named_by(inputs[j], trim(spec)) && (forall|k: int|
            0 <= k < j ==> !named_by(#[trigger] inputs[k], trim(spec))) ==> spec_resolve_input(
            inputs,
            spec,
        ) == Some(inputs[j].number),
        trim(spec).len() > 0 && parse_unsigned(trim(spec), 0xffff) is None && (forall|k: int|
            0 <= k < inputs.len() ==> !named_by(#[trigger] inputs[k], trim(spec))) ==> spec_resolve_input(
            inputs,
            spec,
        ) is None,
        named_by(inputs[j], trim(spec)) == (eq_ic(inputs[j].title@, trim(spec)) || eq_ic(
            inputs[j].short_title@,
            trim(spec),
        ) || eq_ic(inputs[j].key@, trim(spec))),
{
    let s = trim(spec);
    if s.len() > 0 && parse_unsigned(s, 0xffff) is None {
        if 0 <= j < inputs.len() && named_by(inputs[j], s) && (forall|k: int|
            0 <= k < j ==> !named_by(#[trigger] inputs[k], s)) {
            lemma_first_named_at(inputs, s, j);
        }
        if forall|k: int| 0 <= k < inputs.len() ==> !named_by(#[trigger] inputs[k], s) {
            lemma_first_named_none(inputs, s);
        }
    }
}


proof fn lemma_inputs_keep_head(v: VmixStateView, is: Seq<XmlInput>)
    ensures
        merge_inputs(v, is).recording == v.recording,
        merge_inputs(v, is).streaming == v.streaming,
        merge_inputs(v, is).external == v.external,
        merge_inputs(v, is).fade_to_black == v.fade_to_black,
        merge_inputs(v, is).fullscreen == v.fullscreen,
        merge_inputs(v, is).multi_corder == v.multi_corder,
        merge_inputs(v, is).version == v.version,
        merge_inputs(v, is).edition == v.edition,
        merge_inputs(v, is).program == v.program,
        merge_inputs(v, is).preview == v.preview,
    decreases is.len(),
{
    if is.len() > 0 {
        lemma_inputs_keep_head(v, is.drop_last());
    }
}

proof fn lemma_overlays_keep_head(v: VmixStateView, os: Seq<XmlOverlay>)
    ensures
        merge_overlays(v, os).recording == v.recording,
        merge_overlays(v, os).streaming == v.streaming,
        merge_overlays(v, os).external == v.external,
        merge_overlays(v, os).fade_to_black == v.fade_to_black,
        merge_overlays(v, os).fullscreen == v.fullscreen,
        merge_overlays(v, os).multi_corder == v.multi_corder,
        merge_overlays(v, os).version == v.version,
        merge_overlays(v, os).edition == v.edition,
        merge_overlays(v, os).master_volume == v.master_volume,
        merge_overlays(v, os).master_audio == v.master_audio,
        merge_overlays(v, os).program == v.program,
        merge_overlays(v, os).preview == v.preview,
    decreases os.len(),
{
    if os.len() > 0 {
        lemma_overlays_keep_head(v, os.drop_last());
    }
}

proof fn lemma_mixes_keep_flags(v: VmixStateView, ms: Seq<XmlMix>)
    ensures
        merge_mixes(v, ms).recording == v.recording,
        merge_mixes(v, ms).streaming == v.streaming,
        merge_mixes(v, ms).external == v.external,
        merge_mixes(v, ms).fade_to_black == v.fade_to_black,
        merge_mixes(v, ms).fullscreen == v.fullscreen,
        merge_mixes(v, ms).multi_corder == v.multi_corder,
        merge_mixes(v, ms).version == v.version,
        merge_mixes(v, ms).edition == v.edition,
    decreases ms.len(),
{
    if ms.len() > 0 {
        lemma_mixes_keep_flags(v, ms.drop_last());
    }
}

/// After a snapshot the cached switcher flags are the snapshot's own, each in
/// its own field; the master audio is on exactly when the snapshot says it is
/// not muted, at the snapshot's volume; a non-empty version or edition replaces
/// the cached one and an empty one keeps it.
pub proof fn snapshot_sets_each_flag_from_its_element(v: VmixStateView, x: XmlSnapshot)
    ensures
        spec_merge_xml(v, x).recording == x.recording,
        spec_merge_xml(v, x).streaming == x.streaming,
        spec_merge_xml(v, x).external == x.external,
        spec_merge_xml(v, x).fade_to_black == x.fade_to_black,
        spec_merge_xml(v, x).fullscreen == x.fullscreen,
        spec_merge_xml(v, x).multi_corder == x.multi_corder,
        spec_merge_xml(v, x).master_audio == !x.master_muted,
        spec_merge_xml(v, x).master_volume == x.master_volume,
        spec_merge_xml(v, x).version == if x.version@.len() > 0 { x.version@ } else { v.version },
        spec_merge_xml(v, x).edition == if x.edition@.len() > 0 { x.edition@ } else { v.edition },
{
    let head = merge_head(v, x);
    lemma_mixes_keep_flags(head, x.mixes@);
    let mixed = merge_mixes(head, x.mixes@);
    let cleared = VmixStateView { inputs: Seq::empty(), ..mixed };
    lemma_inputs_keep_head(cleared, x.inputs@);
    let listed = merge_inputs(cleared, x.inputs@);
    lemma_overlays_keep_head(merge_audio(listed, x), x.overlays@);
}

} // verus!
