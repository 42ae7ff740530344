//! What each key does: the vMix function it sends, the state it shows, its title.

use vstd::prelude::*;
use vstd::string::*;
use crate::cache::{
    spec_activator_name, spec_apply_acts, Activator,
    bus_key, bus_key_of, input_bus_key, input_bus_key_of, spec_mix_available, spec_resolve_input,
    CachedInput, VmixState, VmixStateView,
};
use crate::contracts::ActionParams;
use crate::render::SegmentState;
use crate::kind::ActionKind;
use crate::numbering::{
    acts_preview_name, acts_program_name, spec_acts_preview_name, spec_acts_program_name,
    spec_tcp_mix_value, tcp_mix_value,
};
use crate::text::{
    contains_char, contains_str, dec, ends_with, eq_ic, eq_ignore_ascii_case, find_ws, first_ws,
    has_infix, has_prefix, has_prefix_ic, has_suffix, join_with, lemma_first_ws_bounds, owned,
    parse_u64_bounded, parse_unsigned, push_char, push_decimal, split_at_first, split_once,
    starts_with, starts_with_ignore_ascii_case, str_eq, strip_leading, strip_leading_char, trim,
    trim_str, split_all, pair_text, has_piece, piece_at, lemma_join_has_piece, lemma_extend_piece,
};
use crate::pool::{command_view, opt_command_view, opt_text, Command, CommandView};
use crate::url::{decode, encode, url_decode, url_encode};
use vstd::utf8::{encode_utf8, is_char_boundary};

verus! {

/// `x` clamped into `lo..=hi`.
pub open spec fn clamp(x: u8, lo: u8, hi: u8) -> u8 {
    if x < lo {
        lo
    } else if x > hi {
        hi
    } else {
        x
    }
}

fn clamp_u8(x: u8, lo: u8, hi: u8) -> (r: u8)
    ensures
        r == clamp(x, lo, hi),
{
    if x < lo {
        lo
    } else if x > hi {
        hi
    } else {
        x
    }
}

pub open spec fn is_ascii_alpha(c: char) -> bool {
    ('A' <= c && c <= 'Z') || ('a' <= c && c <= 'z')
}

/// ASCII upper-casing of one character.
pub open spec fn upper(c: char) -> char {
    if 'a' <= c && c <= 'z' {
        ((c as u32) - 32) as char
    } else {
        c
    }
}

/// The first ASCII letter of `s`.
pub open spec fn first_alpha(s: Seq<char>) -> Option<char>
    decreases s.len(),
{
    if s.len() == 0 {
        None
    } else if is_ascii_alpha(s[0]) {
        Some(s[0])
    } else {
        first_alpha(s.drop_first())
    }
}

/// The bus a key addresses: the first letter of its `bus` field, upper-cased,
/// when it is `A`–`G` or `M`; `A` otherwise.
pub open spec fn spec_bus_letter(bus: Seq<char>) -> char {
    match first_alpha(bus) {
        Some(c) => {
            let u = upper(c);
            if ('A' <= u && u <= 'G') || u == 'M' {
                u
            } else {
                'A'
            }
        },
        None => 'A',
    }
}

fn bus_letter(params: &ActionParams) -> (r: char)
    ensures
        r == spec_bus_letter(params.bus@),
{
    let s = params.bus.as_str();
    let n = s.unicode_len();
    let mut i: usize = 0;
    assert(s@.subrange(0, n as int) =~= s@);
    while i < n
        invariant
            n == s@.len(),
            s@ == params.bus@,
            i <= n,
            first_alpha(s@) == first_alpha(s@.subrange(i as int, n as int)),
        decreases n - i,
    {
        let c = s.get_char(i);
        assert(s@.subrange(i as int, n as int).drop_first() =~= s@.subrange(i + 1, n as int));
        assert(s@.subrange(i as int, n as int)[0] == c);
        if ('A' <= c && c <= 'Z') || ('a' <= c && c <= 'z') {
            let u = if 'a' <= c && c <= 'z' {
                let b = c as u8;
                assert(b == c as u32);
                (b - 32) as char
            } else {
                c
            };
            if ('A' <= u && u <= 'G') || u == 'M' {
                return u;
            }
            return 'A';
        }
        i = i + 1;
    }
    'A'
}

fn bus_text(params: &ActionParams) -> (r: String)
    ensures
        r@ == seq![spec_bus_letter(params.bus@)],
{
    let mut s = String::new();
    push_char(&mut s, bus_letter(params));
    s
}

/// Transition function: the effect name, `Cut` when blank.
pub open spec fn spec_transition_function(p: ActionParams) -> Seq<char> {
    if trim(p.effect@).len() == 0 {
        "Cut"@
    } else {
        trim(p.effect@)
    }
}

fn transition_function(params: &ActionParams) -> (r: String)
    ensures
        r@ == spec_transition_function(*params),
{
    let effect = trim_str(params.effect.as_str());
    if effect.unicode_len() == 0 {
        owned("Cut")
    } else {
        owned(effect)
    }
}

/// Overlay function for the key's channel (1–8) and mode.
pub open spec fn spec_overlay_function(p: ActionParams) -> Seq<char> {
    let ch = dec(clamp(p.overlay, 1, 8) as nat);
    let mode = p.overlay_mode@;
    if mode == "in"@ {
        "OverlayInput"@ + ch + "In"@
    } else if mode == "out"@ {
        "OverlayInput"@ + ch + "Out"@
    } else if mode == "off"@ {
        "OverlayInput"@ + ch + "Off"@
    } else if mode == "zoom"@ {
        "OverlayInput"@ + ch + "Zoom"@
    } else if mode == "last"@ {
        "OverlayInput"@ + ch + "Last"@
    } else if mode == "preview"@ {
        "PreviewOverlayInput"@ + ch
    } else {
        "OverlayInput"@ + ch
    }
}

fn overlay_function(params: &ActionParams) -> (r: String)
    ensures
        r@ == spec_overlay_function(*params),
{
    let channel = clamp_u8(params.overlay, 1, 8) as u64;
    let mode = params.overlay_mode.as_str();
    let suffix = if str_eq(mode, "in") {
        "In"
    } else if str_eq(mode, "out") {
        "Out"
    } else if str_eq(mode, "off") {
        "Off"
    } else if str_eq(mode, "zoom") {
        "Zoom"
    } else if str_eq(mode, "last") {
        "Last"
    } else if str_eq(mode, "preview") {
        let mut s = owned("PreviewOverlayInput");
        push_decimal(&mut s, channel);
        return s;
    } else {
        ""
    };
    let mut s = owned("OverlayInput");
    push_decimal(&mut s, channel);
    s.append(suffix);
    proof {
        reveal_strlit("");
        assert(s@ =~= spec_overlay_function(*params));
    }
    s
}

/// Replay function for the key's replay action.
pub open spec fn spec_replay_function(p: ActionParams) -> Seq<char> {
    let a = p.replay_action@;
    if a == "pause"@ {
        "ReplayPause"@
    } else if a == "markin"@ {
        "ReplayMarkIn"@
    } else if a == "markout"@ {
        "ReplayMarkOut"@
    } else if a == "markinout"@ {
        "ReplayMarkInOut"@
    } else if a == "channel"@ {
        if eq_ic(p.channel@, "b"@) {
            "ReplaySelectChannelB"@
        } else {
            "ReplaySelectChannelA"@
        }
    } else {
        "ReplayPlayPause"@
    }
}

fn replay_function(params: &ActionParams) -> (r: String)
    ensures
        r@ == spec_replay_function(*params),
{
    let a = params.replay_action.as_str();
    if str_eq(a, "pause") {
        owned("ReplayPause")
    } else if str_eq(a, "markin") {
        owned("ReplayMarkIn")
    } else if str_eq(a, "markout") {
        owned("ReplayMarkOut")
    } else if str_eq(a, "markinout") {
        owned("ReplayMarkInOut")
    } else if str_eq(a, "channel") {
        if eq_ignore_ascii_case(params.channel.as_str(), "b") {
            owned("ReplaySelectChannelB")
        } else {
            owned("ReplaySelectChannelA")
        }
    } else {
        owned("ReplayPlayPause")
    }
}

/// Mute function for the key's audio target.
pub open spec fn spec_mute_function(p: ActionParams) -> Seq<char> {
    if p.audio_target@ == "master"@ {
        "MasterAudio"@
    } else if p.audio_target@ == "bus"@ {
        "Bus"@ + seq![spec_bus_letter(p.bus@)] + "Audio"@
    } else {
        "Audio"@
    }
}

fn mute_function(params: &ActionParams) -> (r: String)
    ensures
        r@ == spec_mute_function(*params),
{
    let t = params.audio_target.as_str();
    if str_eq(t, "master") {
        owned("MasterAudio")
    } else if str_eq(t, "bus") {
        let mut s = owned("Bus");
        push_char(&mut s, bus_letter(params));
        s.append("Audio");
        s
    } else {
        owned("Audio")
    }
}

/// Solo function for the key's audio target.
pub open spec fn spec_solo_function(p: ActionParams) -> Seq<char> {
    if p.audio_target@ == "bus"@ {
        "Bus"@ + seq![spec_bus_letter(p.bus@)] + "Solo"@
    } else {
        "Solo"@
    }
}

fn solo_function(params: &ActionParams) -> (r: String)
    ensures
        r@ == spec_solo_function(*params),
{
    if str_eq(params.audio_target.as_str(), "bus") {
        let mut s = owned("Bus");
        push_char(&mut s, bus_letter(params));
        s.append("Solo");
        s
    } else {
        owned("Solo")
    }
}

/// List function for the key's list action.
pub open spec fn spec_list_function(p: ActionParams) -> Seq<char> {
    if p.list_action@ == "previous"@ {
        "PreviousItem"@
    } else if p.list_action@ == "select"@ {
        "SelectIndex"@
    } else {
        "NextItem"@
    }
}

fn list_function(params: &ActionParams) -> (r: String)
    ensures
        r@ == spec_list_function(*params),
{
    if str_eq(params.list_action.as_str(), "previous") {
        owned("PreviousItem")
    } else if str_eq(params.list_action.as_str(), "select") {
        owned("SelectIndex")
    } else {
        owned("NextItem")
    }
}

/// Title function for the key's title action.
pub open spec fn spec_title_function(p: ActionParams) -> Seq<char> {
    if p.title_action@ == "setimage"@ {
        "SetImage"@
    } else if p.title_action@ == "visible"@ {
        "SetTextVisibleOn"@
    } else {
        "SetText"@
    }
}

fn title_function(params: &ActionParams) -> (r: String)
    ensures
        r@ == spec_title_function(*params),
{
    if str_eq(params.title_action.as_str(), "setimage") {
        owned("SetImage")
    } else if str_eq(params.title_action.as_str(), "visible") {
        owned("SetTextVisibleOn")
    } else {
        owned("SetText")
    }
}

/// The `key=value` parts of a query, for the pairs whose value is not empty.
pub open spec fn query_parts(ps: Seq<(Seq<char>, Seq<char>)>) -> Seq<Seq<char>>
    decreases ps.len(),
{
    if ps.len() == 0 {
        seq![]
    } else {
        let rest = query_parts(ps.drop_last());
        let (k, v) = ps.last();
        if v.len() > 0 {
            rest.push(k + "="@ + v)
        } else {
            rest
        }
    }
}

/// A query string: the non-empty pairs as `key=value`, joined with `&`.
pub open spec fn spec_join_query(ps: Seq<(Seq<char>, Seq<char>)>) -> Seq<char> {
    join_with(query_parts(ps), "&"@)
}

pub open spec fn pair_views(ps: Seq<(&str, &str)>) -> Seq<(Seq<char>, Seq<char>)> {
    ps.map_values(|p: (&str, &str)| (p.0@, p.1@))
}

fn join_query(pairs: &Vec<(&str, &str)>) -> (r: String)
    ensures
        r@ == spec_join_query(pair_views(pairs@)),
{
    let ghost ps = pair_views(pairs@);
    let mut out = String::new();
    let mut any = false;
    let mut i: usize = 0;
    while i < pairs.len()
        invariant
            i <= pairs@.len(),
            ps == pair_views(pairs@),
            out@ == join_with(query_parts(ps.subrange(0, i as int)), "&"@),
            any == (query_parts(ps.subrange(0, i as int)).len() > 0),
        decreases pairs@.len() - i,
    {
        let (key, value) = pairs[i];
        let ghost before = ps.subrange(0, i as int);
        let ghost parts = query_parts(before);
        assert(ps.subrange(0, i + 1).drop_last() =~= before);
        assert(ps.subrange(0, i + 1).last() == (key@, value@));
        if value.unicode_len() != 0 {
            if any {
                out.append("&");
            }
            out.append(key);
            out.append("=");
            out.append(value);
            any = true;
            proof {
                let np = parts.push(key@ + "="@ + value@);
                assert(np.drop_last() =~= parts);
                if parts.len() > 0 {
                    assert(out@ =~= join_with(parts, "&"@) + "&"@ + (key@ + "="@ + value@));
                } else {
                    assert(out@ =~= key@ + "="@ + value@);
                }
            }
        }
        i = i + 1;
    }
    assert(ps.subrange(0, pairs@.len() as int) =~= ps);
    out
}


/// The TCP `Mix=` value as text, empty for Main.
pub open spec fn spec_mix_text(mix: u8) -> Seq<char> {
    match spec_tcp_mix_value(mix) {
        Some(v) => dec(v as nat),
        None => seq![],
    }
}

fn mix_text(mix: u8) -> (r: String)
    ensures
        r@ == spec_mix_text(mix),
{
    match tcp_mix_value(mix) {
        Some(v) => {
            let mut s = String::new();
            push_decimal(&mut s, v as u64);
            assert(s@ =~= dec(v as nat));
            s
        },
        None => String::new(),
    }
}

/// `None` for empty text.
pub open spec fn nonempty(s: Seq<char>) -> Option<Seq<char>> {
    if s.len() == 0 {
        None
    } else {
        Some(s)
    }
}

fn nonempty_string(s: String) -> (r: Option<String>)
    ensures
        opt_text(r) == nonempty(s@),
{
    if s.unicode_len() == 0 {
        None
    } else {
        Some(s)
    }
}

/// `Transition1`..`Transition4` are vMix's transition buttons, which take no query.
pub open spec fn spec_is_transition_button(effect: Seq<char>) -> bool {
    let e = trim(effect);
    has_prefix(e, "Transition"@) && match parse_unsigned(
        e.subrange("Transition"@.len() as int, e.len() as int),
        0xff,
    ) {
        Some(n) => 1 <= n <= 4,
        None => false,
    }
}

fn is_transition_button(effect: &str) -> (r: bool)
    ensures
        r == spec_is_transition_button(effect@),
{
    let e = trim_str(effect);
    if !starts_with(e, "Transition") {
        return false;
    }
    let m = "Transition".unicode_len();
    let rest = e.substring_char(m, e.unicode_len());
    match parse_u64_bounded(rest, 0xff) {
        Some(n) => 1 <= n && n <= 4,
        None => false,
    }
}

/// Whether a pasted shortcut line is a full query rather than a bare function name.
pub open spec fn spec_shortcut_line_is_complete(line: Seq<char>) -> bool {
    ||| has_prefix_ic(line, "http://"@)
    ||| has_prefix_ic(line, "https://"@)
    ||| has_prefix_ic(line, "function="@)
    ||| has_prefix_ic(line, "function "@)
    ||| line.contains('&')
    ||| line.contains('?')
}

fn shortcut_line_is_complete(line: &str) -> (r: bool)
    ensures
        r == spec_shortcut_line_is_complete(line@),
{
    starts_with_ignore_ascii_case(line, "http://") || starts_with_ignore_ascii_case(
        line,
        "https://",
    ) || starts_with_ignore_ascii_case(line, "function=") || starts_with_ignore_ascii_case(
        line,
        "function ",
    ) || contains_char(line, '&') || contains_char(line, '?')
}

/// The query part of a shortcut line: after `?` for a URL, else without leading `?`.
pub open spec fn spec_query_body(line: Seq<char>) -> Seq<char> {
    if has_infix(line, "://"@) {
        match split_at_first(line, '?') {
            Some((_, q)) => q,
            None => seq![],
        }
    } else {
        strip_leading(line, '?')
    }
}

fn query_body(line: &str) -> (r: &str)
    ensures
        r@ == spec_query_body(line@),
{
    proof {
        reveal_strlit("");
    }
    if contains_str(line, "://") {
        match split_once(line, '?') {
            Some((_, q)) => q,
            None => "",
        }
    } else {
        strip_leading_char(line, '?')
    }
}

/// The body with a leading `function ` word (any ASCII case) removed.
pub open spec fn spec_strip_function_word(body: Seq<char>) -> Seq<char> {
    let rest = trim(body);
    if has_prefix_ic(rest, "function "@) {
        trim(rest.subrange("function "@.len() as int, rest.len() as int))
    } else {
        rest
    }
}

/// Slicing the first nine bytes of `rest` would cut a character in two.
pub open spec fn word_strip_panics(rest: Seq<char>) -> bool {
    (encode_utf8(rest).len() as usize) >= 9 && !is_char_boundary(encode_utf8(rest), 9)
}

fn strip_function_word(body: &str) -> (r: &str)
    ensures
        r@ == spec_strip_function_word(body@),
{
    let rest = trim_str(body);
    if starts_with_ignore_ascii_case(rest, "function ") {
        let m = "function ".unicode_len();
        trim_str(rest.substring_char(m, rest.unicode_len()))
    } else {
        rest
    }
}

/// The first piece of a shortcut body and the `&`-separated rest.
pub open spec fn spec_split_shortcut_head(body: Seq<char>) -> (Seq<char>, Seq<char>) {
    match split_at_first(body, '&') {
        Some(ht) => ht,
        None => match split_at_first(body, '?') {
            Some(ht) => ht,
            None => match first_ws(body) {
                Some(i) => {
                    let h = body.subrange(0, i);
                    if !h.contains('=') {
                        (trim(h), trim(body.subrange(i + 1, body.len() as int)))
                    } else {
                        (trim(body), seq![])
                    }
                },
                None => (trim(body), seq![]),
            },
        },
    }
}

fn split_shortcut_head<'a>(body: &'a str) -> (r: (&'a str, &'a str))
    ensures
        (r.0@, r.1@) == spec_split_shortcut_head(body@),
{
    if let Some((head, tail)) = split_once(body, '&') {
        return (head, tail);
    }
    if let Some((head, tail)) = split_once(body, '?') {
        return (head, tail);
    }
    proof {
        lemma_first_ws_bounds(body@);
    }
    if let Some(i) = find_ws(body) {
        let n = body.unicode_len();
        let head = body.substring_char(0, i);
        let tail = body.substring_char(i + 1, n);
        if !contains_char(head, '=') {
            return (trim_str(head), trim_str(tail));
        }
    }
    proof {
        reveal_strlit("");
    }
    (trim_str(body), "")
}

/// A shortcut being read: the function name so far and the `key=value` pairs.
pub type ShortcutState = (Seq<char>, Seq<(Seq<char>, Seq<char>)>);

/// One piece of a shortcut line: `Function=name`, `key=value`, or a bare name.
pub open spec fn take_piece(st: ShortcutState, piece: Seq<char>) -> ShortcutState {
    let p = trim(piece);
    if p.len() == 0 {
        st
    } else {
        match split_at_first(p, '=') {
            Some((k, v)) => if eq_ic(k, "Function"@) {
                if st.0.len() == 0 {
                    (trim(v), st.1)
                } else {
                    st
                }
            } else {
                (st.0, st.1.push((trim(k), trim(v))))
            },
            None => if st.0.len() == 0 {
                (p, st.1)
            } else {
                st
            },
        }
    }
}

pub open spec fn take_pieces(st: ShortcutState, pieces: Seq<Seq<char>>) -> ShortcutState
    decreases pieces.len(),
{
    if pieces.len() == 0 {
        st
    } else {
        take_piece(take_pieces(st, pieces.drop_last()), pieces.last())
    }
}

fn take_shortcut_piece(name: &mut String, pairs: &mut Vec<(String, String)>, piece: &str)
    ensures
        (final(name)@, pair_text(final(pairs)@)) == take_piece(
            (old(name)@, pair_text(old(pairs)@)),
            piece@,
        ),
{
    let piece = trim_str(piece);
    if piece.unicode_len() == 0 {
        return ;
    }
    match split_once(piece, '=') {
        Some((key, value)) => {
            if eq_ignore_ascii_case(key, "Function") {
                if name.unicode_len() == 0 {
                    *name = owned(trim_str(value));
                }
            } else {
                let ghost before = pairs@;
                pairs.push((owned(trim_str(key)), owned(trim_str(value))));
                assert(pair_text(pairs@) =~= pair_text(before).push((trim(key@), trim(value@))));
            }
        },
        None => {
            if name.unicode_len() == 0 {
                *name = owned(piece);
            }
        },
    }
}

/// A shortcut value percent-encoded once: decoded first when it already is encoded.
pub open spec fn spec_encode_shortcut_value(value: Seq<char>) -> Seq<char> {
    url_encode(
        match url_decode(value) {
            Some(d) => d,
            None => value,
        },
    )
}

fn encode_shortcut_value(value: &str) -> (r: String)
    ensures
        r@ == spec_encode_shortcut_value(value@),
{
    match decode(value) {
        Some(d) => encode(d.as_str()),
        None => encode(value),
    }
}

/// The `key=value` parts of a shortcut query, keys non-empty, values encoded.
pub open spec fn shortcut_pair_parts(ps: Seq<(Seq<char>, Seq<char>)>) -> Seq<Seq<char>>
    decreases ps.len(),
{
    if ps.len() == 0 {
        seq![]
    } else {
        let rest = shortcut_pair_parts(ps.drop_last());
        let (k, v) = ps.last();
        if k.len() > 0 {
            rest.push(k + "="@ + spec_encode_shortcut_value(v))
        } else {
            rest
        }
    }
}

fn shortcut_pairs_query(pairs: &Vec<(String, String)>) -> (r: String)
    ensures
        r@ == join_with(shortcut_pair_parts(pair_text(pairs@)), "&"@),
{
    let ghost ps = pair_text(pairs@);
    let mut out = String::new();
    let mut any = false;
    let mut i: usize = 0;
    while i < pairs.len()
        invariant
            i <= pairs@.len(),
            ps == pair_text(pairs@),
            out@ == join_with(shortcut_pair_parts(ps.subrange(0, i as int)), "&"@),
            any == (shortcut_pair_parts(ps.subrange(0, i as int)).len() > 0),
        decreases pairs@.len() - i,
    {
        let key = pairs[i].0.as_str();
        let value = pairs[i].1.as_str();
        let ghost before = ps.subrange(0, i as int);
        let ghost parts = shortcut_pair_parts(before);
        assert(ps.subrange(0, i + 1).drop_last() =~= before);
        assert(ps.subrange(0, i + 1).last() == (key@, value@));
        if key.unicode_len() != 0 {
            if any {
                out.append("&");
            }
            out.append(key);
            out.append("=");
            let encoded = encode_shortcut_value(value);
            out.append(encoded.as_str());
            any = true;
            proof {
                let part = key@ + "="@ + spec_encode_shortcut_value(value@);
                let np = parts.push(part);
                assert(np.drop_last() =~= parts);
                if parts.len() > 0 {
                    assert(out@ =~= join_with(parts, "&"@) + "&"@ + part);
                } else {
                    assert(out@ =~= part);
                }
            }
        }
        i = i + 1;
    }
    assert(ps.subrange(0, pairs@.len() as int) =~= ps);
    out
}

/// Name and query of a complete shortcut line, `None` when it names no function.
pub open spec fn spec_split_shortcut_line(line: Seq<char>) -> Option<(Seq<char>, Seq<char>)> {
    let body = spec_strip_function_word(spec_query_body(trim(line)));
    let (head, tail) = spec_split_shortcut_head(body);
    let st = take_pieces(take_piece((seq![], seq![]), head), split_all(tail, '&'));
    if st.0.len() == 0 {
        None
    } else {
        Some((st.0, join_with(shortcut_pair_parts(st.1), "&"@)))
    }
}

fn split_shortcut_line(line: &str) -> (r: Option<(String, String)>)
    ensures
        match r {
            Some((n, q)) => spec_split_shortcut_line(line@) == Some((n@, q@)),
            None => spec_split_shortcut_line(line@) is None,
        },
{
    let body = strip_function_word(query_body(trim_str(line)));
    let (head, tail) = split_shortcut_head(body);
    let mut name = String::new();
    let mut pairs: Vec<(String, String)> = Vec::new();
    assert(pair_text(pairs@) =~= Seq::<(Seq<char>, Seq<char>)>::empty());
    take_shortcut_piece(&mut name, &mut pairs, head);
    let ghost st0 = (name@, pair_text(pairs@));
    let n = tail.unicode_len();
    let mut start: usize = 0;
    let mut i: usize = 0;
    proof {
        assert(tail@.subrange(0, 0) =~= Seq::<char>::empty());
        assert(split_all(tail@.subrange(0, 0), '&') =~= seq![Seq::<char>::empty()]);
        assert(split_all(tail@.subrange(0, 0), '&').drop_last() =~= Seq::<Seq<char>>::empty());
    }
    while i < n
        invariant
            n == tail@.len(),
            start <= i <= n,
            split_all(tail@.subrange(0, i as int), '&').len() >= 1,
            split_all(tail@.subrange(0, i as int), '&').last() == tail@.subrange(
                start as int,
                i as int,
            ),
            (name@, pair_text(pairs@)) == take_pieces(
                st0,
                split_all(tail@.subrange(0, i as int), '&').drop_last(),
            ),
        decreases n - i,
    {
        let c = tail.get_char(i);
        let ghost pre = tail@.subrange(0, i as int);
        let ghost r = split_all(pre, '&');
        assert(tail@.subrange(0, i + 1).drop_last() =~= pre);
        assert(tail@.subrange(0, i + 1).last() == c);
        if c == '&' {
            let piece = tail.substring_char(start, i);
            take_shortcut_piece(&mut name, &mut pairs, piece);
            proof {
                let r2 = r.push(seq![]);
                assert(r2.drop_last() =~= r);
                assert(r =~= r.drop_last().push(r.last()));
                assert(tail@.subrange(i + 1, i + 1) =~= Seq::<char>::empty());
            }
            start = i + 1;
        } else {
            proof {
                let r2 = r.update(r.len() - 1, r.last().push(c));
                assert(r2.drop_last() =~= r.drop_last());
                assert(r2.last() =~= tail@.subrange(start as int, i + 1));
            }
        }
        i = i + 1;
    }
    let last = tail.substring_char(start, n);
    take_shortcut_piece(&mut name, &mut pairs, last);
    proof {
        let r = split_all(tail@.subrange(0, n as int), '&');
        assert(tail@.subrange(0, n as int) =~= tail@);
        assert(r =~= r.drop_last().push(r.last()));
    }
    if name.unicode_len() == 0 {
        return None;
    }
    let query = shortcut_pairs_query(&pairs);
    Some((name, query))
}


fn query1(k1: &str, v1: &str) -> (r: String)
    ensures
        r@ == spec_join_query(seq![(k1@, v1@)]),
{
    let mut pairs: Vec<(&str, &str)> = Vec::new();
    pairs.push((k1, v1));
    assert(pair_views(pairs@) =~= seq![(k1@, v1@)]);
    join_query(&pairs)
}

fn query2(k1: &str, v1: &str, k2: &str, v2: &str) -> (r: String)
    ensures
        r@ == spec_join_query(seq![(k1@, v1@), (k2@, v2@)]),
{
    let mut pairs: Vec<(&str, &str)> = Vec::new();
    pairs.push((k1, v1));
    pairs.push((k2, v2));
    assert(pair_views(pairs@) =~= seq![(k1@, v1@), (k2@, v2@)]);
    join_query(&pairs)
}

fn query3(k1: &str, v1: &str, k2: &str, v2: &str, k3: &str, v3: &str) -> (r: String)
    ensures
        r@ == spec_join_query(seq![(k1@, v1@), (k2@, v2@), (k3@, v3@)]),
{
    let mut pairs: Vec<(&str, &str)> = Vec::new();
    pairs.push((k1, v1));
    pairs.push((k2, v2));
    pairs.push((k3, v3));
    assert(pair_views(pairs@) =~= seq![(k1@, v1@), (k2@, v2@), (k3@, v3@)]);
    join_query(&pairs)
}

/// The query of a shortcut given as a bare function name plus separate fields.
pub open spec fn spec_shortcut_query(p: ActionParams) -> Seq<char> {
    let q = spec_join_query(
        seq![
            ("Input"@, trim(p.input@)),
            ("Value"@, url_encode(trim(p.value@))),
            ("Channel"@, trim(p.channel@)),
            ("Mix"@, spec_mix_text(p.mix)),
            ("Duration"@, trim(p.duration_ms@)),
        ],
    );
    let extra = strip_leading(trim(p.extra@), '&');
    if extra.len() > 0 {
        if q.len() > 0 {
            q + "&"@ + extra
        } else {
            q + extra
        }
    } else {
        q
    }
}

fn shortcut_query(params: &ActionParams) -> (r: String)
    ensures
        r@ == spec_shortcut_query(*params),
{
    let mix = mix_text(params.mix);
    let value = encode(trim_str(params.value.as_str()));
    let mut pairs: Vec<(&str, &str)> = Vec::new();
    pairs.push(("Input", trim_str(params.input.as_str())));
    pairs.push(("Value", value.as_str()));
    pairs.push(("Channel", trim_str(params.channel.as_str())));
    pairs.push(("Mix", mix.as_str()));
    pairs.push(("Duration", trim_str(params.duration_ms.as_str())));
    assert(pair_views(pairs@) =~= seq![
        ("Input"@, trim(params.input@)),
        ("Value"@, url_encode(trim(params.value@))),
        ("Channel"@, trim(params.channel@)),
        ("Mix"@, spec_mix_text(params.mix)),
        ("Duration"@, trim(params.duration_ms@)),
    ]);
    let mut query = join_query(&pairs);
    let extra = strip_leading_char(trim_str(params.extra.as_str()), '&');
    if extra.unicode_len() != 0 {
        if query.unicode_len() != 0 {
            query.append("&");
        }
        query.append(extra);
    }
    query
}

/// A pasted shortcut line whose `function ` word cannot be cut off on a character
/// boundary: the original reading of such a line panics.
pub open spec fn spec_shortcut_panics(function_name: Seq<char>) -> bool {
    let line = trim(function_name);
    spec_shortcut_line_is_complete(line) && word_strip_panics(trim(spec_query_body(trim(line))))
}

/// Whether reading the shortcut line of `params` would cut a character in two.
pub fn shortcut_panics(params: &ActionParams) -> (r: bool)
    ensures
        r == spec_shortcut_panics(params.function_name@),
{
    let line = trim_str(params.function_name.as_str());
    if !shortcut_line_is_complete(line) {
        return false;
    }
    let rest = trim_str(query_body(trim_str(line)));
    rest.len() >= 9 && !rest.is_char_boundary(9)
}

/// Function name and optional query of a shortcut key.
///
/// A shortcut is one query string, the same shape as the vMix web API:
/// `Function=SetText&Input=1&Value=hello world`. Settings that store the name and
/// the fields separately still give a command.
pub open spec fn spec_shortcut_parts(p: ActionParams) -> Option<(Seq<char>, Option<Seq<char>>)> {
    let line = trim(p.function_name@);
    if spec_shortcut_line_is_complete(line) {
        match spec_split_shortcut_line(line) {
            Some((n, q)) => if n.len() == 0 {
                None
            } else {
                Some((n, nonempty(q)))
            },
            None => None,
        }
    } else if line.len() == 0 {
        None
    } else {
        Some((line, nonempty(spec_shortcut_query(p))))
    }
}

pub open spec fn opt_pair_text(o: Option<(String, Option<String>)>) -> Option<(Seq<char>, Option<Seq<char>>)> {
    match o {
        Some((n, q)) => Some((n@, opt_text(q))),
        None => None,
    }
}

fn shortcut_parts(params: &ActionParams) -> (r: Option<(String, Option<String>)>)
    requires
        !spec_shortcut_panics(params.function_name@),
    ensures
        opt_pair_text(r) == spec_shortcut_parts(*params),
{
    let line = trim_str(params.function_name.as_str());
    if shortcut_line_is_complete(line) {
        return match split_shortcut_line(line) {
            Some((name, query)) => {
                if name.unicode_len() == 0 {
                    None
                } else {
                    Some((name, nonempty_string(query)))
                }
            },
            None => None,
        };
    }
    if line.unicode_len() == 0 {
        return None;
    }
    let query = shortcut_query(params);
    Some((owned(line), nonempty_string(query)))
}

/// The function name a shortcut key sends, empty when it names none.
pub open spec fn spec_shortcut_name(p: ActionParams) -> Seq<char> {
    match spec_shortcut_parts(p) {
        Some((n, _)) => n,
        None => seq![],
    }
}

pub fn shortcut_name(params: &ActionParams) -> (r: String)
    requires
        !spec_shortcut_panics(params.function_name@),
    ensures
        r@ == spec_shortcut_name(*params),
{
    match shortcut_parts(params) {
        Some((name, _)) => name,
        None => String::new(),
    }
}

/// The parts of a title query: encoded value, input, encoded selected name.
pub open spec fn title_parts(p: ActionParams) -> Seq<Seq<char>> {
    let input = trim(p.input@);
    let a: Seq<Seq<char>> = if p.title_action@ != "visible"@ && p.value@.len() > 0 {
        seq!["Value="@ + url_encode(trim(p.value@))]
    } else {
        seq![]
    };
    let b: Seq<Seq<char>> = if input.len() > 0 {
        a.push("Input="@ + input)
    } else {
        a
    };
    if trim(p.selected_name@).len() > 0 {
        b.push("SelectedName="@ + url_encode(trim(p.selected_name@)))
    } else {
        b
    }
}

fn title_query(params: &ActionParams) -> (r: String)
    ensures
        r@ == join_with(title_parts(*params), "&"@),
{
    let input = trim_str(params.input.as_str());
    let mut out = String::new();
    let mut any = false;
    let ghost a: Seq<Seq<char>> = if params.title_action@ != "visible"@ && params.value@.len() > 0 {
        seq!["Value="@ + url_encode(trim(params.value@))]
    } else {
        seq![]
    };
    if !str_eq(params.title_action.as_str(), "visible") && params.value.unicode_len() != 0 {
        out.append("Value=");
        let v = encode(trim_str(params.value.as_str()));
        out.append(v.as_str());
        any = true;
    }
    assert(out@ =~= join_with(a, "&"@));
    let ghost b: Seq<Seq<char>> = if input@.len() > 0 {
        a.push("Input="@ + input@)
    } else {
        a
    };
    if input.unicode_len() != 0 {
        if any {
            out.append("&");
        }
        out.append("Input=");
        out.append(input);
        any = true;
        assert(b.drop_last() =~= a);
    }
    assert(out@ =~= join_with(b, "&"@));
    assert(any == (b.len() > 0));
    let selected = trim_str(params.selected_name.as_str());
    if selected.unicode_len() != 0 {
        if any {
            out.append("&");
        }
        out.append("SelectedName=");
        let v = encode(selected);
        out.append(v.as_str());
        let ghost c = b.push("SelectedName="@ + url_encode(selected@));
        assert(c.drop_last() =~= b);
        assert(out@ =~= join_with(c, "&"@));
    }
    out
}

/// The query a key's function takes, as text; empty when it takes none.
pub open spec fn spec_query_text(kind: ActionKind, p: ActionParams) -> Seq<char> {
    let input = trim(p.input@);
    let mix = spec_mix_text(p.mix);
    match kind {
        ActionKind::Program | ActionKind::Preview | ActionKind::Stinger => spec_join_query(
            seq![("Input"@, input), ("Mix"@, mix)],
        ),
        ActionKind::Transition => if spec_is_transition_button(p.effect@) {
            seq![]
        } else {
            spec_join_query(
                seq![("Input"@, input), ("Mix"@, mix), ("Duration"@, trim(p.duration_ms@))],
            )
        },
        ActionKind::Overlay => {
            let m = p.overlay_mode@;
            if m == "out"@ || m == "off"@ || m == "zoom"@ {
                seq![]
            } else if m == "last"@ {
                spec_join_query(seq![("Mix"@, mix)])
            } else if m == "preview"@ {
                spec_join_query(seq![("Input"@, input)])
            } else {
                spec_join_query(seq![("Input"@, input), ("Mix"@, mix)])
            }
        },
        ActionKind::Mute | ActionKind::Play => if p.audio_target@ == "input"@ || kind is Play {
            spec_join_query(seq![("Input"@, input)])
        } else {
            seq![]
        },
        ActionKind::Solo => if p.audio_target@ == "bus"@ {
            seq![]
        } else {
            spec_join_query(seq![("Input"@, input)])
        },
        ActionKind::BusSend => spec_join_query(
            seq![("Value"@, seq![spec_bus_letter(p.bus@)]), ("Input"@, input)],
        ),
        ActionKind::List => if p.list_action@ == "select"@ {
            spec_join_query(seq![("Value"@, trim(p.index@)), ("Input"@, input)])
        } else {
            spec_join_query(seq![("Input"@, input)])
        },
        ActionKind::Title => join_with(title_parts(p), "&"@),
        ActionKind::Shortcut => match spec_shortcut_parts(p) {
            Some((_, Some(q))) => q,
            _ => seq![],
        },
        ActionKind::Replay => if p.replay_action@ == "channel"@ || trim(p.channel@).len() == 0 {
            seq![]
        } else {
            spec_join_query(seq![("Channel"@, trim(p.channel@))])
        },
        _ => seq![],
    }
}

/// The query a key's function takes, `None` when it takes none.
pub open spec fn spec_query_for(kind: ActionKind, p: ActionParams) -> Option<Seq<char>> {
    nonempty(spec_query_text(kind, p))
}

fn query_for(kind: ActionKind, params: &ActionParams) -> (r: Option<String>)
    requires
        kind is Shortcut ==> !spec_shortcut_panics(params.function_name@),
    ensures
        opt_text(r) == spec_query_for(kind, *params),
{
    proof {
        reveal_strlit("");
    }
    let input = trim_str(params.input.as_str());
    let mix = mix_text(params.mix);
    let query = match kind {
        ActionKind::Program | ActionKind::Preview | ActionKind::Stinger => query2(
            "Input",
            input,
            "Mix",
            mix.as_str(),
        ),
        ActionKind::Transition => {
            if is_transition_button(params.effect.as_str()) {
                String::new()
            } else {
                query3(
                    "Input",
                    input,
                    "Mix",
                    mix.as_str(),
                    "Duration",
                    trim_str(params.duration_ms.as_str()),
                )
            }
        },
        ActionKind::Overlay => {
            let m = params.overlay_mode.as_str();
            if str_eq(m, "out") || str_eq(m, "off") || str_eq(m, "zoom") {
                String::new()
            } else if str_eq(m, "last") {
                query1("Mix", mix.as_str())
            } else if str_eq(m, "preview") {
                query1("Input", input)
            } else {
                query2("Input", input, "Mix", mix.as_str())
            }
        },
        ActionKind::Mute | ActionKind::Play => {
            if str_eq(params.audio_target.as_str(), "input") || kind == ActionKind::Play {
                query1("Input", input)
            } else {
                String::new()
            }
        },
        ActionKind::Solo => {
            if str_eq(params.audio_target.as_str(), "bus") {
                String::new()
            } else {
                query1("Input", input)
            }
        },
        ActionKind::BusSend => {
            let letter = bus_text(params);
            query2("Value", letter.as_str(), "Input", input)
        },
        ActionKind::List => {
            if str_eq(params.list_action.as_str(), "select") {
                query2("Value", trim_str(params.index.as_str()), "Input", input)
            } else {
                query1("Input", input)
            }
        },
        ActionKind::Title => title_query(params),
        ActionKind::Shortcut => match shortcut_parts(params) {
            Some((_, Some(q))) => q,
            _ => String::new(),
        },
        ActionKind::Replay => {
            let channel = trim_str(params.channel.as_str());
            if str_eq(params.replay_action.as_str(), "channel") || channel.unicode_len() == 0 {
                String::new()
            } else {
                query1("Channel", channel)
            }
        },
        _ => String::new(),
    };
    assert(query@ == spec_query_text(kind, *params));
    nonempty_string(query)
}


/// The vMix function a key sends.
pub open spec fn spec_function_name(kind: ActionKind, p: ActionParams) -> Seq<char> {
    match kind {
        ActionKind::Program => "ActiveInput"@,
        ActionKind::Preview => "PreviewInput"@,
        ActionKind::Transition => spec_transition_function(p),
        ActionKind::Stinger => "Stinger"@ + dec(clamp(p.stinger, 1, 8) as nat),
        ActionKind::FadeToBlack => "FadeToBlack"@,
        ActionKind::Overlay => spec_overlay_function(p),
        ActionKind::Recording => "StartStopRecording"@,
        ActionKind::Streaming => "StartStopStreaming"@,
        ActionKind::External => "StartStopExternal"@,
        ActionKind::MultiCorder => "StartStopMultiCorder"@,
        ActionKind::Fullscreen => "Fullscreen"@,
        ActionKind::Replay => spec_replay_function(p),
        ActionKind::Mute => spec_mute_function(p),
        ActionKind::Solo => spec_solo_function(p),
        ActionKind::BusSend => "AudioBus"@,
        ActionKind::Play => "PlayPause"@,
        ActionKind::List => spec_list_function(p),
        ActionKind::Title => spec_title_function(p),
        _ => seq![],
    }
}

/// The command a key press sends, `None` when the key has nothing to send.
pub open spec fn spec_command_for(kind: ActionKind, p: ActionParams) -> Option<CommandView> {
    match kind {
        ActionKind::Shortcut => match spec_shortcut_parts(p) {
            Some((n, q)) => Some(CommandView::Function { name: n, query: q }),
            None => None,
        },
        ActionKind::Raw => if trim(p.raw@).len() == 0 {
            None
        } else {
            Some(CommandView::Raw(p.raw@))
        },
        ActionKind::Volume => None,
        _ => Some(
            CommandView::Function {
                name: spec_function_name(kind, p),
                query: spec_query_for(kind, p),
            },
        ),
    }
}

pub fn command_for(kind: ActionKind, params: &ActionParams) -> (r: Option<Command>)
    requires
        kind is Shortcut ==> !spec_shortcut_panics(params.function_name@),
    ensures
        opt_command_view(r) == spec_command_for(kind, *params),
{
    let function = match kind {
        ActionKind::Program => owned("ActiveInput"),
        ActionKind::Preview => owned("PreviewInput"),
        ActionKind::Transition => transition_function(params),
        ActionKind::Stinger => {
            let mut s = owned("Stinger");
            push_decimal(&mut s, clamp_u8(params.stinger, 1, 8) as u64);
            s
        },
        ActionKind::FadeToBlack => owned("FadeToBlack"),
        ActionKind::Overlay => overlay_function(params),
        ActionKind::Recording => owned("StartStopRecording"),
        ActionKind::Streaming => owned("StartStopStreaming"),
        ActionKind::External => owned("StartStopExternal"),
        ActionKind::MultiCorder => owned("StartStopMultiCorder"),
        ActionKind::Fullscreen => owned("Fullscreen"),
        ActionKind::Replay => replay_function(params),
        ActionKind::Mute => mute_function(params),
        ActionKind::Solo => solo_function(params),
        ActionKind::BusSend => owned("AudioBus"),
        ActionKind::Play => owned("PlayPause"),
        ActionKind::List => list_function(params),
        ActionKind::Title => title_function(params),
        ActionKind::Shortcut => {
            return match shortcut_parts(params) {
                Some((name, query)) => Some(Command::Function { name, query }),
                None => None,
            };
        },
        ActionKind::Raw => {
            return if trim_str(params.raw.as_str()).unicode_len() == 0 {
                None
            } else {
                Some(Command::Raw(params.raw.clone()))
            };
        },
        ActionKind::Volume => {
            return None;
        },
    };
    Some(Command::Function { name: function, query: query_for(kind, params) })
}

/// The command that sets a key's volume to `percent`.
pub open spec fn spec_volume_command(p: ActionParams, percent: u8) -> CommandView {
    let value = dec(percent as nat);
    if p.audio_target@ == "master"@ {
        CommandView::Function { name: "SetMasterVolume"@, query: nonempty("Value="@ + value) }
    } else if p.audio_target@ == "bus"@ {
        CommandView::Function {
            name: "SetBus"@ + seq![spec_bus_letter(p.bus@)] + "Volume"@,
            query: nonempty("Value="@ + value),
        }
    } else {
        CommandView::Function {
            name: "SetVolume"@,
            query: nonempty(spec_join_query(seq![("Value"@, value), ("Input"@, trim(p.input@))])),
        }
    }
}

pub fn volume_command(params: &ActionParams, percent: u8) -> (r: Command)
    ensures
        command_view(r) == spec_volume_command(*params, percent),
{
    let value = crate::text::decimal(percent as u64);
    assert(value@ == dec(percent as nat));
    let t = params.audio_target.as_str();
    if str_eq(t, "master") {
        let mut q = owned("Value=");
        q.append(value.as_str());
        assert(q@ == "Value="@ + dec(percent as nat));
        let c = Command::Function { name: owned("SetMasterVolume"), query: nonempty_string(q) };
        assert(command_view(c) == spec_volume_command(*params, percent));
        c
    } else if str_eq(t, "bus") {
        let mut n = owned("SetBus");
        push_char(&mut n, bus_letter(params));
        n.append("Volume");
        assert(n@ =~= "SetBus"@ + seq![spec_bus_letter(params.bus@)] + "Volume"@);
        let mut q = owned("Value=");
        q.append(value.as_str());
        Command::Function { name: n, query: nonempty_string(q) }
    } else {
        let q = query2("Value", value.as_str(), "Input", trim_str(params.input.as_str()));
        let c = Command::Function { name: owned("SetVolume"), query: nonempty_string(q) };
        assert(command_view(c) == spec_volume_command(*params, percent));
        c
    }
}

pub open spec fn spec_mute_command(p: ActionParams) -> CommandView {
    CommandView::Function {
        name: spec_mute_function(p),
        query: spec_query_for(ActionKind::Mute, p),
    }
}

pub fn mute_command(params: &ActionParams) -> (r: Command)
    ensures
        command_view(r) == spec_mute_command(*params),
{
    Command::Function {
        name: mute_function(params),
        query: query_for(ActionKind::Mute, params),
    }
}

/// A map's value for `k`, if it has one.
pub open spec fn map_get<K, V>(m: Map<K, V>, k: K) -> Option<V> {
    if m.contains_key(k) {
        Some(m[k])
    } else {
        None
    }
}

/// A map's value for `k`, or `d`.
pub open spec fn get_or<K, V>(m: Map<K, V>, k: K, d: V) -> V {
    if m.contains_key(k) {
        m[k]
    } else {
        d
    }
}

/// The volume a key shows and adjusts, in percent.
pub open spec fn spec_volume_level(v: VmixStateView, p: ActionParams) -> u8 {
    if p.audio_target@ == "master"@ {
        v.master_volume
    } else if p.audio_target@ == "bus"@ {
        get_or(v.bus_volume, bus_key(spec_bus_letter(p.bus@)), 0)
    } else {
        match spec_resolve_input(v.inputs, p.input@) {
            Some(i) => get_or(v.input_volume, i, 0),
            None => 0,
        }
    }
}

pub fn volume_level(state: &VmixState, params: &ActionParams) -> (r: u8)
    ensures
        r == spec_volume_level(state@, *params),
{
    let t = params.audio_target.as_str();
    if str_eq(t, "master") {
        state.master_volume
    } else if str_eq(t, "bus") {
        match state.bus_volume.get(&bus_key_of(bus_letter(params))) {
            Some(v) => *v,
            None => 0,
        }
    } else {
        match state.resolve_input(params.input.as_str()) {
            Some(i) => match state.input_volume.get(&i) {
                Some(v) => *v,
                None => 0,
            },
            None => 0,
        }
    }
}

/// Kinds that address a mix and go dark when that mix is missing.
pub open spec fn spec_needs_mix(kind: ActionKind) -> bool {
    kind is Program || kind is Preview || kind is Stinger || kind is Overlay
}

fn needs_mix(kind: ActionKind) -> (r: bool)
    ensures
        r == spec_needs_mix(kind),
{
    matches!(kind, ActionKind::Program | ActionKind::Preview | ActionKind::Stinger | ActionKind::Overlay)
}

pub open spec fn spec_flag(on: bool) -> SegmentState {
    if on {
        SegmentState::Active
    } else {
        SegmentState::Inactive
    }
}

fn flag(on: bool) -> (r: SegmentState)
    ensures
        r == spec_flag(on),
{
    if on {
        SegmentState::Active
    } else {
        SegmentState::Inactive
    }
}

/// Lit when the slot holds the input that the spec names.
pub open spec fn spec_lit_input(current: Option<u16>, v: VmixStateView, spec: Seq<char>) -> SegmentState {
    match spec_resolve_input(v.inputs, spec) {
        Some(w) => if current == Some(w) {
            SegmentState::Active
        } else {
            SegmentState::Inactive
        },
        None => SegmentState::Inactive,
    }
}

fn lit_input(current: Option<u16>, state: &VmixState, spec: &str) -> (r: SegmentState)
    ensures
        r == spec_lit_input(current, state@, spec@),
{
    match state.resolve_input(spec) {
        Some(wanted) => if current == Some(wanted) {
            SegmentState::Active
        } else {
            SegmentState::Inactive
        },
        None => SegmentState::Inactive,
    }
}

fn slot_of(m: &std::collections::HashMap<u8, u16>, k: u8) -> (r: Option<u16>)
    ensures
        r == map_get(m@, k),
{
    match m.get(&k) {
        Some(v) => Some(*v),
        None => None,
    }
}

fn flag_of(m: &std::collections::HashMap<u16, bool>, k: u16) -> (r: bool)
    ensures
        r == get_or(m@, k, false),
{
    match m.get(&k) {
        Some(v) => *v,
        None => false,
    }
}

/// Whether the addressed channel is audible; `None` when unknown.
pub open spec fn spec_audible(v: VmixStateView, p: ActionParams) -> Option<bool> {
    if p.audio_target@ == "master"@ {
        Some(v.master_audio)
    } else if p.audio_target@ == "bus"@ {
        map_get(v.bus_audio, bus_key(spec_bus_letter(p.bus@)))
    } else {
        match spec_resolve_input(v.inputs, p.input@) {
            Some(i) => map_get(v.input_audio, i),
            None => None,
        }
    }
}

fn audible(state: &VmixState, params: &ActionParams) -> (r: Option<bool>)
    ensures
        r == spec_audible(state@, *params),
{
    let t = params.audio_target.as_str();
    if str_eq(t, "master") {
        Some(state.master_audio)
    } else if str_eq(t, "bus") {
        match state.bus_audio.get(&bus_key_of(bus_letter(params))) {
            Some(v) => Some(*v),
            None => None,
        }
    } else {
        match state.resolve_input(params.input.as_str()) {
            Some(i) => match state.input_audio.get(&i) {
                Some(v) => Some(*v),
                None => None,
            },
            None => None,
        }
    }
}

pub open spec fn spec_solo_on(v: VmixStateView, p: ActionParams) -> bool {
    if p.audio_target@ == "bus"@ {
        get_or(v.bus_solo, bus_key(spec_bus_letter(p.bus@)), false)
    } else {
        match spec_resolve_input(v.inputs, p.input@) {
            Some(i) => get_or(v.input_solo, i, false),
            None => false,
        }
    }
}

fn solo_on(state: &VmixState, params: &ActionParams) -> (r: bool)
    ensures
        r == spec_solo_on(state@, *params),
{
    if str_eq(params.audio_target.as_str(), "bus") {
        return match state.bus_solo.get(&bus_key_of(bus_letter(params))) {
            Some(v) => *v,
            None => false,
        };
    }
    match state.resolve_input(params.input.as_str()) {
        Some(i) => flag_of(&state.input_solo, i),
        None => false,
    }
}

pub open spec fn spec_bus_send_on(v: VmixStateView, p: ActionParams) -> bool {
    match spec_resolve_input(v.inputs, p.input@) {
        Some(i) => {
            let bus = spec_bus_letter(p.bus@);
            if bus == 'M' {
                get_or(v.input_master_audio, i, false)
            } else {
                get_or(v.input_bus, input_bus_key(i, bus), false)
            }
        },
        None => false,
    }
}

fn bus_send_on(state: &VmixState, params: &ActionParams) -> (r: bool)
    ensures
        r == spec_bus_send_on(state@, *params),
{
    let input = match state.resolve_input(params.input.as_str()) {
        Some(i) => i,
        None => {
            return false;
        },
    };
    let bus = bus_letter(params);
    if bus == 'M' {
        return flag_of(&state.input_master_audio, input);
    }
    match state.input_bus.get(&input_bus_key_of(input, bus)) {
        Some(v) => *v,
        None => false,
    }
}

/// The first listed input with this number.
pub open spec fn first_with_number(inputs: Seq<CachedInput>, n: u16) -> Option<CachedInput>
    decreases inputs.len(),
{
    if inputs.len() == 0 {
        None
    } else if inputs[0].number == n {
        Some(inputs[0])
    } else {
        first_with_number(inputs.drop_first(), n)
    }
}

/// The selected list index of the input that the spec names.
pub open spec fn spec_selected_index(v: VmixStateView, spec: Seq<char>) -> Option<Seq<char>> {
    match spec_resolve_input(v.inputs, spec) {
        Some(n) => match first_with_number(v.inputs, n) {
            Some(c) => match c.selected_index {
                Some(t) => Some(t@),
                None => None,
            },
            None => None,
        },
        None => None,
    }
}

fn input_with_number(inputs: &Vec<CachedInput>, n: u16) -> (r: Option<&CachedInput>)
    ensures
        match r {
            Some(c) => first_with_number(inputs@, n) == Some(*c),
            None => first_with_number(inputs@, n) is None,
        },
{
    let mut i: usize = 0;
    assert(inputs@.subrange(0, inputs@.len() as int) =~= inputs@);
    while i < inputs.len()
        invariant
            i <= inputs@.len(),
            first_with_number(inputs@, n) == first_with_number(
                inputs@.subrange(i as int, inputs@.len() as int),
                n,
            ),
        decreases inputs@.len() - i,
    {
        assert(inputs@.subrange(i as int, inputs@.len() as int).drop_first() =~= inputs@.subrange(
            i + 1,
            inputs@.len() as int,
        ));
        assert(inputs@.subrange(i as int, inputs@.len() as int)[0] == inputs@[i as int]);
        if inputs[i].number == n {
            return Some(&inputs[i]);
        }
        i = i + 1;
    }
    None
}

fn selected_index<'a>(state: &'a VmixState, spec: &str) -> (r: Option<&'a String>)
    ensures
        opt_text_ref(r) == spec_selected_index(state@, spec@),
{
    match state.resolve_input(spec) {
        Some(n) => match input_with_number(&state.inputs, n) {
            Some(c) => match &c.selected_index {
                Some(t) => Some(t),
                None => None,
            },
            None => None,
        },
        None => None,
    }
}

pub open spec fn opt_text_ref(o: Option<&String>) -> Option<Seq<char>> {
    match o {
        Some(s) => Some(s@),
        None => None,
    }
}

/// What a key's segment for one instance shows.
pub open spec fn spec_segment_for(
    kind: ActionKind,
    p: ActionParams,
    v: VmixStateView,
    connected: bool,
) -> SegmentState {
    if !connected {
        SegmentState::Unavailable
    } else if spec_needs_mix(kind) && !spec_mix_available(v, p.mix) {
        SegmentState::Unavailable
    } else {
        match kind {
            ActionKind::Program => spec_lit_input(map_get(v.program, p.mix), v, p.input@),
            ActionKind::Preview => spec_lit_input(map_get(v.preview, p.mix), v, p.input@),
            ActionKind::Overlay => {
                let current = map_get(v.overlays, clamp(p.overlay, 1, 8));
                if trim(p.input@).len() == 0 {
                    if current is Some {
                        SegmentState::Active
                    } else {
                        SegmentState::Inactive
                    }
                } else {
                    spec_lit_input(current, v, p.input@)
                }
            },
            ActionKind::FadeToBlack => spec_flag(v.fade_to_black),
            ActionKind::Recording => spec_flag(v.recording),
            ActionKind::Streaming => spec_flag(v.streaming),
            ActionKind::External => spec_flag(v.external),
            ActionKind::Fullscreen => spec_flag(v.fullscreen),
            ActionKind::MultiCorder => spec_flag(v.multi_corder),
            ActionKind::Replay => spec_flag(v.replay_playing),
            ActionKind::Mute => if spec_audible(v, p) == Some(false) {
                SegmentState::Active
            } else {
                SegmentState::Inactive
            },
            ActionKind::Solo => spec_flag(spec_solo_on(v, p)),
            ActionKind::BusSend => spec_flag(spec_bus_send_on(v, p)),
            ActionKind::Play => match spec_resolve_input(v.inputs, p.input@) {
                Some(i) => spec_flag(get_or(v.input_playing, i, false)),
                None => SegmentState::Inactive,
            },
            ActionKind::List => match spec_resolve_input(v.inputs, p.input@) {
                Some(_) => if trim(p.index@).len() == 0 {
                    SegmentState::Neutral
                } else if spec_selected_index(v, p.input@) == Some(trim(p.index@)) {
                    SegmentState::Active
                } else {
                    SegmentState::Inactive
                },
                None => SegmentState::Inactive,
            },
            _ => SegmentState::Neutral,
        }
    }
}

pub fn segment_for(
    kind: ActionKind,
    params: &ActionParams,
    state: &VmixState,
    connected: bool,
) -> (r: SegmentState)
    ensures
        r == spec_segment_for(kind, *params, state@, connected),
{
    if !connected {
        return SegmentState::Unavailable;
    }
    if needs_mix(kind) && !state.mix_available(params.mix) {
        return SegmentState::Unavailable;
    }
    match kind {
        ActionKind::Program => lit_input(
            slot_of(&state.program, params.mix),
            state,
            params.input.as_str(),
        ),
        ActionKind::Preview => lit_input(
            slot_of(&state.preview, params.mix),
            state,
            params.input.as_str(),
        ),
        ActionKind::Overlay => {
            let current = slot_of(&state.overlays, clamp_u8(params.overlay, 1, 8));
            if trim_str(params.input.as_str()).unicode_len() == 0 {
                return if current.is_some() {
                    SegmentState::Active
                } else {
                    SegmentState::Inactive
                };
            }
            lit_input(current, state, params.input.as_str())
        },
        ActionKind::FadeToBlack => flag(state.fade_to_black),
        ActionKind::Recording => flag(state.recording),
        ActionKind::Streaming => flag(state.streaming),
        ActionKind::External => flag(state.external),
        ActionKind::Fullscreen => flag(state.fullscreen),
        ActionKind::MultiCorder => flag(state.multi_corder),
        ActionKind::Replay => flag(state.replay_playing),
        ActionKind::Mute => match audible(state, params) {
            Some(false) => SegmentState::Active,
            _ => SegmentState::Inactive,
        },
        ActionKind::Solo => flag(solo_on(state, params)),
        ActionKind::BusSend => flag(bus_send_on(state, params)),
        ActionKind::Play => match state.resolve_input(params.input.as_str()) {
            Some(input) => flag(flag_of(&state.input_playing, input)),
            None => SegmentState::Inactive,
        },
        ActionKind::List => {
            if state.resolve_input(params.input.as_str()).is_none() {
                return SegmentState::Inactive;
            }
            let current = selected_index(state, params.input.as_str());
            let index = trim_str(params.index.as_str());
            if index.unicode_len() == 0 {
                return SegmentState::Neutral;
            }
            match current {
                Some(c) => if str_eq(c.as_str(), index) {
                    SegmentState::Active
                } else {
                    SegmentState::Inactive
                },
                None => SegmentState::Inactive,
            }
        },
        _ => SegmentState::Neutral,
    }
}

/// The title a key shows for one instance; empty when it shows none.
pub open spec fn spec_title_for(kind: ActionKind, p: ActionParams, v: VmixStateView) -> Seq<char> {
    match kind {
        ActionKind::Volume => dec(spec_volume_level(v, p) as nat),
        ActionKind::Shortcut => spec_shortcut_name(p),
        ActionKind::Program | ActionKind::Preview | ActionKind::Play | ActionKind::Mute => p.input@,
        ActionKind::Overlay => "OL"@ + dec(clamp(p.overlay, 1, 8) as nat),
        ActionKind::Stinger => "ST"@ + dec(clamp(p.stinger, 1, 8) as nat),
        ActionKind::List => match spec_selected_index(v, p.input@) {
            Some(t) => t,
            None => seq![],
        },
        _ => seq![],
    }
}

pub fn title_for(kind: ActionKind, params: &ActionParams, state: &VmixState) -> (r: String)
    requires
        kind is Shortcut ==> !spec_shortcut_panics(params.function_name@),
    ensures
        r@ == spec_title_for(kind, *params, state@),
{
    match kind {
        ActionKind::Volume => crate::text::decimal(volume_level(state, params) as u64),
        ActionKind::Shortcut => shortcut_name(params),
        ActionKind::Program | ActionKind::Preview | ActionKind::Play | ActionKind::Mute => params.input.clone(),
        ActionKind::Overlay => {
            let mut s = owned("OL");
            push_decimal(&mut s, clamp_u8(params.overlay, 1, 8) as u64);
            s
        },
        ActionKind::Stinger => {
            let mut s = owned("ST");
            push_decimal(&mut s, clamp_u8(params.stinger, 1, 8) as u64);
            s
        },
        ActionKind::List => match selected_index(state, params.input.as_str()) {
            Some(t) => t.clone(),
            None => String::new(),
        },
        _ => String::new(),
    }
}

/// Which activator updates can change what a key of this kind shows.
pub open spec fn spec_event_affects(kind: ActionKind, name: Seq<char>) -> bool {
    match kind {
        ActionKind::Program => name == "Input"@ || has_prefix(name, "InputMix"@),
        ActionKind::Preview => name == "InputPreview"@ || has_prefix(name, "InputPreviewMix"@),
        ActionKind::Overlay => has_prefix(name, "Overlay"@),
        ActionKind::FadeToBlack => name == "FadeToBlack"@,
        ActionKind::Recording => name == "Recording"@,
        ActionKind::Streaming => name == "Streaming"@,
        ActionKind::External => name == "External"@,
        ActionKind::Fullscreen => name == "Fullscreen"@,
        ActionKind::Replay => name == "ReplayPlaying"@,
        ActionKind::Mute => name == "InputAudio"@ || name == "MasterAudio"@ || (has_prefix(
            name,
            "Bus"@,
        ) && has_suffix(name, "Audio"@) && !has_prefix(name, "Input"@)),
        ActionKind::Solo => name == "InputSolo"@ || has_suffix(name, "Solo"@),
        ActionKind::BusSend => has_prefix(name, "InputBus"@) || name == "InputMasterAudio"@,
        ActionKind::Play => name == "InputPlaying"@,
        ActionKind::Volume => has_suffix(name, "Volume"@),
        _ => false,
    }
}

pub fn event_affects(kind: ActionKind, name: &str) -> (r: bool)
    ensures
        r == spec_event_affects(kind, name@),
{
    match kind {
        ActionKind::Program => str_eq(name, "Input") || starts_with(name, "InputMix"),
        ActionKind::Preview => str_eq(name, "InputPreview") || starts_with(name, "InputPreviewMix"),
        ActionKind::Overlay => starts_with(name, "Overlay"),
        ActionKind::FadeToBlack => str_eq(name, "FadeToBlack"),
        ActionKind::Recording => str_eq(name, "Recording"),
        ActionKind::Streaming => str_eq(name, "Streaming"),
        ActionKind::External => str_eq(name, "External"),
        ActionKind::Fullscreen => str_eq(name, "Fullscreen"),
        ActionKind::Replay => str_eq(name, "ReplayPlaying"),
        ActionKind::Mute => {
            str_eq(name, "InputAudio") || str_eq(name, "MasterAudio") || (starts_with(name, "Bus")
                && ends_with(name, "Audio") && !starts_with(name, "Input"))
        },
        ActionKind::Solo => str_eq(name, "InputSolo") || ends_with(name, "Solo"),
        ActionKind::BusSend => starts_with(name, "InputBus") || str_eq(name, "InputMasterAudio"),
        ActionKind::Play => str_eq(name, "InputPlaying"),
        ActionKind::Volume => ends_with(name, "Volume"),
        _ => false,
    }
}

/// Names the feedback path should watch for a program key on this mix.
pub fn watched_program_activator(mix: u8) -> (r: String)
    ensures
        r@ == spec_acts_program_name(mix),
{
    acts_program_name(mix)
}

/// Names the feedback path should watch for a preview key on this mix.
pub fn watched_preview_activator(mix: u8) -> (r: String)
    ensures
        r@ == spec_acts_preview_name(mix),
{
    acts_preview_name(mix)
}


/// Program, preview and overlay keys react to the activator name that an update
/// of any mix or overlay channel reports.
pub proof fn switcher_keys_see_their_updates(mix: u8, channel: u8, input: u16, on: bool)
    ensures
        spec_event_affects(
            ActionKind::Program,
            spec_activator_name(Activator::Program { mix, input, on }),
        ),
        spec_event_affects(
            ActionKind::Preview,
            spec_activator_name(Activator::Preview { mix, input, on }),
        ),
        spec_event_affects(
            ActionKind::Overlay,
            spec_activator_name(Activator::Overlay { channel, input, on }),
        ),
{
    let p = "InputMix"@ + dec(mix as nat);
    assert(p.subrange(0, "InputMix"@.len() as int) =~= "InputMix"@);
    let q = "InputPreviewMix"@ + dec(mix as nat);
    assert(q.subrange(0, "InputPreviewMix"@.len() as int) =~= "InputPreviewMix"@);
    let o = "Overlay"@ + dec(channel as nat);
    assert(o.subrange(0, "Overlay"@.len() as int) =~= "Overlay"@);
}


/// A program key follows its own mix: after vMix reports its input on program in
/// that mix the key lights, after vMix reports it off the key goes dark, and an
/// update of any other mix leaves the key as it was.
pub proof fn program_key_follows_its_mix(v: VmixStateView, p: ActionParams, input: u16, other: u8, on: bool)
    requires
        spec_mix_available(v, p.mix),
        spec_resolve_input(v.inputs, p.input@) == Some(input),
        other != p.mix,
    ensures
        spec_segment_for(
            ActionKind::Program,
            p,
            spec_apply_acts(v, Activator::Program { mix: p.mix, input, on: true }),
            true,
        ) == SegmentState::Active,
        spec_segment_for(
            ActionKind::Program,
            p,
            spec_apply_acts(v, Activator::Program { mix: p.mix, input, on: false }),
            true,
        ) == SegmentState::Inactive,
        spec_segment_for(
            ActionKind::Program,
            p,
            spec_apply_acts(v, Activator::Program { mix: other, input, on }),
            true,
        ) == spec_segment_for(ActionKind::Program, p, v, true),
{
    let w = spec_apply_acts(v, Activator::Program { mix: other, input, on });
    crate::cache::program_update_keeps_other_mixes(v, other, input, on, p.mix);
    assert(map_get(w.program, p.mix) == map_get(v.program, p.mix));
}

/// A mute key is the inverse of the input's audio: once vMix reports the input's
/// sound on the key is dark, once it reports it off the key lights.
pub proof fn mute_key_is_the_inverse_of_input_audio(v: VmixStateView, p: ActionParams, input: u16, on: bool)
    requires
        p.audio_target@ != "master"@,
        p.audio_target@ != "bus"@,
        spec_resolve_input(v.inputs, p.input@) == Some(input),
    ensures
        spec_segment_for(
            ActionKind::Mute,
            p,
            spec_apply_acts(v, Activator::InputAudio { input, on }),
            true,
        ) == if on {
            SegmentState::Inactive
        } else {
            SegmentState::Active
        },
{
}

/// A key whose instance is not connected, or whose mix vMix does not have, shows
/// the instance as unavailable.
pub proof fn unreachable_targets_show_unavailable(kind: ActionKind, p: ActionParams, v: VmixStateView)
    ensures
        spec_segment_for(kind, p, v, false) == SegmentState::Unavailable,
        spec_needs_mix(kind) && !spec_mix_available(v, p.mix) ==> spec_segment_for(kind, p, v, true)
            == SegmentState::Unavailable,
{
}


proof fn lemma_query_parts_has(ps: Seq<(Seq<char>, Seq<char>)>, i: int)
    requires
        0 <= i < ps.len(),
        ps[i].1.len() > 0,
    ensures
        query_parts(ps).contains(ps[i].0 + "="@ + ps[i].1),
    decreases ps.len(),
{
    let rest = query_parts(ps.drop_last());
    if i < ps.len() - 1 {
        lemma_query_parts_has(ps.drop_last(), i);
        assert(ps.drop_last()[i] == ps[i]);
        let k = choose|k: int| 0 <= k < rest.len() && rest[k] == ps[i].0 + "="@ + ps[i].1;
        if ps.last().1.len() > 0 {
            assert(rest.push(ps.last().0 + "="@ + ps.last().1)[k] == rest[k]);
        }
    } else {
        let x = ps.last().0 + "="@ + ps.last().1;
        assert(rest.push(x)[rest.len() as int] == x);
    }
}

/// Every pair with a value is a `key=value` piece of the query.
proof fn lemma_query_has_pair(ps: Seq<(Seq<char>, Seq<char>)>, i: int)
    requires
        0 <= i < ps.len(),
        ps[i].1.len() > 0,
    ensures
        has_piece(spec_join_query(ps), ps[i].0 + "="@ + ps[i].1),
        spec_join_query(ps).len() > 0,
{
    lemma_query_parts_has(ps, i);
    let parts = query_parts(ps);
    let k = choose|k: int| 0 <= k < parts.len() && parts[k] == ps[i].0 + "="@ + ps[i].1;
    lemma_join_has_piece(parts, k);
    let w = choose|w: int| #[trigger] piece_at(spec_join_query(ps), ps[i].0 + "="@ + ps[i].1, w);
    assert(spec_join_query(ps).len() >= (ps[i].0 + "="@ + ps[i].1).len());
}

/// A query piece stays a piece once the extra text of a shortcut is appended.
proof fn lemma_shortcut_keeps_piece(p: ActionParams, piece: Seq<char>, ps: Seq<(Seq<char>, Seq<char>)>)
    requires
        ps == seq![
            ("Input"@, trim(p.input@)),
            ("Value"@, url_encode(trim(p.value@))),
            ("Channel"@, trim(p.channel@)),
            ("Mix"@, spec_mix_text(p.mix)),
            ("Duration"@, trim(p.duration_ms@)),
        ],
        has_piece(spec_join_query(ps), piece),
        spec_join_query(ps).len() > 0,
    ensures
        has_piece(spec_shortcut_query(p), piece),
        spec_shortcut_query(p).len() > 0,
{
    let q = spec_join_query(ps);
    let extra = strip_leading(trim(p.extra@), '&');
    if extra.len() > 0 {
        let w = choose|w: int| #[trigger] piece_at(q, piece, w);
        lemma_extend_piece(q, piece, w, extra);
    }
}

/// A shortcut given as a bare function name sends that function with the key's
/// own fields as `key=value` pieces of its query: `Input`, the encoded `Value`,
/// `Channel`, `Duration`, and, for any mix but Main, `Mix` one lower than the
/// user mix, as every other mix-addressed command does.
pub proof fn bare_shortcut_sends_the_key_fields(p: ActionParams)
    requires
        trim(p.function_name@).len() > 0,
        !trim(p.function_name@).contains('&'),
        !trim(p.function_name@).contains('?'),
        !has_prefix_ic(trim(p.function_name@), "http://"@),
        !has_prefix_ic(trim(p.function_name@), "https://"@),
        !has_prefix_ic(trim(p.function_name@), "function="@),
        !has_prefix_ic(trim(p.function_name@), "function "@),
    ensures
        spec_command_for(ActionKind::Shortcut, p) matches Some(CommandView::Function { name, query })
            && name == trim(p.function_name@),
        p.mix != 0 ==> (spec_command_for(ActionKind::Shortcut, p) matches Some(
            CommandView::Function { query: Some(q), .. },
        ) && has_piece(q, "Mix="@ + dec((p.mix - 1) as nat))),
        trim(p.input@).len() > 0 ==> (spec_command_for(ActionKind::Shortcut, p) matches Some(
            CommandView::Function { query: Some(q), .. },
        ) && has_piece(q, "Input="@ + trim(p.input@))),
        url_encode(trim(p.value@)).len() > 0 ==> (spec_command_for(ActionKind::Shortcut, p) matches Some(
            CommandView::Function { query: Some(q), .. },
        ) && has_piece(q, "Value="@ + url_encode(trim(p.value@)))),
        trim(p.channel@).len() > 0 ==> (spec_command_for(ActionKind::Shortcut, p) matches Some(
            CommandView::Function { query: Some(q), .. },
        ) && has_piece(q, "Channel="@ + trim(p.channel@))),
        trim(p.duration_ms@).len() > 0 ==> (spec_command_for(ActionKind::Shortcut, p) matches Some(
            CommandView::Function { query: Some(q), .. },
        ) && has_piece(q, "Duration="@ + trim(p.duration_ms@))),
{
    lemma_bare_command(p);
    if p.mix != 0 {
        lemma_mix_piece(p);
    }
    if trim(p.input@).len() > 0 {
        lemma_input_piece(p);
    }
    if url_encode(trim(p.value@)).len() > 0 {
        lemma_value_piece(p);
    }
    if trim(p.channel@).len() > 0 {
        lemma_channel_piece(p);
    }
    if trim(p.duration_ms@).len() > 0 {
        lemma_duration_piece(p);
    }
}

proof fn lemma_mix_piece(p: ActionParams)
    requires
        p.mix != 0,
    ensures
        has_piece(spec_shortcut_query(p), "Mix="@ + dec((p.mix - 1) as nat)),
        nonempty(spec_shortcut_query(p)) == Some(spec_shortcut_query(p)),
{
    reveal_strlit("=");
    reveal_strlit("Mix");
    reveal_strlit("Mix=");
    assert(spec_mix_text(p.mix) == dec((p.mix - 1) as nat));
    lemma_shortcut_field(p, 3, "Mix"@ + "="@);
    assert("Mix"@ + "="@ + dec((p.mix - 1) as nat) =~= "Mix="@ + dec((p.mix - 1) as nat));
}

proof fn lemma_input_piece(p: ActionParams)
    requires
        trim(p.input@).len() > 0,
    ensures
        has_piece(spec_shortcut_query(p), "Input="@ + trim(p.input@)),
        nonempty(spec_shortcut_query(p)) == Some(spec_shortcut_query(p)),
{
    reveal_strlit("=");
    reveal_strlit("Input");
    reveal_strlit("Input=");
    lemma_shortcut_field(p, 0, "Input"@ + "="@);
    assert("Input"@ + "="@ + trim(p.input@) =~= "Input="@ + trim(p.input@));
}

proof fn lemma_value_piece(p: ActionParams)
    requires
        url_encode(trim(p.value@)).len() > 0,
    ensures
        has_piece(spec_shortcut_query(p), "Value="@ + url_encode(trim(p.value@))),
        nonempty(spec_shortcut_query(p)) == Some(spec_shortcut_query(p)),
{
    reveal_strlit("=");
    reveal_strlit("Value");
    reveal_strlit("Value=");
    lemma_shortcut_field(p, 1, "Value"@ + "="@);
    assert("Value"@ + "="@ + url_encode(trim(p.value@)) =~= "Value="@ + url_encode(trim(p.value@)));
}

proof fn lemma_channel_piece(p: ActionParams)
    requires
        trim(p.channel@).len() > 0,
    ensures
        has_piece(spec_shortcut_query(p), "Channel="@ + trim(p.channel@)),
        nonempty(spec_shortcut_query(p)) == Some(spec_shortcut_query(p)),
{
    reveal_strlit("=");
    reveal_strlit("Channel");
    reveal_strlit("Channel=");
    lemma_shortcut_field(p, 2, "Channel"@ + "="@);
    assert("Channel"@ + "="@ + trim(p.channel@) =~= "Channel="@ + trim(p.channel@));
}

proof fn lemma_duration_piece(p: ActionParams)
    requires
        trim(p.duration_ms@).len() > 0,
    ensures
        has_piece(spec_shortcut_query(p), "Duration="@ + trim(p.duration_ms@)),
        nonempty(spec_shortcut_query(p)) == Some(spec_shortcut_query(p)),
{
    reveal_strlit("=");
    reveal_strlit("Duration");
    reveal_strlit("Duration=");
    lemma_shortcut_field(p, 4, "Duration"@ + "="@);
    assert("Duration"@ + "="@ + trim(p.duration_ms@) =~= "Duration="@ + trim(p.duration_ms@));
}

/// The fields of a bare-name shortcut, in query order.
pub open spec fn shortcut_fields(p: ActionParams) -> Seq<(Seq<char>, Seq<char>)> {
    seq![
        ("Input"@, trim(p.input@)),
        ("Value"@, url_encode(trim(p.value@))),
        ("Channel"@, trim(p.channel@)),
        ("Mix"@, spec_mix_text(p.mix)),
        ("Duration"@, trim(p.duration_ms@)),
    ]
}

proof fn lemma_bare_command(p: ActionParams)
    requires
        trim(p.function_name@).len() > 0,
        !spec_shortcut_line_is_complete(trim(p.function_name@)),
    ensures
        spec_command_for(ActionKind::Shortcut, p) == Some(
            CommandView::Function {
                name: trim(p.function_name@),
                query: nonempty(spec_shortcut_query(p)),
            },
        ),
{
}

proof fn lemma_shortcut_field(p: ActionParams, i: int, key: Seq<char>)
    requires
        0 <= i < 5,
        shortcut_fields(p)[i].1.len() > 0,
        key == shortcut_fields(p)[i].0 + "="@,
    ensures
        has_piece(spec_shortcut_query(p), key + shortcut_fields(p)[i].1),
        nonempty(spec_shortcut_query(p)) == Some(spec_shortcut_query(p)),
{
    let ps = shortcut_fields(p);
    lemma_query_has_pair(ps, i);
    lemma_shortcut_keeps_piece(p, ps[i].0 + "="@ + ps[i].1, ps);
    assert(ps[i].0 + "="@ + ps[i].1 =~= key + ps[i].1);
}


/// Each fixed-function kind sends its own vMix function, with no query; the four
/// start/stop toggles send four different functions.
pub proof fn fixed_kinds_send_their_own_function(p: ActionParams)
    ensures
        spec_command_for(ActionKind::Recording, p) == Some(
            CommandView::Function { name: "StartStopRecording"@, query: None },
        ),
        spec_command_for(ActionKind::Streaming, p) == Some(
            CommandView::Function { name: "StartStopStreaming"@, query: None },
        ),
        spec_command_for(ActionKind::External, p) == Some(
            CommandView::Function { name: "StartStopExternal"@, query: None },
        ),
        spec_command_for(ActionKind::MultiCorder, p) == Some(
            CommandView::Function { name: "StartStopMultiCorder"@, query: None },
        ),
        spec_command_for(ActionKind::FadeToBlack, p) == Some(
            CommandView::Function { name: "FadeToBlack"@, query: None },
        ),
        spec_command_for(ActionKind::Fullscreen, p) == Some(
            CommandView::Function { name: "Fullscreen"@, query: None },
        ),
        spec_command_for(ActionKind::Program, p) matches Some(CommandView::Function { name, .. })
            && name == "ActiveInput"@,
        spec_command_for(ActionKind::Preview, p) matches Some(CommandView::Function { name, .. })
            && name == "PreviewInput"@,
        spec_command_for(ActionKind::BusSend, p) matches Some(CommandView::Function { name, .. })
            && name == "AudioBus"@,
        spec_command_for(ActionKind::Play, p) matches Some(CommandView::Function { name, .. })
            && name == "PlayPause"@,
        "StartStopRecording"@ != "StartStopStreaming"@,
        "StartStopRecording"@ != "StartStopExternal"@,
        "StartStopRecording"@ != "StartStopMultiCorder"@,
        "StartStopStreaming"@ != "StartStopExternal"@,
        "StartStopStreaming"@ != "StartStopMultiCorder"@,
        "StartStopExternal"@ != "StartStopMultiCorder"@,
{
    reveal_strlit("");
    reveal_strlit("StartStopRecording");
    reveal_strlit("StartStopStreaming");
    reveal_strlit("StartStopExternal");
    reveal_strlit("StartStopMultiCorder");
    assert("StartStopRecording"@[9] != "StartStopStreaming"@[9]);
    assert("StartStopRecording"@.len() != "StartStopExternal"@.len());
    assert("StartStopRecording"@.len() != "StartStopMultiCorder"@.len());
    assert("StartStopStreaming"@.len() != "StartStopExternal"@.len());
    assert("StartStopStreaming"@.len() != "StartStopMultiCorder"@.len());
    assert("StartStopExternal"@.len() != "StartStopMultiCorder"@.len());
}

/// Program and preview keys send their input and, for any mix but Main, the
/// mix one lower than the user mix: `Input=<input>&Mix=<m-1>`, and only
/// `Input=<input>` on Main.
pub proof fn switcher_commands_address_their_mix(p: ActionParams)
    requires
        trim(p.input@).len() > 0,
    ensures
        spec_command_for(ActionKind::Program, p) == Some(
            CommandView::Function {
                name: "ActiveInput"@,
                query: Some(
                    if p.mix == 0 {
                        "Input="@ + trim(p.input@)
                    } else {
                        "Input="@ + trim(p.input@) + "&Mix="@ + dec((p.mix - 1) as nat)
                    },
                ),
            },
        ),
        spec_command_for(ActionKind::Preview, p) == Some(
            CommandView::Function {
                name: "PreviewInput"@,
                query: Some(
                    if p.mix == 0 {
                        "Input="@ + trim(p.input@)
                    } else {
                        "Input="@ + trim(p.input@) + "&Mix="@ + dec((p.mix - 1) as nat)
                    },
                ),
            },
        ),
{
    lemma_input_mix_query(trim(p.input@), p.mix);
}

/// The query `Input=<input>` followed, for any mix but Main, by `&Mix=<m-1>`.
proof fn lemma_input_mix_query(input: Seq<char>, mix: u8)
    requires
        input.len() > 0,
    ensures
        spec_join_query(seq![("Input"@, input), ("Mix"@, spec_mix_text(mix))]) == if mix == 0 {
            "Input="@ + input
        } else {
            "Input="@ + input + "&Mix="@ + dec((mix - 1) as nat)
        },
{
    reveal_strlit("=");
    reveal_strlit("&");
    reveal_strlit("Mix");
    reveal_strlit("Input");
    reveal_strlit("Input=");
    reveal_strlit("&Mix=");
    let ps = seq![("Input"@, input), ("Mix"@, spec_mix_text(mix))];
    assert(ps.drop_last() =~= seq![("Input"@, input)]);
    assert(seq![("Input"@, input)].drop_last() =~= Seq::<(Seq<char>, Seq<char>)>::empty());
    let first = "Input"@ + "="@ + input;
    assert(first =~= "Input="@ + input);
    assert(query_parts(Seq::<(Seq<char>, Seq<char>)>::empty()) =~= Seq::<Seq<char>>::empty());
    assert(seq![("Input"@, input)].last() == ("Input"@, input));
    assert(query_parts(seq![("Input"@, input)]) =~= seq![first]);
    if mix == 0 {
        assert(query_parts(ps) =~= seq![first]);
        assert(join_with(seq![first], "&"@) == first);
    } else {
        let m = "Mix"@ + "="@ + dec((mix - 1) as nat);
        assert(ps.last() == ("Mix"@, dec((mix - 1) as nat)));
        assert(query_parts(ps) =~= seq![first, m]);
        assert(seq![first, m].drop_last() =~= seq![first]);
        assert(seq![first, m].last() == m);
        assert(join_with(seq![first], "&"@) == first);
        assert(join_with(seq![first, m], "&"@) == first + "&"@ + m);
        assert(first + "&"@ + m =~= "Input="@ + input + "&Mix="@ + dec((mix - 1) as nat));
        assert(dec((mix - 1) as nat).len() > 0);
    }
}

/// A play key shows whether vMix reports its input playing, and nothing else:
/// the input's audio or any other map does not light it.
pub proof fn play_key_shows_whether_its_input_plays(p: ActionParams, v: VmixStateView, input: u16, on: bool)
    ensures
        spec_resolve_input(v.inputs, p.input@) == Some(input) ==> spec_segment_for(
            ActionKind::Play,
            p,
            v,
            true,
        ) == if v.input_playing.contains_key(input) && v.input_playing[input] {
            SegmentState::Active
        } else {
            SegmentState::Inactive
        },
        spec_resolve_input(v.inputs, p.input@) is None ==> spec_segment_for(ActionKind::Play, p, v, true)
            == SegmentState::Inactive,
        spec_resolve_input(v.inputs, p.input@) == Some(input) ==> spec_segment_for(
            ActionKind::Play,
            p,
            spec_apply_acts(v, Activator::InputPlaying { input, on }),
            true,
        ) == if on {
            SegmentState::Active
        } else {
            SegmentState::Inactive
        },
{
}

/// Each on/off key shows its own flag of the cached state, and after vMix reports
/// that flag the key shows exactly what was reported.
pub proof fn flag_keys_show_their_own_flag(p: ActionParams, v: VmixStateView, on: bool)
    ensures
        spec_segment_for(ActionKind::Recording, p, v, true) == spec_flag(v.recording),
        spec_segment_for(ActionKind::Streaming, p, v, true) == spec_flag(v.streaming),
        spec_segment_for(ActionKind::External, p, v, true) == spec_flag(v.external),
        spec_segment_for(ActionKind::FadeToBlack, p, v, true) == spec_flag(v.fade_to_black),
        spec_segment_for(ActionKind::Fullscreen, p, v, true) == spec_flag(v.fullscreen),
        spec_segment_for(ActionKind::MultiCorder, p, v, true) == spec_flag(v.multi_corder),
        spec_segment_for(ActionKind::Replay, p, v, true) == spec_flag(v.replay_playing),
        spec_segment_for(ActionKind::Recording, p, spec_apply_acts(v, Activator::Recording { on }), true)
            == spec_flag(on),
        spec_segment_for(ActionKind::Streaming, p, spec_apply_acts(v, Activator::Streaming { on }), true)
            == spec_flag(on),
        spec_segment_for(ActionKind::External, p, spec_apply_acts(v, Activator::External { on }), true)
            == spec_flag(on),
        spec_segment_for(
            ActionKind::FadeToBlack,
            p,
            spec_apply_acts(v, Activator::FadeToBlack { on }),
            true,
        ) == spec_flag(on),
        spec_segment_for(ActionKind::Fullscreen, p, spec_apply_acts(v, Activator::Fullscreen { on }), true)
            == spec_flag(on),
        spec_segment_for(ActionKind::Replay, p, spec_apply_acts(v, Activator::ReplayPlaying { on }), true)
            == spec_flag(on),
        spec_segment_for(ActionKind::Streaming, p, spec_apply_acts(v, Activator::Recording { on }), true)
            == spec_flag(v.streaming),
        spec_segment_for(ActionKind::Recording, p, spec_apply_acts(v, Activator::Streaming { on }), true)
            == spec_flag(v.recording),
        spec_flag(true) == SegmentState::Active,
        spec_flag(false) == SegmentState::Inactive,
{
}


/// Audio keys follow the audio state of what they address: a mute key lights
/// while the master, its bus, or its input is reported silent; a solo key while
/// its bus or input is reported soloed; after vMix reports the input's solo the
/// solo key shows exactly that.
pub proof fn audio_keys_follow_their_target(p: ActionParams, v: VmixStateView, input: u16, on: bool)
    ensures
        p.audio_target@ == "master"@ ==> spec_segment_for(ActionKind::Mute, p, v, true) == if v.master_audio {
            SegmentState::Inactive
        } else {
            SegmentState::Active
        },
        p.audio_target@ != "master"@ && p.audio_target@ != "bus"@ && spec_resolve_input(v.inputs, p.input@)
            == Some(input) ==> spec_segment_for(ActionKind::Mute, p, v, true) == if v.input_audio.contains_key(
            input,
        ) && !v.input_audio[input] {
            SegmentState::Active
        } else {
            SegmentState::Inactive
        },
        p.audio_target@ != "bus"@ && spec_resolve_input(v.inputs, p.input@) == Some(input)
            ==> spec_segment_for(ActionKind::Solo, p, v, true) == if v.input_solo.contains_key(input)
            && v.input_solo[input] {
            SegmentState::Active
        } else {
            SegmentState::Inactive
        },
        p.audio_target@ != "bus"@ && spec_resolve_input(v.inputs, p.input@) == Some(input)
            ==> spec_segment_for(
            ActionKind::Solo,
            p,
            spec_apply_acts(v, Activator::InputSolo { input, on }),
            true,
        ) == if on {
            SegmentState::Active
        } else {
            SegmentState::Inactive
        },
{
}

/// The dial sends the percent it is given to what it addresses: the master
/// volume, its bus, or its input.
pub proof fn volume_commands_set_the_addressed_volume(p: ActionParams, percent: u8)
    ensures
        p.audio_target@ == "master"@ ==> spec_volume_command(p, percent) == (CommandView::Function {
            name: "SetMasterVolume"@,
            query: Some("Value="@ + dec(percent as nat)),
        }),
        p.audio_target@ == "bus"@ ==> spec_volume_command(p, percent) == (CommandView::Function {
            name: "SetBus"@ + seq![spec_bus_letter(p.bus@)] + "Volume"@,
            query: Some("Value="@ + dec(percent as nat)),
        }),
        p.audio_target@ != "master"@ && p.audio_target@ != "bus"@ ==> (spec_volume_command(p, percent)
            matches CommandView::Function { name, query: Some(q) } && name == "SetVolume"@
            && has_piece(q, "Value="@ + dec(percent as nat))),
{
    reveal_strlit("Value=");
    reveal_strlit("Value");
    reveal_strlit("=");
    reveal_strlit("master");
    reveal_strlit("bus");
    assert("master"@ != "bus"@) by {
        assert("master"@.len() != "bus"@.len());
    }
    assert(dec(percent as nat).len() > 0);
    if p.audio_target@ != "master"@ && p.audio_target@ != "bus"@ {
        let ps = seq![("Value"@, dec(percent as nat)), ("Input"@, trim(p.input@))];
        lemma_query_has_pair(ps, 0);
        assert("Value"@ + "="@ + dec(percent as nat) =~= "Value="@ + dec(percent as nat));
    }
}

/// The dial's title is the volume level of what it addresses, in percent.
pub proof fn volume_title_is_the_addressed_level(p: ActionParams, v: VmixStateView, input: u16)
    ensures
        p.audio_target@ == "master"@ ==> spec_title_for(ActionKind::Volume, p, v) == dec(
            v.master_volume as nat,
        ),
        p.audio_target@ != "master"@ && p.audio_target@ != "bus"@ && spec_resolve_input(v.inputs, p.input@)
            == Some(input) && v.input_volume.contains_key(input) ==> spec_title_for(
            ActionKind::Volume,
            p,
            v,
        ) == dec(v.input_volume[input] as nat),
{
}

/// The activator names vMix reports reach the keys that show them, and not the
/// keys of other flags.
pub proof fn activator_names_reach_their_keys(on: bool, input: u16, percent: u8)
    ensures
        spec_event_affects(ActionKind::Recording, spec_activator_name(Activator::Recording { on })),
        !spec_event_affects(ActionKind::Streaming, spec_activator_name(Activator::Recording { on })),
        spec_event_affects(ActionKind::Streaming, spec_activator_name(Activator::Streaming { on })),
        !spec_event_affects(ActionKind::Recording, spec_activator_name(Activator::Streaming { on })),
        spec_event_affects(ActionKind::External, spec_activator_name(Activator::External { on })),
        spec_event_affects(ActionKind::FadeToBlack, spec_activator_name(Activator::FadeToBlack { on })),
        spec_event_affects(ActionKind::Fullscreen, spec_activator_name(Activator::Fullscreen { on })),
        spec_event_affects(ActionKind::Replay, spec_activator_name(Activator::ReplayPlaying { on })),
        spec_event_affects(ActionKind::Play, spec_activator_name(Activator::InputPlaying { input, on })),
        spec_event_affects(ActionKind::Mute, spec_activator_name(Activator::InputAudio { input, on })),
        spec_event_affects(ActionKind::Mute, spec_activator_name(Activator::MasterAudio { on })),
        spec_event_affects(ActionKind::Solo, spec_activator_name(Activator::InputSolo { input, on })),
        spec_event_affects(ActionKind::Volume, spec_activator_name(Activator::InputVolume { input, percent })),
        spec_event_affects(ActionKind::Volume, spec_activator_name(Activator::MasterVolume { percent })),
{
    reveal_strlit("Recording");
    reveal_strlit("Streaming");
    reveal_strlit("InputSolo");
    reveal_strlit("Solo");
    reveal_strlit("InputVolume");
    reveal_strlit("MasterVolume");
    reveal_strlit("Volume");
    assert("InputSolo"@.subrange(5, 9) =~= "Solo"@);
    assert("Recording"@[0] != "Streaming"@[0]);
    assert("InputVolume"@.subrange(5, 11) =~= "Volume"@);
    assert("MasterVolume"@.subrange(6, 12) =~= "Volume"@);
}

} // verus!
