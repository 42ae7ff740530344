//! Key faces: segment states, the hardware on/off state and the pieces of the key image.

use base64::engine::general_purpose::STANDARD;
use base64::Engine;
use vstd::prelude::*;
use vstd::string::*;
use vstd::utf8::encode_utf8;
use crate::kind::ActionKind;
use crate::text::{is_whitespace, is_ws, owned, push_char};

verus! {

#[derive(Clone, Copy, Debug, PartialEq, Eq, Structural)]
pub enum SegmentState {
    Active,
    Inactive,
    Intermediate,
    Neutral,
    Unavailable,
}

/// One coloured bar of a key: the state of one target instance.
#[derive(Clone, Debug)]
pub struct Segment {
    pub label: String,
    pub color: String,
    pub state: SegmentState,
}

/// Every segment is active, and there is at least one.
pub open spec fn all_active(states: Seq<SegmentState>) -> bool {
    states.len() > 0 && forall|i: int| 0 <= i < states.len() ==> states[i] is Active
}

/// Stream Deck state index: `0` (on) only when every segment is active.
pub fn hardware_state(states: &[SegmentState]) -> (r: i32)
    ensures
        r == (if all_active(states@) { 0i32 } else { 1i32 }),
{
    let mut any = false;
    let mut all = true;
    let mut i: usize = 0;
    while i < states.len()
        invariant
            i <= states@.len(),
            any == (i > 0),
            all == forall|k: int| 0 <= k < i ==> states@[k] is Active,
        decreases states@.len() - i,
    {
        any = true;
        if states[i] != SegmentState::Active {
            all = false;
        }
        i = i + 1;
    }
    if any && all {
        0
    } else {
        1
    }
}

/// Fill colour of a segment bar.
pub open spec fn spec_fill_for(segment: Segment) -> Seq<char> {
    match segment.state {
        SegmentState::Active | SegmentState::Neutral => segment.color@,
        SegmentState::Inactive => "#2a3140"@,
        SegmentState::Intermediate => "#d08a2f"@,
        SegmentState::Unavailable => "#3a241f"@,
    }
}

pub fn fill_for(segment: &Segment) -> (r: String)
    ensures
        r@ == spec_fill_for(*segment),
{
    match segment.state {
        SegmentState::Active | SegmentState::Neutral => segment.color.clone(),
        SegmentState::Inactive => owned("#2a3140"),
        SegmentState::Intermediate => owned("#d08a2f"),
        SegmentState::Unavailable => owned("#3a241f"),
    }
}

/// What `char::to_uppercase` yields for a character.
pub uninterp spec fn char_uppercase(c: char) -> Seq<char>;

/// Upper-cases one character with `char::to_uppercase`.
///
/// Trusted: the result is `char_uppercase(c)`; for an ASCII letter it is the
/// upper-case letter, and any other ASCII character maps to itself.
#[verifier::external_body]
fn uppercase(c: char) -> (r: String)
    ensures
        r@ == char_uppercase(c),
        ('a' <= c && c <= 'z') ==> r@ == seq![((c as u32) - 32) as char],
        ((c as u32) < 128 && !('a' <= c && c <= 'z')) ==> r@ == seq![c],
{
    c.to_uppercase().collect()
}

/// The label's first non-blank character upper-cased, or `?` for a blank label.
pub open spec fn spec_initial(label: Seq<char>) -> Seq<char> {
    if exists|i: int| 0 <= i < label.len() && !is_ws(label[i]) {
        let i = choose|i: int|
            0 <= i < label.len() && !is_ws(label[i]) && forall|k: int| 0 <= k < i ==> is_ws(label[k]);
        char_uppercase(label[i])
    } else {
        "?"@
    }
}

pub fn initial(label: &str) -> (r: String)
    ensures
        r@ == spec_initial(label@),
{
    let n = label.unicode_len();
    let mut i: usize = 0;
    while i < n
        invariant
            n == label@.len(),
            i <= n,
            forall|k: int| 0 <= k < i ==> is_ws(label@[k]),
        decreases n - i,
    {
        let c = label.get_char(i);
        if !is_whitespace(c) {
            proof {
                let j = choose|j: int|
                    0 <= j < label@.len() && !is_ws(label@[j]) && forall|k: int|
                        0 <= k < j ==> is_ws(label@[k]);
                if j < i {
                    assert(is_ws(label@[j]));
                } else if j > i {
                    assert(is_ws(label@[i as int]));
                }
            }
            return uppercase(c);
        }
        i = i + 1;
    }
    owned("?")
}

/// One character with the XML-significant `&`, `<` and `>` escaped.
pub open spec fn escape_char(c: char) -> Seq<char> {
    if c == '&' {
        "&amp;"@
    } else if c == '<' {
        "&lt;"@
    } else if c == '>' {
        "&gt;"@
    } else {
        seq![c]
    }
}

/// `s` with every `&`, `<` and `>` escaped for SVG text.
pub open spec fn spec_escape(s: Seq<char>) -> Seq<char>
    decreases s.len(),
{
    if s.len() == 0 {
        seq![]
    } else {
        spec_escape(s.drop_last()) + escape_char(s.last())
    }
}

pub fn escape(text: &str) -> (r: String)
    ensures
        r@ == spec_escape(text@),
{
    let n = text.unicode_len();
    let mut out = String::new();
    let mut i: usize = 0;
    while i < n
        invariant
            n == text@.len(),
            i <= n,
            out@ == spec_escape(text@.subrange(0, i as int)),
        decreases n - i,
    {
        let c = text.get_char(i);
        assert(text@.subrange(0, i + 1).drop_last() =~= text@.subrange(0, i as int));
        if c == '&' {
            out.append("&amp;");
        } else if c == '<' {
            out.append("&lt;");
        } else if c == '>' {
            out.append("&gt;");
        } else {
            push_char(&mut out, c);
        }
        i = i + 1;
    }
    assert(text@.subrange(0, n as int) =~= text@);
    out
}

/// SVG path data of the icon drawn for each kind.
pub open spec fn spec_icon_path(kind: ActionKind) -> Seq<char> {
    match kind {
        ActionKind::Program => "<rect x=\"8\" y=\"16\" width=\"48\" height=\"32\" rx=\"4\"/>"@,
        ActionKind::Preview => "<rect x=\"8\" y=\"16\" width=\"48\" height=\"32\" rx=\"4\"/><path d=\"M20 32h24\"/>"@,
        ActionKind::Transition => "<path d=\"M12 40h40M32 16v24\"/>"@,
        ActionKind::Stinger => "<path d=\"M16 40l16-24 16 24\"/>"@,
        ActionKind::FadeToBlack => "<rect x=\"12\" y=\"16\" width=\"40\" height=\"32\"/>"@,
        ActionKind::Overlay => "<rect x=\"8\" y=\"20\" width=\"28\" height=\"20\"/><rect x=\"28\" y=\"12\" width=\"28\" height=\"20\"/>"@,
        ActionKind::Recording => "<circle cx=\"32\" cy=\"32\" r=\"14\"/>"@,
        ActionKind::Streaming => "<path d=\"M8 18h28l10 10V18h10v28H8z\"/>"@,
        ActionKind::External => "<path d=\"M16 40V20h32v20M24 20v12h16\"/>"@,
        ActionKind::MultiCorder => "<rect x=\"8\" y=\"16\" width=\"18\" height=\"14\"/><rect x=\"30\" y=\"16\" width=\"18\" height=\"14\"/><rect x=\"8\" y=\"34\" width=\"18\" height=\"14\"/><rect x=\"30\" y=\"34\" width=\"18\" height=\"14\"/>"@,
        ActionKind::Fullscreen => "<path d=\"M12 24V12h12M52 12v12M52 40v12H40M12 40v12h12\"/>"@,
        ActionKind::Replay => "<path d=\"M16 32a16 16 0 1 0 4-10M16 14v10h10\"/>"@,
        ActionKind::Mute => "<path d=\"M16 24h10l14-10v36L26 40H16zM46 24l12 16M58 24L46 40\"/>"@,
        ActionKind::Solo => "<circle cx=\"32\" cy=\"32\" r=\"14\"/><path d=\"M32 22v20\"/>"@,
        ActionKind::BusSend => "<path d=\"M12 32h28M32 20l12 12-12 12\"/>"@,
        ActionKind::Play => "<path d=\"M20 16l28 16-28 16z\"/>"@,
        ActionKind::List => "<path d=\"M16 18h32M16 32h32M16 46h32\"/>"@,
        ActionKind::Title => "<path d=\"M12 20h40M20 20v24M44 20v24\"/>"@,
        ActionKind::Shortcut => "<path d=\"M16 40l12-24h8l12 24M22 32h20\"/>"@,
        ActionKind::Raw => "<path d=\"M20 16l-10 16 10 16M44 16l10 16-10 16\"/>"@,
        ActionKind::Volume => "<path d=\"M12 26h8l12-10v36L20 42h-8zM40 24a12 12 0 0 1 0 16\"/>"@,
    }
}

pub fn icon_path(kind: ActionKind) -> (r: &'static str)
    ensures
        r@ == spec_icon_path(kind),
{
    match kind {
        ActionKind::Program => "<rect x=\"8\" y=\"16\" width=\"48\" height=\"32\" rx=\"4\"/>",
        ActionKind::Preview => "<rect x=\"8\" y=\"16\" width=\"48\" height=\"32\" rx=\"4\"/><path d=\"M20 32h24\"/>",
        ActionKind::Transition => "<path d=\"M12 40h40M32 16v24\"/>",
        ActionKind::Stinger => "<path d=\"M16 40l16-24 16 24\"/>",
        ActionKind::FadeToBlack => "<rect x=\"12\" y=\"16\" width=\"40\" height=\"32\"/>",
        ActionKind::Overlay => "<rect x=\"8\" y=\"20\" width=\"28\" height=\"20\"/><rect x=\"28\" y=\"12\" width=\"28\" height=\"20\"/>",
        ActionKind::Recording => "<circle cx=\"32\" cy=\"32\" r=\"14\"/>",
        ActionKind::Streaming => "<path d=\"M8 18h28l10 10V18h10v28H8z\"/>",
        ActionKind::External => "<path d=\"M16 40V20h32v20M24 20v12h16\"/>",
        ActionKind::MultiCorder => "<rect x=\"8\" y=\"16\" width=\"18\" height=\"14\"/><rect x=\"30\" y=\"16\" width=\"18\" height=\"14\"/><rect x=\"8\" y=\"34\" width=\"18\" height=\"14\"/><rect x=\"30\" y=\"34\" width=\"18\" height=\"14\"/>",
        ActionKind::Fullscreen => "<path d=\"M12 24V12h12M52 12v12M52 40v12H40M12 40v12h12\"/>",
        ActionKind::Replay => "<path d=\"M16 32a16 16 0 1 0 4-10M16 14v10h10\"/>",
        ActionKind::Mute => "<path d=\"M16 24h10l14-10v36L26 40H16zM46 24l12 16M58 24L46 40\"/>",
        ActionKind::Solo => "<circle cx=\"32\" cy=\"32\" r=\"14\"/><path d=\"M32 22v20\"/>",
        ActionKind::BusSend => "<path d=\"M12 32h28M32 20l12 12-12 12\"/>",
        ActionKind::Play => "<path d=\"M20 16l28 16-28 16z\"/>",
        ActionKind::List => "<path d=\"M16 18h32M16 32h32M16 46h32\"/>",
        ActionKind::Title => "<path d=\"M12 20h40M20 20v24M44 20v24\"/>",
        ActionKind::Shortcut => "<path d=\"M16 40l12-24h8l12 24M22 32h20\"/>",
        ActionKind::Raw => "<path d=\"M20 16l-10 16 10 16M44 16l10 16-10 16\"/>",
        ActionKind::Volume => "<path d=\"M12 26h8l12-10v36L20 42h-8zM40 24a12 12 0 0 1 0 16\"/>",
    }
}

/// Character of the standard base64 alphabet for a six-bit value.
pub open spec fn b64_digit(v: int) -> char {
    if v < 26 {
        (('A' as int) + v) as char
    } else if v < 52 {
        (('a' as int) + v - 26) as char
    } else if v < 62 {
        (('0' as int) + v - 52) as char
    } else if v == 62 {
        '+'
    } else {
        '/'
    }
}

/// Standard base64 (RFC 4648 alphabet, `=` padding) of a byte sequence.
pub open spec fn base64_standard(b: Seq<u8>) -> Seq<char>
    decreases b.len(),
{
    let b0 = if b.len() > 0 { b[0] as int } else { 0 };
    let b1 = if b.len() > 1 { b[1] as int } else { 0 };
    let b2 = if b.len() > 2 { b[2] as int } else { 0 };
    if b.len() == 0 {
        seq![]
    } else if b.len() == 1 {
        seq![b64_digit(b0 / 4), b64_digit((b0 % 4) * 16), '=', '=']
    } else if b.len() == 2 {
        seq![b64_digit(b0 / 4), b64_digit((b0 % 4) * 16 + b1 / 16), b64_digit((b1 % 16) * 4), '=']
    } else {
        seq![
            b64_digit(b0 / 4),
            b64_digit((b0 % 4) * 16 + b1 / 16),
            b64_digit((b1 % 16) * 4 + b2 / 64),
            b64_digit(b2 % 64),
        ] + base64_standard(b.subrange(3, b.len() as int))
    }
}

/// Encodes bytes with base64's `STANDARD` engine.
///
/// Trusted: the result is the padded RFC 4648 encoding `base64_standard` of the bytes.
/// The engine panics when the encoded length overflows `usize`, which `requires` rules out.
#[verifier::external_body]
fn base64_encode(data: &[u8]) -> (r: String)
    requires
        data@.len() <= usize::MAX / 2,
    ensures
        r@ == base64_standard(data@),
{
    STANDARD.encode(data)
}

/// The `data:` URI that Stream Deck takes as a key image, for an SVG document.
pub open spec fn spec_svg_data_uri(svg: Seq<char>) -> Seq<char> {
    "data:image/svg+xml;base64,"@ + base64_standard(encode_utf8(svg))
}

pub fn svg_data_uri(svg: &str) -> (r: String)
    requires
        encode_utf8(svg@).len() <= usize::MAX / 2,
    ensures
        r@ == spec_svg_data_uri(svg@),
{
    let bytes = svg.as_bytes();
    let mut s = owned("data:image/svg+xml;base64,");
    let encoded = base64_encode(bytes);
    s.append(encoded.as_str());
    s
}

} // verus!
