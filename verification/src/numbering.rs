//! vMix numbers the same mix three different ways.
//!
//! The UI and ACTS suffix use Main / Mix 2..=16. The TCP `Mix=` argument and the
//! `vmix/mix[n]` index are one lower: Main omits `Mix=` and is `mix[0]`, Mix 2 is
//! `Mix=1` and `mix[1]`, Mix 16 is `Mix=15` and `mix[15]`.

use vstd::prelude::*;
use vstd::string::*;
use crate::text::{dec, owned, push_decimal};

verus! {

/// The TCP `Mix=` value for a user mix: none for Main, one lower otherwise.
pub open spec fn spec_tcp_mix_value(user_mix: u8) -> Option<u8> {
    if user_mix == 0 {
        None
    } else {
        Some((user_mix - 1) as u8)
    }
}

/// `None` for Main. Mix 2 becomes `Some(1)`, Mix 16 becomes `Some(15)`.
pub fn tcp_mix_value(user_mix: u8) -> (r: Option<u8>)
    ensures
        r == spec_tcp_mix_value(user_mix),
{
    if user_mix == 0 {
        None
    } else {
        Some(user_mix - 1)
    }
}

/// Name of the ACTS program activator for a user mix.
pub open spec fn spec_acts_program_name(user_mix: u8) -> Seq<char> {
    if user_mix == 0 {
        "Input"@
    } else {
        "InputMix"@ + dec(user_mix as nat)
    }
}

/// Name of the ACTS preview activator for a user mix.
pub open spec fn spec_acts_preview_name(user_mix: u8) -> Seq<char> {
    if user_mix == 0 {
        "InputPreview"@
    } else {
        "InputPreviewMix"@ + dec(user_mix as nat)
    }
}

/// ACTS program activator. Main is `Input`. Mix 2 is `InputMix2`.
pub fn acts_program_name(user_mix: u8) -> (r: String)
    ensures
        r@ == spec_acts_program_name(user_mix),
{
    if user_mix == 0 {
        owned("Input")
    } else {
        let mut s = owned("InputMix");
        push_decimal(&mut s, user_mix as u64);
        s
    }
}

/// ACTS preview activator. Main is `InputPreview`. Mix 2 is `InputPreviewMix2`.
pub fn acts_preview_name(user_mix: u8) -> (r: String)
    ensures
        r@ == spec_acts_preview_name(user_mix),
{
    if user_mix == 0 {
        owned("InputPreview")
    } else {
        let mut s = owned("InputPreviewMix");
        push_decimal(&mut s, user_mix as u64);
        s
    }
}

/// Zero-based index of a user mix in the XML snapshot.
pub open spec fn spec_xml_mix_index(user_mix: u8) -> u8 {
    if user_mix == 0 {
        0
    } else {
        (user_mix - 1) as u8
    }
}

/// Zero-based `vmix/mix[n]` index. Main is 0, Mix 2 is 1, Mix 16 is 15.
pub fn xml_mix_index(user_mix: u8) -> (r: u8)
    ensures
        r == spec_xml_mix_index(user_mix),
{
    if user_mix == 0 {
        0
    } else {
        user_mix - 1
    }
}

/// XPath of a user mix in the XML snapshot.
pub open spec fn spec_xml_mix_path(user_mix: u8) -> Seq<char> {
    "vmix/mix["@ + dec(spec_xml_mix_index(user_mix) as nat) + "]"@
}

pub fn xml_mix_path(user_mix: u8) -> (r: String)
    ensures
        r@ == spec_xml_mix_path(user_mix),
{
    let mut s = owned("vmix/mix[");
    push_decimal(&mut s, xml_mix_index(user_mix) as u64);
    s.append("]");
    s
}


/// The three numberings agree: Main has no `Mix=` value and is `mix[0]`; every
/// other user mix is one lower in both the TCP value and the XML index, and
/// its ACTS names end in the user number.
pub proof fn mix_numberings_agree(user_mix: u8)
    requires
        user_mix == 0 || 2 <= user_mix <= 16,
    ensures
        user_mix == 0 ==> spec_tcp_mix_value(user_mix) is None && spec_xml_mix_index(user_mix) == 0,
        user_mix != 0 ==> spec_tcp_mix_value(user_mix) == Some(spec_xml_mix_index(user_mix))
            && spec_xml_mix_index(user_mix) == user_mix - 1,
        user_mix != 0 ==> spec_acts_program_name(user_mix) == "InputMix"@ + dec(user_mix as nat)
            && spec_acts_preview_name(user_mix) == "InputPreviewMix"@ + dec(user_mix as nat),
{
}

} // verus!
