//! How a NAS security context shows itself: without its keys.

use vstd::prelude::*;
use vstd::string::StringExecFns;

use crate::nas::ie::{NasEeaAlgorithm, NasEiaAlgorithm};
use crate::nas::security::NasSecurityContextView;
use crate::text::{append_decimal, decimal_text};

verus! {

pub open spec fn eea_name(a: NasEeaAlgorithm) -> Seq<char> {
    match a {
        NasEeaAlgorithm::Eea0 => "Eea0"@,
        NasEeaAlgorithm::Eea1 => "Eea1"@,
        NasEeaAlgorithm::Eea2 => "Eea2"@,
        NasEeaAlgorithm::Eea3 => "Eea3"@,
    }
}

pub open spec fn eia_name(a: NasEiaAlgorithm) -> Seq<char> {
    match a {
        NasEiaAlgorithm::Eia0 => "Eia0"@,
        NasEiaAlgorithm::Eia1 => "Eia1"@,
        NasEiaAlgorithm::Eia2 => "Eia2"@,
        NasEiaAlgorithm::Eia3 => "Eia3"@,
    }
}

/// Algorithms and COUNTs, with the keys left out.
pub open spec fn shown(eea: NasEeaAlgorithm, eia: NasEiaAlgorithm, dl_count: u32, ul_count: u32) -> Seq<char> {
    "NasSecurityContext { eea: "@ + eea_name(eea) + ", eia: "@ + eia_name(eia) + ", dl_count: "@ + decimal_text(
        dl_count as nat,
    ) + ", ul_count: "@ + decimal_text(ul_count as nat)
        + ", k_nas_enc: \"[REDACTED]\", k_nas_int: \"[REDACTED]\" }"@
}

/// A context as text.
pub open spec fn context_text(c: NasSecurityContextView) -> Seq<char> {
    shown(c.eea, c.eia, c.dl_count, c.ul_count)
}

fn eea_text(a: NasEeaAlgorithm) -> (text: &'static str)
    ensures
        text@ == eea_name(a),
{
    match a {
        NasEeaAlgorithm::Eea0 => "Eea0",
        NasEeaAlgorithm::Eea1 => "Eea1",
        NasEeaAlgorithm::Eea2 => "Eea2",
        NasEeaAlgorithm::Eea3 => "Eea3",
    }
}

fn eia_text(a: NasEiaAlgorithm) -> (text: &'static str)
    ensures
        text@ == eia_name(a),
{
    match a {
        NasEiaAlgorithm::Eia0 => "Eia0",
        NasEiaAlgorithm::Eia1 => "Eia1",
        NasEiaAlgorithm::Eia2 => "Eia2",
        NasEiaAlgorithm::Eia3 => "Eia3",
    }
}

pub(crate) fn describe(eea: NasEeaAlgorithm, eia: NasEiaAlgorithm, dl_count: u32, ul_count: u32) -> (text: String)
    ensures
        text@ == shown(eea, eia, dl_count, ul_count),
{
    let mut text = "NasSecurityContext { eea: ".to_owned();
    text.append(eea_text(eea));
    text.append(", eia: ");
    text.append(eia_text(eia));
    text.append(", dl_count: ");
    append_decimal(&mut text, dl_count as u64);
    text.append(", ul_count: ");
    append_decimal(&mut text, ul_count as u64);
    text.append(", k_nas_enc: \"[REDACTED]\", k_nas_int: \"[REDACTED]\" }");
    text
}

/// Contexts that differ in their keys alone show themselves alike.
pub proof fn keys_are_not_shown(c: NasSecurityContextView, k_nas_enc: Seq<u8>, k_nas_int: Seq<u8>)
    ensures
        context_text(NasSecurityContextView { k_nas_enc, k_nas_int, ..c }) == context_text(c),
{
}

} // verus!
