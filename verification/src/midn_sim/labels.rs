//! The labels under which the gNodeB and its UEs report.

use vstd::prelude::*;
use vstd::string::StringExecFns;

use crate::text::{append_decimal, decimal_text, decimal_texts_are_separate};

verus! {

/// The label of the connection: that of the UE where there is only one.
pub open spec fn connection_label(n_ues: u32) -> Seq<char> {
    if n_ues == 1 {
        "[UE ]"@
    } else {
        "[gNB]"@
    }
}

/// The label of a UE: numbered from 1, unless there is only one.
pub open spec fn label_of(n_ues: u32, index: u32) -> Seq<char> {
    if n_ues == 1 {
        "[UE ]"@
    } else {
        "[UE"@ + decimal_text((index + 1) as nat) + "]"@
    }
}

pub fn gnb_label(n_ues: u32) -> (label: &'static str)
    ensures
        label@ == connection_label(n_ues),
{
    if n_ues == 1 {
        "[UE ]"
    } else {
        "[gNB]"
    }
}

pub fn ue_label(n_ues: u32, index: u32) -> (label: String)
    ensures
        label@ == label_of(n_ues, index),
{
    if n_ues == 1 {
        return "[UE ]".to_owned();
    }
    let mut label = "[UE".to_owned();
    append_decimal(&mut label, index as u64 + 1);
    label.append("]");
    label
}

/// UEs of different numbers have different labels.
pub proof fn labels_are_separate(n_ues: u32, a: u32, b: u32)
    requires
        n_ues != 1,
        label_of(n_ues, a) == label_of(n_ues, b),
    ensures
        a == b,
{
    reveal_strlit("[UE");
    reveal_strlit("]");
    let x = decimal_text((a + 1) as nat);
    let y = decimal_text((b + 1) as nat);
    let s = label_of(n_ues, a);
    assert(s.subrange(3, s.len() - 1) =~= x);
    assert(s.subrange(3, s.len() - 1) =~= y);
    decimal_texts_are_separate((a + 1) as nat, (b + 1) as nat);
}

} // verus!
