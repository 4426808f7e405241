//! Form helpers shared by the playground shell.
use vstd::prelude::*;

use crate::text::str_eq;

verus! {

/// The form that a form selector toggles to: `protobuf` becomes `yaml`, and
/// anything else becomes `protobuf`.
pub open spec fn toggled_form(form: Seq<char>) -> Seq<char> {
    if form == "protobuf"@ {
        "yaml"@
    } else {
        "protobuf"@
    }
}

pub fn other_form(form: &str) -> (r: &'static str)
    ensures
        r@ == toggled_form(form@),
{
    if str_eq(form, "protobuf") {
        "yaml"
    } else {
        "protobuf"
    }
}

/// Toggling a valid form twice gives it back.
pub proof fn law_other_form_involution(form: Seq<char>)
    requires
        form == "yaml"@ || form == "protobuf"@,
    ensures
        toggled_form(toggled_form(form)) == form,
{
    reveal_strlit("yaml");
    reveal_strlit("protobuf");
    assert("yaml"@.len() != "protobuf"@.len());
}

} // verus!
