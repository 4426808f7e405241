//! Decisions of the playground page: which window a URL hash opens, how an
//! operation's result is shown, which identity stays selected, and the steps
//! of switching the Compose and Decompose forms.
//!
//! The page itself (the DOM, timers and the YamlSigil runtime calls) performs
//! what these functions decide and hands the outcomes back.
use vstd::prelude::*;

use crate::identities::{short_alg, short_name, trunc_hex, truncated_hex};
use crate::ops::{OpResult, OpView};
use crate::tasks::command::texts;
use crate::text::{owned, push_str, str_eq, trim, trimmed};
use vstd::string::*;
use vstd::utf8::*;

verus! {

/// The windows of the page, by the name used in the URL hash.
pub const WINDOWS: [&'static str; 6] = ["validate", "identity", "sign", "verify", "decompose", "compose"];

/// Milliseconds between the last edit and a live re-run.
pub const LIVE_DELAY_MS: i32 = 90;

/// The identity selected when the page opens.
pub const DEFAULT_IDENTITY: &'static str = "alice";

/// The id of the "new identity" row.
pub const NEW_IDENTITY_ID: &'static str = "__new__";

/// The document the Validate and Sign boxes start with.
pub const SAMPLE_YAML: &'static str = "# A supply-wagon manifest\nclaim: ridge-line cache\nseason: 2026\nstores:\n  - pemmican\n  - lamp oil\n";

// ---------------------------------------------------------------------------
// Routing by URL hash.
// ---------------------------------------------------------------------------

/// `s` without its leading `#` characters (`trim_start_matches('#')`).
pub open spec fn strip_hashes(s: Seq<char>) -> Seq<char>
    decreases s.len(),
{
    if s.len() > 0 && s[0] == '#' {
        strip_hashes(s.drop_first())
    } else {
        s
    }
}

pub open spec fn is_window(name: Seq<char>) -> bool {
    name == "validate"@ || name == "identity"@ || name == "sign"@ || name == "verify"@ || name
        == "decompose"@ || name == "compose"@
}

/// The window that a URL hash opens: the hash without leading `#` and
/// surrounding whitespace, when it names a window.
pub open spec fn window_of_hash(hash: Seq<char>) -> Option<Seq<char>> {
    let name = trim(strip_hashes(hash));
    if is_window(name) {
        Some(name)
    } else {
        None
    }
}

fn window_named(name: &str) -> (r: Option<&'static str>)
    ensures
        match r {
            Some(w) => is_window(name@) && w@ == name@,
            None => !is_window(name@),
        },
{
    if str_eq(name, "validate") {
        Some("validate")
    } else if str_eq(name, "identity") {
        Some("identity")
    } else if str_eq(name, "sign") {
        Some("sign")
    } else if str_eq(name, "verify") {
        Some("verify")
    } else if str_eq(name, "decompose") {
        Some("decompose")
    } else if str_eq(name, "compose") {
        Some("compose")
    } else {
        None
    }
}

/// The window to show for the URL hash; `None` shows the deck.
pub fn window_for_hash(hash: &str) -> (r: Option<&'static str>)
    ensures
        match r {
            Some(w) => window_of_hash(hash@) == Some(w@),
            None => window_of_hash(hash@) is None,
        },
{
    let chars = crate::text::chars_of(hash);
    let n = chars.len();
    let mut i: usize = 0;
    assert(chars@.subrange(0, n as int) == chars@);
    while i < n && chars[i] == '#'
        invariant
            i <= n == chars.len(),
            strip_hashes(hash@) == strip_hashes(chars@.subrange(i as int, n as int)),
        decreases n - i,
    {
        assert(chars@.subrange(i as int, n as int).drop_first() == chars@.subrange(i + 1, n as int));
        i = i + 1;
    }
    assert(strip_hashes(hash@) == chars@.subrange(i as int, n as int));
    let mut rest: Vec<char> = Vec::new();
    let mut k = i;
    while k < n
        invariant
            i <= k <= n == chars.len(),
            rest@ == chars@.subrange(i as int, k as int),
        decreases n - k,
    {
        rest.push(chars[k]);
        assert(chars@.subrange(i as int, k + 1) == chars@.subrange(i as int, k as int).push(chars@[k as int]));
        k = k + 1;
    }
    let name_chars = crate::text::trim_chars(&rest);
    let name = crate::text::string_from_chars(name_chars.as_slice());
    window_named(name.as_str())
}

/// The URL hash that opens `name`; the empty name clears the hash.
pub open spec fn hash_of(name: Seq<char>) -> Seq<char> {
    if name.len() == 0 {
        seq![]
    } else {
        "#"@ + name
    }
}

/// Whether the location's hash `current` must change to open `name`.
pub fn hash_needs_update(current: &str, name: &str) -> (r: bool)
    ensures
        r == (current@ != hash_of(name@)),
{
    let next = if name.is_empty() {
        String::new()
    } else {
        let mut h = owned("#");
        push_str(&mut h, name);
        h
    };
    proof {
        reveal_strlit("#");
    }
    !str_eq(current, next.as_str())
}

// ---------------------------------------------------------------------------
// Status lines.
// ---------------------------------------------------------------------------

/// Success statuses are `ok`, unsigned or unsupported ones `warn`, the rest `err`.
pub open spec fn level_of(status: Seq<char>) -> Seq<char> {
    if status == "success"@ || status == "ok"@ || status == "verified"@ {
        "ok"@
    } else if status == "unsigned"@ || status == "signed_but_algorithm_unsupported"@ {
        "warn"@
    } else {
        "err"@
    }
}

pub fn status_level(status: &str) -> (r: &'static str)
    ensures
        r@ == level_of(status@),
{
    if str_eq(status, "success") || str_eq(status, "ok") || str_eq(status, "verified") {
        "ok"
    } else if str_eq(status, "unsigned") || str_eq(status, "signed_but_algorithm_unsupported") {
        "warn"
    } else {
        "err"
    }
}

/// `<status>`, then ` / <code>` when there is a code, then ` · <algorithm>`
/// when the result names its algorithm.
pub open spec fn message_of(r: OpView) -> Seq<char> {
    r.0 + (match r.1 {
        Some(code) => " / "@ + code,
        None => seq![],
    }) + (if r.4.len() > 0 && r.3.len() > 0 && r.4 == "algorithm"@ {
        " · "@ + r.3
    } else {
        seq![]
    })
}

pub fn status_message(result: &OpResult) -> (r: String)
    ensures
        r@ == message_of(result@),
{
    let mut msg = result.status.clone();
    match &result.code {
        Some(code) => {
            push_str(&mut msg, " / ");
            push_str(&mut msg, code.as_str());
        },
        None => {},
    }
    if !result.extra_label.as_str().is_empty() && !result.extra.as_str().is_empty() && str_eq(result.extra_label.as_str(), "algorithm") {
        push_str(&mut msg, " · ");
        push_str(&mut msg, result.extra.as_str());
    }
    msg
}

/// The class of a status line: `status`, or `status <level>`.
pub open spec fn class_of(level: Seq<char>) -> Seq<char> {
    if level.len() == 0 {
        "status"@
    } else {
        "status "@ + level
    }
}

pub fn status_class(level: &str) -> (r: String)
    ensures
        r@ == class_of(level@),
{
    if level.is_empty() {
        return owned("status");
    }
    let mut c = owned("status ");
    push_str(&mut c, level);
    c
}

/// Whether the text is empty once trimmed.
pub fn is_blank(text: &str) -> (r: bool)
    ensures
        r == (trim(text@).len() == 0),
{
    trimmed(text).len() == 0
}

// ---------------------------------------------------------------------------
// Identities.
// ---------------------------------------------------------------------------

/// After `deleted` leaves the roster: the selected and the current identity.
/// A deleted current identity falls back to the default one, and so does a
/// deleted selection that was also current; a deleted selection moves to the
/// current identity.
pub open spec fn selection_after_delete(deleted: Seq<char>, selected: Seq<char>, current: Seq<char>) -> (
    Seq<char>,
    Seq<char>,
) {
    let current_removed = current == deleted;
    let next_current = if current_removed {
        DEFAULT_IDENTITY@
    } else {
        current
    };
    let next_selected = if selected == deleted {
        next_current
    } else {
        selected
    };
    (next_selected, next_current)
}

pub fn after_delete(deleted: &str, selected: &str, current: &str) -> (r: (String, String))
    ensures
        (r.0@, r.1@) == selection_after_delete(deleted@, selected@, current@),
{
    let next_current = if str_eq(current, deleted) {
        owned(DEFAULT_IDENTITY)
    } else {
        owned(current)
    };
    let next_selected = if str_eq(selected, deleted) {
        next_current.clone()
    } else {
        owned(selected)
    };
    (next_selected, next_current)
}

/// The identity a working-identity select shows after it is refilled: the
/// current one if it is listed, else the previous choice if listed, else the
/// default identity.
pub open spec fn select_choice(ids: Seq<Seq<char>>, current: Seq<char>, previous: Seq<char>) -> Seq<char> {
    if ids.contains(current) {
        current
    } else if ids.contains(previous) {
        previous
    } else {
        DEFAULT_IDENTITY@
    }
}

fn listed(ids: &Vec<String>, id: &str) -> (r: bool)
    ensures
        r == texts(ids@).contains(id@),
{
    let mut k: usize = 0;
    while k < ids.len()
        invariant
            k <= ids.len(),
            forall|j: int| 0 <= j < k ==> ids@[j]@ != id@,
        decreases ids.len() - k,
    {
        if str_eq(ids[k].as_str(), id) {
            assert(texts(ids@)[k as int] == id@);
            return true;
        }
        k = k + 1;
    }
    assert forall|j: int| 0 <= j < texts(ids@).len() implies texts(ids@)[j] != id@ by {
        assert(texts(ids@)[j] == ids@[j]@);
    }
    false
}

pub fn select_fallback(ids: &Vec<String>, current: &str, previous: &str) -> (r: String)
    ensures
        r@ == select_choice(texts(ids@), current@, previous@),
{
    if listed(ids, current) {
        owned(current)
    } else if listed(ids, previous) {
        owned(previous)
    } else {
        owned(DEFAULT_IDENTITY)
    }
}

/// `<short algorithm> · <shortened public key>`, under an identity's name in lists.
pub fn identity_meta(algorithm: &str, public_hex: &str) -> (r: String)
    requires
        public_hex.spec_bytes().len() <= usize::MAX,
        public_hex.spec_bytes().len() > 12 ==> is_char_boundary(public_hex.spec_bytes(), 8)
            && is_char_boundary(public_hex.spec_bytes(), public_hex.spec_bytes().len() - 4),
    ensures
        r@ == short_name(algorithm@) + " · "@ + truncated_hex(public_hex.spec_bytes()),
{
    let mut r = owned(short_alg(algorithm));
    push_str(&mut r, " · ");
    let tail = trunc_hex(public_hex);
    push_str(&mut r, tail.as_str());
    r
}

/// `<label> · <short algorithm>`, as a working-identity option.
pub fn identity_option(label: &str, algorithm: &str) -> (r: String)
    ensures
        r@ == label@ + " · "@ + short_name(algorithm@),
{
    let mut r = owned(label);
    push_str(&mut r, " · ");
    push_str(&mut r, short_alg(algorithm));
    r
}

// ---------------------------------------------------------------------------
// Verify.
// ---------------------------------------------------------------------------

/// The Convert button shows when the artifact is not blank, is no signed
/// envelope in the selected form, and is one in the other form.
pub fn convert_visible(artifact: &str, signed_in_form: bool, signed_in_other: bool) -> (r: bool)
    ensures
        r == (trim(artifact@).len() > 0 && !signed_in_form && signed_in_other),
{
    !is_blank(artifact) && !signed_in_form && signed_in_other
}

/// A failed or unsupported verification is worth checking against the other identities.
pub open spec fn hint_applies_to(status: Seq<char>) -> bool {
    status == "signed_but_failed_verification"@ || status == "signed_but_algorithm_unsupported"@
}

pub fn hint_applies(status: &str) -> (r: bool)
    ensures
        r == hint_applies_to(status@),
{
    str_eq(status, "signed_but_failed_verification") || str_eq(status, "signed_but_algorithm_unsupported")
}

/// The status line with the name of another identity whose key verifies.
pub fn match_hint(line: &str, name: &str) -> (r: String)
    ensures
        r@ == line@ + " (but this does match "@ + name@ + "'s key)"@,
{
    let mut r = owned(line);
    push_str(&mut r, " (but this does match ");
    push_str(&mut r, name);
    push_str(&mut r, "'s key)");
    r
}

// ---------------------------------------------------------------------------
// Decompose outer conformance.
// ---------------------------------------------------------------------------

/// Whether the outer-conformance select is disabled, and its value, for a
/// form: protobuf enables it (`omit` becomes `strict`), yaml disables it at `omit`.
pub open spec fn outer_select_of(form: Seq<char>, value: Seq<char>) -> (bool, Seq<char>) {
    if form == "protobuf"@ {
        (
            false,
            if value == "omit"@ {
                "strict"@
            } else {
                value
            },
        )
    } else {
        (true, "omit"@)
    }
}

pub fn outer_select(form: &str, value: &str) -> (r: (bool, String))
    ensures
        (r.0, r.1@) == outer_select_of(form@, value@),
{
    if str_eq(form, "protobuf") {
        if str_eq(value, "omit") {
            (false, owned("strict"))
        } else {
            (false, owned(value))
        }
    } else {
        (true, owned("omit"))
    }
}

/// The outer conformance handed to decompose: the select's value unless `omit`.
pub fn outer_argument(value: Option<&str>) -> (r: Option<&str>)
    ensures
        match value {
            Some(v) => if v@ == "omit"@ {
                r is None
            } else {
                r == Some(v)
            },
            None => r is None,
        },
{
    match value {
        Some(v) => if str_eq(v, "omit") {
            None
        } else {
            Some(v)
        },
        None => None,
    }
}

// ---------------------------------------------------------------------------
// Switching the Compose form.
// ---------------------------------------------------------------------------

/// The steps of switching the Compose form from one form to the other.  YAML
/// compose joins payload, `---` and carrier, so a protobuf carrier would pass
/// as a YAML scalar; the envelope is transcoded instead.
#[derive(Clone, Copy, Debug, PartialEq, Eq, Structural)]
pub enum ComposeSwitch {
    /// Same form: refresh the protobuf view.
    Unchanged,
    /// Nothing to convert: keep the new form.
    Remember,
    /// Transcode the artifact from the old form to the new one.
    TranscodeArtifact,
    /// Compose payload and carrier in the old form.
    ComposePrevious,
    /// Transcode that composition to the new form.
    TranscodeComposed,
    /// Compose payload and carrier in the new form; it counts only as a signed
    /// envelope of the new form.
    ComposeNext,
    /// Show the last transcoding and the parts it decomposes into.
    ApplyTranscoded,
    /// Show the composition in the new form.
    UseComposed,
    /// Put the old form back and report `transcode_error / could_not_switch_form`.
    Revert,
}

pub open spec fn compose_switch_terminal(s: ComposeSwitch) -> bool {
    match s {
        ComposeSwitch::TranscodeArtifact | ComposeSwitch::ComposePrevious | ComposeSwitch::TranscodeComposed
        | ComposeSwitch::ComposeNext => false,
        _ => true,
    }
}

/// Where a switch starts: nothing to do for the same form, nothing to convert
/// when every box is blank, else the artifact first, else the parts.
pub open spec fn compose_switch_first(
    prev: Seq<char>,
    next: Seq<char>,
    payload: Seq<char>,
    carrier: Seq<char>,
    artifact: Seq<char>,
) -> ComposeSwitch {
    if prev == next {
        ComposeSwitch::Unchanged
    } else if trim(artifact).len() > 0 {
        ComposeSwitch::TranscodeArtifact
    } else if trim(payload).len() > 0 || trim(carrier).len() > 0 {
        ComposeSwitch::ComposePrevious
    } else {
        ComposeSwitch::Remember
    }
}

/// The step after `stage`, given whether its work succeeded and whether
/// payload and carrier are both blank.
pub open spec fn compose_switch_then(stage: ComposeSwitch, succeeded: bool, parts_blank: bool) -> ComposeSwitch {
    match stage {
        ComposeSwitch::TranscodeArtifact => if succeeded {
            ComposeSwitch::ApplyTranscoded
        } else if parts_blank {
            ComposeSwitch::Revert
        } else {
            ComposeSwitch::ComposePrevious
        },
        ComposeSwitch::ComposePrevious => if succeeded {
            ComposeSwitch::TranscodeComposed
        } else {
            ComposeSwitch::ComposeNext
        },
        ComposeSwitch::TranscodeComposed => if succeeded {
            ComposeSwitch::ApplyTranscoded
        } else {
            ComposeSwitch::ComposeNext
        },
        ComposeSwitch::ComposeNext => if succeeded {
            ComposeSwitch::UseComposed
        } else {
            ComposeSwitch::Revert
        },
        _ => stage,
    }
}

pub fn compose_switch_start(prev: &str, next: &str, payload: &str, carrier: &str, artifact: &str) -> (r:
    ComposeSwitch)
    ensures
        r == compose_switch_first(prev@, next@, payload@, carrier@, artifact@),
{
    if str_eq(prev, next) {
        ComposeSwitch::Unchanged
    } else if !is_blank(artifact) {
        ComposeSwitch::TranscodeArtifact
    } else if !is_blank(payload) || !is_blank(carrier) {
        ComposeSwitch::ComposePrevious
    } else {
        ComposeSwitch::Remember
    }
}

pub fn compose_switch_step(stage: ComposeSwitch, succeeded: bool, parts_blank: bool) -> (r: ComposeSwitch)
    ensures
        r == compose_switch_then(stage, succeeded, parts_blank),
{
    match stage {
        ComposeSwitch::TranscodeArtifact => if succeeded {
            ComposeSwitch::ApplyTranscoded
        } else if parts_blank {
            ComposeSwitch::Revert
        } else {
            ComposeSwitch::ComposePrevious
        },
        ComposeSwitch::ComposePrevious => if succeeded {
            ComposeSwitch::TranscodeComposed
        } else {
            ComposeSwitch::ComposeNext
        },
        ComposeSwitch::TranscodeComposed => if succeeded {
            ComposeSwitch::ApplyTranscoded
        } else {
            ComposeSwitch::ComposeNext
        },
        ComposeSwitch::ComposeNext => if succeeded {
            ComposeSwitch::UseComposed
        } else {
            ComposeSwitch::Revert
        },
        _ => stage,
    }
}

/// Leaving protobuf first re-encodes the carrier from its fields.
pub fn carrier_sync_first(prev: &str, next: &str) -> (r: bool)
    ensures
        r == (prev@ != next@ && prev@ == "protobuf"@),
{
    !str_eq(prev, next) && str_eq(prev, "protobuf")
}

/// Switching the Compose form settles within four steps, whatever the
/// runtime answers, and a switch between two different forms never ends
/// unchanged.
pub proof fn law_compose_switch_settles(
    prev: Seq<char>,
    next: Seq<char>,
    payload: Seq<char>,
    carrier: Seq<char>,
    artifact: Seq<char>,
    a: bool,
    b: bool,
    c: bool,
    d: bool,
)
    ensures
        ({
            let parts_blank = trim(payload).len() == 0 && trim(carrier).len() == 0;
            let s0 = compose_switch_first(prev, next, payload, carrier, artifact);
            let s4 = compose_switch_then(
                compose_switch_then(compose_switch_then(compose_switch_then(s0, a, parts_blank), b, parts_blank), c, parts_blank),
                d,
                parts_blank,
            );
            &&& compose_switch_terminal(s4)
            &&& (prev != next ==> s4 != ComposeSwitch::Unchanged)
        }),
{
}

// ---------------------------------------------------------------------------
// Switching the Decompose form.
// ---------------------------------------------------------------------------

/// The steps of switching the Decompose form.
#[derive(Clone, Copy, Debug, PartialEq, Eq, Structural)]
pub enum DecomposeSwitch {
    /// Same form or a blank artifact: keep the form and decompose after the delay.
    Schedule,
    /// Try to decompose the artifact as the new form.
    TryDirect,
    /// Transcode the artifact from the old form to the new one.
    TryTranscode,
    /// Keep the new form and decompose the artifact as it is.
    Run,
    /// Keep the new form, replace the artifact by its transcoding and decompose.
    ReplaceAndRun,
}

pub open spec fn decompose_switch_first(prev: Seq<char>, next: Seq<char>, artifact: Seq<char>) -> DecomposeSwitch {
    if prev == next || trim(artifact).len() == 0 {
        DecomposeSwitch::Schedule
    } else {
        DecomposeSwitch::TryDirect
    }
}

pub open spec fn decompose_switch_then(stage: DecomposeSwitch, succeeded: bool) -> DecomposeSwitch {
    match stage {
        DecomposeSwitch::TryDirect => if succeeded {
            DecomposeSwitch::Run
        } else {
            DecomposeSwitch::TryTranscode
        },
        DecomposeSwitch::TryTranscode => if succeeded {
            DecomposeSwitch::ReplaceAndRun
        } else {
            DecomposeSwitch::Run
        },
        _ => stage,
    }
}

pub fn decompose_switch_start(prev: &str, next: &str, artifact: &str) -> (r: DecomposeSwitch)
    ensures
        r == decompose_switch_first(prev@, next@, artifact@),
{
    if str_eq(prev, next) || is_blank(artifact) {
        DecomposeSwitch::Schedule
    } else {
        DecomposeSwitch::TryDirect
    }
}

pub fn decompose_switch_step(stage: DecomposeSwitch, succeeded: bool) -> (r: DecomposeSwitch)
    ensures
        r == decompose_switch_then(stage, succeeded),
{
    match stage {
        DecomposeSwitch::TryDirect => if succeeded {
            DecomposeSwitch::Run
        } else {
            DecomposeSwitch::TryTranscode
        },
        DecomposeSwitch::TryTranscode => if succeeded {
            DecomposeSwitch::ReplaceAndRun
        } else {
            DecomposeSwitch::Run
        },
        _ => stage,
    }
}

/// Switching the Decompose form settles within two steps, and the artifact is
/// replaced only after a successful transcoding.
pub proof fn law_decompose_switch_settles(prev: Seq<char>, next: Seq<char>, artifact: Seq<char>, a: bool, b: bool)
    ensures
        ({
            let s0 = decompose_switch_first(prev, next, artifact);
            let s1 = decompose_switch_then(s0, a);
            let s2 = decompose_switch_then(s1, b);
            &&& s2 != DecomposeSwitch::TryDirect && s2 != DecomposeSwitch::TryTranscode
            &&& (s2 == DecomposeSwitch::ReplaceAndRun ==> s1 == DecomposeSwitch::TryTranscode && b)
        }),
{
}

} // verus!
