//! Diagnostics of subprocesses.
use vstd::prelude::*;
use vstd::utf8::*;

use crate::text::{is_unicode_ws, is_whitespace, owned, push_char, push_str, string_from_chars};

verus! {

/// What `String::from_utf8_lossy` makes of `bytes`: invalid sequences become
/// U+FFFD.
pub uninterp spec fn utf8_lossy(bytes: Seq<u8>) -> Seq<char>;

/// `String::from_utf8_lossy(bytes).into_owned()`.  Valid UTF-8 is decoded as
/// is (as its documentation says); the rest of the result is named.
#[verifier::external_body]
fn lossy_text(bytes: &[u8]) -> (r: Vec<char>)
    ensures
        r@ == utf8_lossy(bytes@),
        valid_utf8(bytes@) ==> r@ == decode_utf8(bytes@),
{
    String::from_utf8_lossy(bytes).chars().collect()
}

/// The whitespace-separated words of `s`, joined by single spaces
/// (`split_whitespace` then `join(" ")`).
pub open spec fn words_joined(s: Seq<char>) -> Seq<char>
    decreases s.len(),
{
    if s.len() == 0 {
        seq![]
    } else {
        let p = s.drop_last();
        let c = s.last();
        if is_unicode_ws(c) {
            words_joined(p)
        } else if words_joined(p).len() == 0 {
            seq![c]
        } else if !is_unicode_ws(p.last()) {
            words_joined(p).push(c)
        } else {
            words_joined(p).push(' ').push(c)
        }
    }
}

proof fn lemma_words_joined_last(s: Seq<char>)
    ensures
        words_joined(s).len() > 0 ==> !is_unicode_ws(words_joined(s).last()),
    decreases s.len(),
{
    if s.len() > 0 {
        lemma_words_joined_last(s.drop_last());
    }
}

fn join_words(t: &Vec<char>) -> (out: Vec<char>)
    ensures
        out@ == words_joined(t@),
{
    let mut out: Vec<char> = Vec::new();
    let mut pending = false;
    let mut k: usize = 0;
    while k < t.len()
        invariant
            k <= t.len(),
            pending == (words_joined(t@.take(k as int)).len() > 0 && is_unicode_ws(t@.take(k as int).last())),
            out@ == if pending {
                words_joined(t@.take(k as int)).push(' ')
            } else {
                words_joined(t@.take(k as int))
            },
        decreases t.len() - k,
    {
        let c = t[k];
        proof {
            let q = t@.take(k + 1);
            assert(q.drop_last() == t@.take(k as int));
            assert(q.last() == c);
        }
        if !is_whitespace(c) {
            out.push(c);
            pending = false;
        } else if out.len() > 0 && !pending {
            out.push(' ');
            pending = true;
        }
        k = k + 1;
    }
    assert(t@.take(t.len() as int) == t@);
    proof {
        lemma_words_joined_last(t@);
    }
    if pending {
        out.pop();
        assert(out@ == words_joined(t@));
    }
    out
}

/// The output a diagnostic is taken from: stderr, or stdout when stderr is empty.
pub open spec fn chosen_output(stdout: Seq<u8>, stderr: Seq<u8>) -> Seq<u8> {
    if stderr.len() == 0 {
        stdout
    } else {
        stderr
    }
}

/// A one-line diagnostic of a text: its words joined by single spaces, cut
/// to 400 characters; a placeholder when there are none.
pub open spec fn diagnostic_of(text: Seq<char>) -> Seq<char> {
    let line = words_joined(text);
    if line.len() == 0 {
        "no diagnostic output"@
    } else if line.len() > 400 {
        line.take(400)
    } else {
        line
    }
}

/// The diagnostic of a process's output, decoded as lossy UTF-8.
pub open spec fn diagnostic(stdout: Seq<u8>, stderr: Seq<u8>) -> Seq<char> {
    diagnostic_of(utf8_lossy(chosen_output(stdout, stderr)))
}

pub fn concise_output(stdout: &[u8], stderr: &[u8]) -> (r: String)
    ensures
        r@ == diagnostic(stdout@, stderr@),
        valid_utf8(chosen_output(stdout@, stderr@)) ==> r@ == diagnostic_of(
            decode_utf8(chosen_output(stdout@, stderr@)),
        ),
{
    let text = if stderr.len() == 0 {
        stdout
    } else {
        stderr
    };
    let chars = lossy_text(text);
    let line = join_words(&chars);
    if line.len() == 0 {
        return owned("no diagnostic output");
    }
    let mut out = String::new();
    let mut k: usize = 0;
    let limit = if line.len() > 400 {
        400
    } else {
        line.len()
    };
    while k < limit
        invariant
            k <= limit <= line.len(),
            out@ == line@.take(k as int),
        decreases limit - k,
    {
        push_char(&mut out, line[k]);
        assert(line@.take(k + 1) == line@.take(k as int).push(line@[k as int]));
        k = k + 1;
    }
    assert(limit == line.len() ==> line@.take(limit as int) == line@);
    out
}

/// `<label> is not installed or not on PATH. <guidance>`.
pub fn missing_program_message(label: &str, guidance: &str) -> (r: String)
    ensures
        r@ == label@ + " is not installed or not on PATH. "@ + guidance@,
{
    let mut r = owned(label);
    push_str(&mut r, " is not installed or not on PATH. ");
    push_str(&mut r, guidance);
    r
}

/// `<label> could not be launched: <error>. <guidance>`.
pub fn launch_failure_message(label: &str, error: &str, guidance: &str) -> (r: String)
    ensures
        r@ == label@ + " could not be launched: "@ + error@ + ". "@ + guidance@,
{
    let mut r = owned(label);
    push_str(&mut r, " could not be launched: ");
    push_str(&mut r, error);
    push_str(&mut r, ". ");
    push_str(&mut r, guidance);
    r
}

/// `<label> is installed but unusable (<status>): <diagnostic>. <guidance>`.
pub fn unusable_program_message(label: &str, status: &str, diagnostic: &str, guidance: &str) -> (r: String)
    ensures
        r@ == label@ + " is installed but unusable ("@ + status@ + "): "@ + diagnostic@ + ". "@ + guidance@,
{
    let mut r = owned(label);
    push_str(&mut r, " is installed but unusable (");
    push_str(&mut r, status);
    push_str(&mut r, "): ");
    push_str(&mut r, diagnostic);
    push_str(&mut r, ". ");
    push_str(&mut r, guidance);
    r
}

} // verus!
