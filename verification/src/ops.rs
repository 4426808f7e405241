//! YamlSigil compose / decompose / transcode / sign / verify and YAML validation.
//!
//! Each operation is split at the call into the YamlSigil runtime: a request
//! function reads and checks the text fields and selectors, and a result
//! function turns the runtime's outcome into the `OpResult` shown to the user.
use vstd::prelude::*;
use vstd::utf8::*;

use crate::codec::{
    is_protobuf_form, is_yaml_form, decode_key_bytes, decode_payload, decode_yaml_text, decoded_key_bytes, decoded_payload,
    encode_payload, encode_yaml_text, encoded_payload, utf8_text, yaml_text_of,
};
use crate::keys::{p256_secret_accepted, p256_secret_key_accepted};
use crate::text::{chars_of, owned, str_eq, trim_chars};

verus! {

pub const ED25519_NAME: &'static str = "ED25519_PUREEDDSA_RAW_RS64_CANONICAL";

pub const P256_NAME: &'static str = "ECDSA_SECP256R1_SHA256_RAW_RS64";

/// The outcome of an operation as shown in the playground.
#[derive(Clone, Debug)]
pub struct OpResult {
    pub status: String,
    pub code: Option<String>,
    pub primary: String,
    pub extra: String,
    pub extra_label: String,
}

/// `(status, code, primary, extra, extra_label)`.
pub type OpView = (Seq<char>, Option<Seq<char>>, Seq<char>, Seq<char>, Seq<char>);

pub open spec fn opt_view(o: Option<String>) -> Option<Seq<char>> {
    match o {
        Some(s) => Some(s@),
        None => None,
    }
}

impl View for OpResult {
    type V = OpView;

    open spec fn view(&self) -> OpView {
        (self.status@, opt_view(self.code), self.primary@, self.extra@, self.extra_label@)
    }
}

/// A bare status.
pub open spec fn status_view(status: Seq<char>) -> OpView {
    (status, None, seq![], seq![], seq![])
}

/// A status with a code.
pub open spec fn err_view(status: Seq<char>, code: Seq<char>) -> OpView {
    (status, Some(code), seq![], seq![], seq![])
}

/// An invocation error with a code.
pub open spec fn invocation_view(code: Seq<char>) -> OpView {
    err_view("invocation_error"@, code)
}

impl OpResult {
    fn with_status(status: &str) -> (r: Self)
        ensures
            r@ == status_view(status@),
    {
        OpResult {
            status: owned(status),
            code: None,
            primary: String::new(),
            extra: String::new(),
            extra_label: String::new(),
        }
    }

    fn invocation(code: &str) -> (r: Self)
        ensures
            r@ == invocation_view(code@),
    {
        OpResult {
            status: owned("invocation_error"),
            code: Some(owned(code)),
            primary: String::new(),
            extra: String::new(),
            extra_label: String::new(),
        }
    }

    /// An `invocation_error` result with `code`.
    pub fn invocation_error(code: &str) -> (r: Self)
        ensures
            r@ == invocation_view(code@),
    {
        Self::invocation(code)
    }

    fn err(status: &str, code: &str) -> (r: Self)
        ensures
            r@ == err_view(status@, code@),
    {
        OpResult {
            status: owned(status),
            code: Some(owned(code)),
            primary: String::new(),
            extra: String::new(),
            extra_label: String::new(),
        }
    }
}

// ---------------------------------------------------------------------------
// Selectors.
// ---------------------------------------------------------------------------

/// A wire form: the runtime's `TranscriptionForm`, `OutputForm` and
/// `ArtifactForm` all have these two variants.
#[derive(Clone, Copy, Debug, PartialEq, Eq, Structural)]
pub enum Form {
    Yaml,
    Protobuf,
}

/// The runtime's `OuterConformance`.
#[derive(Clone, Copy, Debug, PartialEq, Eq, Structural)]
pub enum OuterConformance {
    Strict,
    SignatureStrict,
}

/// The runtime's `AlgorithmId`.
#[derive(Clone, Copy, Debug, PartialEq, Eq, Structural)]
pub enum AlgorithmId {
    Ed25519,
    EcdsaP256Sha256,
}

/// Form selectors are exactly `yaml` and `protobuf`.
pub open spec fn form_of(value: Seq<char>) -> Option<Form> {
    if value == "yaml"@ {
        Some(Form::Yaml)
    } else if value == "protobuf"@ {
        Some(Form::Protobuf)
    } else {
        None
    }
}

pub open spec fn outer_conformance_of(value: Seq<char>) -> Option<OuterConformance> {
    if value == "strict"@ {
        Some(OuterConformance::Strict)
    } else if value == "signature_strict"@ {
        Some(OuterConformance::SignatureStrict)
    } else {
        None
    }
}

pub open spec fn algorithm_of(value: Seq<char>) -> Option<AlgorithmId> {
    if value == ED25519_NAME@ {
        Some(AlgorithmId::Ed25519)
    } else if value == P256_NAME@ {
        Some(AlgorithmId::EcdsaP256Sha256)
    } else {
        None
    }
}

pub open spec fn algorithm_name_of(a: AlgorithmId) -> Seq<char> {
    match a {
        AlgorithmId::Ed25519 => ED25519_NAME@,
        AlgorithmId::EcdsaP256Sha256 => P256_NAME@,
    }
}

/// The form selected by `value`.
pub fn form(value: &str) -> (r: Option<Form>)
    ensures
        r == form_of(value@),
{
    if str_eq(value, "yaml") {
        Some(Form::Yaml)
    } else if str_eq(value, "protobuf") {
        Some(Form::Protobuf)
    } else {
        None
    }
}

pub fn outer_conformance(value: &str) -> (r: Option<OuterConformance>)
    ensures
        r == outer_conformance_of(value@),
{
    if str_eq(value, "strict") {
        Some(OuterConformance::Strict)
    } else if str_eq(value, "signature_strict") {
        Some(OuterConformance::SignatureStrict)
    } else {
        None
    }
}

pub fn algorithm(value: &str) -> (r: Option<AlgorithmId>)
    ensures
        r == algorithm_of(value@),
{
    if str_eq(value, ED25519_NAME) {
        Some(AlgorithmId::Ed25519)
    } else if str_eq(value, P256_NAME) {
        Some(AlgorithmId::EcdsaP256Sha256)
    } else {
        None
    }
}

pub fn algorithm_name(value: AlgorithmId) -> (r: &'static str)
    ensures
        r@ == algorithm_name_of(value),
{
    match value {
        AlgorithmId::Ed25519 => ED25519_NAME,
        AlgorithmId::EcdsaP256Sha256 => P256_NAME,
    }
}

/// The name shown for an algorithm selects that algorithm again.
pub proof fn law_algorithm_name_selects_it(a: AlgorithmId)
    ensures
        algorithm_of(algorithm_name_of(a)) == Some(a),
{
    reveal_strlit("ED25519_PUREEDDSA_RAW_RS64_CANONICAL");
    reveal_strlit("ECDSA_SECP256R1_SHA256_RAW_RS64");
    assert(ED25519_NAME@.len() != P256_NAME@.len());
}

// ---------------------------------------------------------------------------
// Runtime error kinds and their codes.
// ---------------------------------------------------------------------------

/// The transcriber's `TranscriberInvocationError`.
#[derive(Clone, Copy, Debug, PartialEq, Eq, Structural)]
pub enum TranscriberInvocation {
    InvalidOrUnsupportedForm,
    InvalidOrUnsupportedOuterConformance,
}

/// The transcriber's `TranscriberError`.
#[derive(Clone, Copy, Debug, PartialEq, Eq, Structural)]
pub enum TranscriberFailure {
    InvalidPayloadBytes,
    InvalidSignatureCarrier,
}

/// The signer's `TranscodeError` (payloads of wrapped errors dropped).
#[derive(Clone, Copy, Debug, PartialEq, Eq, Structural)]
pub enum TranscodeFailure {
    NotSignedYamlStream,
    PayloadInvariant,
    InvalidSignatureBase64,
    UnknownYamlAlg,
    UnsupportedWireAlg,
    SchemaMismatch,
    Core,
    YamlSerialize,
}

/// The signer's `SignInvocationError`.
#[derive(Clone, Copy, Debug, PartialEq, Eq, Structural)]
pub enum SignInvocation {
    InvalidOrUnsupportedAlgorithm,
    InvalidAlgorithmParameters,
    InvalidOrUnsupportedOutputForm,
    InvalidKeyid,
}

/// The signer's `SignError` (payloads of wrapped errors dropped).
#[derive(Clone, Copy, Debug, PartialEq, Eq, Structural)]
pub enum SignFailure {
    InvalidPayloadBytes,
    PayloadLineTerminatorRefusal,
    InvalidOrUnsupportedAlgorithm,
    InvalidAlgorithmParameters,
    InvalidOrUnsupportedOutputForm,
    InvalidKeyid,
    KeyOperationFailure,
    YamlValidationFailure,
    YamlSerialize,
}

/// The verifier's `InvocationError`.
#[derive(Clone, Copy, Debug, PartialEq, Eq, Structural)]
pub enum VerifyInvocation {
    InvalidAlgorithmParameters,
    KeyResolutionFailure,
    TrustPolicyConfigurationError,
    InvalidPreVerifyResult,
    InvalidOrUnsupportedForm,
}

pub open spec fn transcriber_invocation_code_of(e: TranscriberInvocation) -> Seq<char> {
    match e {
        TranscriberInvocation::InvalidOrUnsupportedForm => "invalid_or_unsupported_form"@,
        TranscriberInvocation::InvalidOrUnsupportedOuterConformance => "invalid_or_unsupported_outer_conformance"@,
    }
}

pub fn transcriber_invocation_code(e: TranscriberInvocation) -> (r: &'static str)
    ensures
        r@ == transcriber_invocation_code_of(e),
{
    match e {
        TranscriberInvocation::InvalidOrUnsupportedForm => "invalid_or_unsupported_form",
        TranscriberInvocation::InvalidOrUnsupportedOuterConformance => "invalid_or_unsupported_outer_conformance",
    }
}

pub open spec fn transcriber_error_code_of(e: TranscriberFailure) -> Seq<char> {
    match e {
        TranscriberFailure::InvalidPayloadBytes => "invalid_payload_bytes"@,
        TranscriberFailure::InvalidSignatureCarrier => "invalid_signature_carrier"@,
    }
}

pub fn transcriber_error_code(e: TranscriberFailure) -> (r: &'static str)
    ensures
        r@ == transcriber_error_code_of(e),
{
    match e {
        TranscriberFailure::InvalidPayloadBytes => "invalid_payload_bytes",
        TranscriberFailure::InvalidSignatureCarrier => "invalid_signature_carrier",
    }
}

pub open spec fn transcode_error_code_of(e: TranscodeFailure) -> Seq<char> {
    match e {
        TranscodeFailure::NotSignedYamlStream => "not_signed_yaml_stream"@,
        TranscodeFailure::PayloadInvariant => "payload_invariant"@,
        TranscodeFailure::InvalidSignatureBase64 => "invalid_signature_base64"@,
        TranscodeFailure::UnknownYamlAlg => "unknown_yaml_alg"@,
        TranscodeFailure::UnsupportedWireAlg => "unsupported_wire_alg"@,
        TranscodeFailure::SchemaMismatch => "schema_mismatch"@,
        TranscodeFailure::Core => "core_error"@,
        TranscodeFailure::YamlSerialize => "yaml_serialize"@,
    }
}

pub fn transcode_error_code(e: TranscodeFailure) -> (r: &'static str)
    ensures
        r@ == transcode_error_code_of(e),
{
    match e {
        TranscodeFailure::NotSignedYamlStream => "not_signed_yaml_stream",
        TranscodeFailure::PayloadInvariant => "payload_invariant",
        TranscodeFailure::InvalidSignatureBase64 => "invalid_signature_base64",
        TranscodeFailure::UnknownYamlAlg => "unknown_yaml_alg",
        TranscodeFailure::UnsupportedWireAlg => "unsupported_wire_alg",
        TranscodeFailure::SchemaMismatch => "schema_mismatch",
        TranscodeFailure::Core => "core_error",
        TranscodeFailure::YamlSerialize => "yaml_serialize",
    }
}

pub open spec fn sign_invocation_code_of(e: SignInvocation) -> Seq<char> {
    match e {
        SignInvocation::InvalidOrUnsupportedAlgorithm => "invalid_or_unsupported_algorithm"@,
        SignInvocation::InvalidAlgorithmParameters => "invalid_algorithm_parameters"@,
        SignInvocation::InvalidOrUnsupportedOutputForm => "invalid_or_unsupported_output_form"@,
        SignInvocation::InvalidKeyid => "invalid_keyid"@,
    }
}

pub fn sign_invocation_code(e: SignInvocation) -> (r: &'static str)
    ensures
        r@ == sign_invocation_code_of(e),
{
    match e {
        SignInvocation::InvalidOrUnsupportedAlgorithm => "invalid_or_unsupported_algorithm",
        SignInvocation::InvalidAlgorithmParameters => "invalid_algorithm_parameters",
        SignInvocation::InvalidOrUnsupportedOutputForm => "invalid_or_unsupported_output_form",
        SignInvocation::InvalidKeyid => "invalid_keyid",
    }
}

pub open spec fn sign_error_code_of(e: SignFailure) -> Seq<char> {
    match e {
        SignFailure::InvalidPayloadBytes => "invalid_payload_bytes"@,
        SignFailure::PayloadLineTerminatorRefusal => "payload_line_terminator_refusal"@,
        SignFailure::InvalidOrUnsupportedAlgorithm => "invalid_or_unsupported_algorithm"@,
        SignFailure::InvalidAlgorithmParameters => "invalid_algorithm_parameters"@,
        SignFailure::InvalidOrUnsupportedOutputForm => "invalid_or_unsupported_output_form"@,
        SignFailure::InvalidKeyid => "invalid_keyid"@,
        SignFailure::KeyOperationFailure => "key_operation_failure"@,
        SignFailure::YamlValidationFailure => "yaml_validation_failure"@,
        SignFailure::YamlSerialize => "yaml_serialize"@,
    }
}

pub fn sign_error_code(e: SignFailure) -> (r: &'static str)
    ensures
        r@ == sign_error_code_of(e),
{
    match e {
        SignFailure::InvalidPayloadBytes => "invalid_payload_bytes",
        SignFailure::PayloadLineTerminatorRefusal => "payload_line_terminator_refusal",
        SignFailure::InvalidOrUnsupportedAlgorithm => "invalid_or_unsupported_algorithm",
        SignFailure::InvalidAlgorithmParameters => "invalid_algorithm_parameters",
        SignFailure::InvalidOrUnsupportedOutputForm => "invalid_or_unsupported_output_form",
        SignFailure::InvalidKeyid => "invalid_keyid",
        SignFailure::KeyOperationFailure => "key_operation_failure",
        SignFailure::YamlValidationFailure => "yaml_validation_failure",
        SignFailure::YamlSerialize => "yaml_serialize",
    }
}

pub open spec fn verify_invocation_code_of(e: VerifyInvocation) -> Seq<char> {
    match e {
        VerifyInvocation::InvalidAlgorithmParameters => "invalid_algorithm_parameters"@,
        VerifyInvocation::KeyResolutionFailure => "key_resolution_failure"@,
        VerifyInvocation::TrustPolicyConfigurationError => "trust_policy_configuration_error"@,
        VerifyInvocation::InvalidPreVerifyResult => "invalid_pre_verify_result"@,
        VerifyInvocation::InvalidOrUnsupportedForm => "invalid_or_unsupported_form"@,
    }
}

pub fn verify_invocation_code(e: VerifyInvocation) -> (r: &'static str)
    ensures
        r@ == verify_invocation_code_of(e),
{
    match e {
        VerifyInvocation::InvalidAlgorithmParameters => "invalid_algorithm_parameters",
        VerifyInvocation::KeyResolutionFailure => "key_resolution_failure",
        VerifyInvocation::TrustPolicyConfigurationError => "trust_policy_configuration_error",
        VerifyInvocation::InvalidPreVerifyResult => "invalid_pre_verify_result",
        VerifyInvocation::InvalidOrUnsupportedForm => "invalid_or_unsupported_form",
    }
}

// ---------------------------------------------------------------------------
// YAML validation (noyalib).
// ---------------------------------------------------------------------------

/// The message of the error that `noyalib::from_str::<serde_json::Value>`
/// reports for `source`, or `None` when it parses.
pub uninterp spec fn yaml_parse_error(source: Seq<char>) -> Option<Seq<char>>;

/// Calls `noyalib::from_str::<serde_json::Value>` and keeps the error's
/// `Display` text.  The outcome is named and nothing else is said of it.
#[verifier::external_body]
fn yaml_parse(source: &str) -> (r: Option<String>)
    ensures
        match r {
            None => yaml_parse_error(source@) is None,
            Some(m) => yaml_parse_error(source@) == Some(m@),
        },
{
    match noyalib::from_str::<serde_json::Value>(source) {
        Ok(_) => None,
        Err(error) => Some(error.to_string()),
    }
}

pub open spec fn validated_yaml(source: Seq<char>) -> OpView {
    match yaml_parse_error(source) {
        None => status_view("success"@),
        Some(m) => err_view("error"@, m),
    }
}

/// `success` when the YAML parses, else `error` with the parser's message.
pub fn validate_yaml(source: &str) -> (r: OpResult)
    ensures
        r@ == validated_yaml(source@),
{
    match yaml_parse(source) {
        None => OpResult::with_status("success"),
        Some(message) => {
            let mut r = OpResult::with_status("error");
            r.code = Some(message);
            r
        },
    }
}

/// An artifact that decomposes as unsigned: for YAML, `unsigned` only when it
/// is a YAML document, else `could_not_decompose`.
pub open spec fn unsigned_or_not_document(form: Seq<char>, artifact: Seq<u8>) -> OpView {
    if form != "yaml"@ {
        status_view("unsigned"@)
    } else if !valid_utf8(artifact) {
        err_view("could_not_decompose"@, "not_a_yaml_document"@)
    } else if yaml_parse_error(decode_utf8(artifact)) is None {
        status_view("unsigned"@)
    } else {
        err_view("could_not_decompose"@, "not_a_yaml_document"@)
    }
}

/// The result for an artifact that decomposed as unsigned, given whether its
/// text parses as YAML (`None` when the bytes are not UTF-8; only consulted
/// for the yaml form).
pub open spec fn unsigned_outcome(form: Seq<char>, parses: Option<bool>) -> OpView {
    if form != "yaml"@ {
        status_view("unsigned"@)
    } else {
        match parses {
            Some(true) => status_view("unsigned"@),
            _ => err_view("could_not_decompose"@, "not_a_yaml_document"@),
        }
    }
}

pub fn unsigned_result(form: &str, parses: Option<bool>) -> (r: OpResult)
    ensures
        r@ == unsigned_outcome(form@, parses),
{
    if !str_eq(form, "yaml") {
        return OpResult::with_status("unsigned");
    }
    match parses {
        Some(true) => OpResult::with_status("unsigned"),
        _ => OpResult::err("could_not_decompose", "not_a_yaml_document"),
    }
}

fn yaml_unsigned_or_not_document(form: &str, artifact: &[u8]) -> (r: OpResult)
    ensures
        r@ == unsigned_or_not_document(form@, artifact@),
{
    if !str_eq(form, "yaml") {
        return unsigned_result(form, None);
    }
    let parses = match utf8_text(artifact) {
        Some(text) => Some(yaml_parse(text.as_str()).is_none()),
        None => None,
    };
    unsigned_result(form, parses)
}

/// The `invocation_error` result of a text field that did not decode.
fn decode_failure(message: String) -> (r: OpResult)
    ensures
        r@ == err_view("invocation_error"@, message@),
{
    let mut r = OpResult::with_status("invocation_error");
    r.code = Some(message);
    r
}

// ---------------------------------------------------------------------------
// Compose.
// ---------------------------------------------------------------------------

/// What the transcriber's `compose` is asked.
pub struct ComposeInput {
    pub payload: Vec<u8>,
    pub signature_carrier: Vec<u8>,
    pub form: Form,
}

/// The transcriber's `ComposeOutcome`.
pub enum ComposeOutcome {
    Success { artifact: Vec<u8> },
    Invocation(TranscriberInvocation),
    Error(TranscriberFailure),
}

/// Reads the compose fields: the payload is YAML text, the carrier is in `form`.
pub fn compose_request(payload_text: &str, carrier_text: &str, form_selector: &str) -> (r: Result<
    ComposeInput,
    OpResult,
>)
    ensures
        match r {
            Ok(input) => {
                &&& form_of(form_selector@) == Some(input.form)
                &&& input.payload@ == encode_utf8(payload_text@)
                &&& decoded_payload(carrier_text@, form_selector@) == Ok::<Seq<u8>, Seq<char>>(input.signature_carrier@)
            },
            Err(e) => if form_of(form_selector@) is None {
                e@ == invocation_view("invalid_or_unsupported_form"@)
            } else {
                decoded_payload(carrier_text@, form_selector@) is Err
                    && e@ == err_view("invocation_error"@, decoded_payload(carrier_text@, form_selector@)->Err_0)
            },
        },
{
    let form_sel = match form(form_selector) {
        Some(f) => f,
        None => return Err(OpResult::invocation("invalid_or_unsupported_form")),
    };
    let payload = decode_yaml_text(payload_text);
    let signature_carrier = match decode_payload(carrier_text, form_selector) {
        Ok(bytes) => bytes,
        Err(message) => return Err(decode_failure(message)),
    };
    Ok(ComposeInput { payload, signature_carrier, form: form_sel })
}

pub open spec fn composed(outcome: ComposeOutcome, form: Seq<char>) -> OpView {
    match outcome {
        ComposeOutcome::Success { artifact } => (
            "success"@,
            None,
            encoded_payload(artifact@, form),
            seq![],
            seq![],
        ),
        ComposeOutcome::Invocation(e) => invocation_view(transcriber_invocation_code_of(e)),
        ComposeOutcome::Error(e) => err_view("error"@, transcriber_error_code_of(e)),
    }
}

/// The result shown for the transcriber's compose outcome.  A composed
/// artifact is shown in the requested form and reads back to the same bytes
/// (protobuf always, YAML when the bytes are UTF-8).
pub fn compose_result(outcome: ComposeOutcome, form: &str) -> (r: OpResult)
    ensures
        r@ == composed(outcome, form@),
        match outcome {
            ComposeOutcome::Success { artifact } => (is_protobuf_form(form@) || (is_yaml_form(form@)
                && valid_utf8(artifact@))) ==> decoded_payload(r.primary@, form@) == Ok::<Seq<u8>, Seq<char>>(
                artifact@,
            ),
            _ => true,
        },
{
    match outcome {
        ComposeOutcome::Success { artifact } => {
            let mut result = OpResult::with_status("success");
            result.primary = encode_payload(&artifact, form);
            result
        },
        ComposeOutcome::Invocation(error) => OpResult::invocation(transcriber_invocation_code(error)),
        ComposeOutcome::Error(error) => OpResult::err("error", transcriber_error_code(error)),
    }
}

/// A composed YAML artifact is shown as its own text: reading the shown text
/// back as YAML gives the artifact's bytes.
pub proof fn law_composed_yaml_is_the_artifact_text(artifact: Vec<u8>)
    requires
        valid_utf8(artifact@),
    ensures
        composed(ComposeOutcome::Success { artifact }, "yaml"@).0 == "success"@,
        decoded_payload(composed(ComposeOutcome::Success { artifact }, "yaml"@).2, "yaml"@) == Ok::<
            Seq<u8>,
            Seq<char>,
        >(artifact@),
{
    reveal_strlit("yaml");
    reveal_strlit("protobuf");
    assert("yaml"@.len() != "protobuf"@.len());
    decode_utf8_encode_utf8(artifact@);
}

// ---------------------------------------------------------------------------
// Decompose.
// ---------------------------------------------------------------------------

/// What the transcriber's `decompose` is asked.
pub struct DecomposeInput {
    pub artifact: Vec<u8>,
    pub form: Form,
    pub outer_conformance: Option<OuterConformance>,
}

/// The transcriber's structural `DecomposeOutcome`.
#[derive(Clone, Copy, Debug, PartialEq, Eq, Structural)]
pub enum DecomposeStatus {
    /// The artifact was signed and split into payload and carrier (`Ok`).
    Split,
    Unsigned,
    MalformedAttemptedSigned,
}

/// The transcriber's `DecomposeResponse`.
pub enum DecomposeResponse {
    Invocation(TranscriberInvocation),
    Decomposed {
        outcome: DecomposeStatus,
        payload: Option<Vec<u8>>,
        signature_carrier: Option<Vec<u8>>,
    },
}

/// The outer-conformance selector, trimmed, when it is not blank.
pub open spec fn outer_selector(outer: Option<Seq<char>>) -> Option<Seq<char>> {
    match outer {
        Some(o) => if crate::text::trim(o).len() > 0 {
            Some(crate::text::trim(o))
        } else {
            None
        },
        None => None,
    }
}

/// YAML decompose takes no outer conformance; protobuf decompose needs
/// `strict` or `signature_strict`.
pub open spec fn decompose_selection(form: Seq<char>, outer: Option<Seq<char>>) -> Result<
    (Form, Option<OuterConformance>),
    Seq<char>,
> {
    match form_of(form) {
        None => Err("invalid_or_unsupported_form"@),
        Some(Form::Yaml) => match outer_selector(outer) {
            Some(_) => Err("invalid_or_unsupported_outer_conformance"@),
            None => Ok((Form::Yaml, None)),
        },
        Some(Form::Protobuf) => match outer_selector(outer) {
            None => Err("invalid_or_unsupported_outer_conformance"@),
            Some(v) => match outer_conformance_of(v) {
                Some(c) => Ok((Form::Protobuf, Some(c))),
                None => Err("invalid_or_unsupported_outer_conformance"@),
            },
        },
    }
}

pub open spec fn opt_str_view(o: Option<&str>) -> Option<Seq<char>> {
    match o {
        Some(s) => Some(s@),
        None => None,
    }
}

/// Reads the decompose fields and selectors.
pub fn decompose_request(artifact_text: &str, form_selector: &str, outer: Option<&str>) -> (r: Result<
    DecomposeInput,
    OpResult,
>)
    ensures
        match r {
            Ok(input) => {
                &&& decompose_selection(form_selector@, opt_str_view(outer)) == Ok::<
                    (Form, Option<OuterConformance>),
                    Seq<char>,
                >((input.form, input.outer_conformance))
                &&& decoded_payload(artifact_text@, form_selector@) == Ok::<Seq<u8>, Seq<char>>(input.artifact@)
            },
            Err(e) => match decompose_selection(form_selector@, opt_str_view(outer)) {
                Err(code) => e@ == invocation_view(code),
                Ok(_) => decoded_payload(artifact_text@, form_selector@) is Err && e@ == err_view(
                    "invocation_error"@,
                    decoded_payload(artifact_text@, form_selector@)->Err_0,
                ),
            },
        },
{
    let form_sel = match form(form_selector) {
        Some(f) => f,
        None => return Err(OpResult::invocation("invalid_or_unsupported_form")),
    };
    let selected: Option<String> = match outer {
        Some(o) => {
            let chars = chars_of(o);
            let t = trim_chars(&chars);
            if t.len() > 0 {
                Some(crate::text::string_from_chars(t.as_slice()))
            } else {
                None
            }
        },
        None => None,
    };
    assert(opt_view(selected) == outer_selector(opt_str_view(outer)));
    let outer_conf = match form_sel {
        Form::Yaml => match selected {
            Some(_) => return Err(OpResult::invocation("invalid_or_unsupported_outer_conformance")),
            None => None,
        },
        Form::Protobuf => match selected {
            None => return Err(OpResult::invocation("invalid_or_unsupported_outer_conformance")),
            Some(value) => match outer_conformance(value.as_str()) {
                Some(parsed) => Some(parsed),
                None => return Err(OpResult::invocation("invalid_or_unsupported_outer_conformance")),
            },
        },
    };
    let artifact = match decode_payload(artifact_text, form_selector) {
        Ok(bytes) => bytes,
        Err(message) => return Err(decode_failure(message)),
    };
    Ok(DecomposeInput { artifact, form: form_sel, outer_conformance: outer_conf })
}

pub open spec fn opt_bytes_view(o: Option<Vec<u8>>) -> Option<Seq<u8>> {
    match o {
        Some(b) => Some(b@),
        None => None,
    }
}

/// The result shown for the transcriber's decompose response.
pub open spec fn decomposed(
    status: DecomposeStatus,
    payload: Option<Seq<u8>>,
    carrier: Option<Seq<u8>>,
    form: Seq<char>,
    artifact: Seq<u8>,
) -> OpView {
    match status {
        DecomposeStatus::Split => (
            "ok"@,
            None,
            match payload {
                Some(p) => yaml_text_of(p),
                None => seq![],
            },
            match carrier {
                Some(c) => encoded_payload(c, form),
                None => seq![],
            },
            match carrier {
                Some(_) => "signature carrier"@,
                None => seq![],
            },
        ),
        DecomposeStatus::Unsigned => unsigned_or_not_document(form, artifact),
        DecomposeStatus::MalformedAttemptedSigned => status_view("malformed_attempted_signed"@),
    }
}

pub open spec fn decompose_response_view(response: DecomposeResponse, form: Seq<char>, artifact: Seq<u8>) -> OpView {
    match response {
        DecomposeResponse::Invocation(e) => invocation_view(transcriber_invocation_code_of(e)),
        DecomposeResponse::Decomposed { outcome, payload, signature_carrier } => decomposed(
            outcome,
            opt_bytes_view(payload),
            opt_bytes_view(signature_carrier),
            form,
            artifact,
        ),
    }
}

/// The result shown for the transcriber's decompose response; `artifact` is
/// the artifact that was decomposed.
pub fn decompose_result(response: DecomposeResponse, form: &str, artifact: &[u8]) -> (r: OpResult)
    ensures
        r@ == decompose_response_view(response, form@, artifact@),
        match response {
            DecomposeResponse::Decomposed { outcome: DecomposeStatus::Split, payload, signature_carrier } => {
                &&& (signature_carrier matches Some(c) && (is_protobuf_form(form@) || (is_yaml_form(form@)
                    && valid_utf8(c@)))) ==> decoded_payload(r.extra@, form@) == Ok::<Seq<u8>, Seq<char>>(
                    signature_carrier->0@,
                )
                &&& (payload matches Some(p) && valid_utf8(p@)) ==> decoded_payload(r.primary@, "yaml"@)
                    == Ok::<Seq<u8>, Seq<char>>(payload->0@)
            },
            _ => true,
        },
{
    match response {
        DecomposeResponse::Invocation(error) => OpResult::invocation(transcriber_invocation_code(error)),
        DecomposeResponse::Decomposed { outcome, payload, signature_carrier } => match outcome {
            DecomposeStatus::Split => {
                let mut out = OpResult::with_status("ok");
                if let Some(payload) = payload {
                    out.primary = encode_yaml_text(&payload);
                    proof {
                        if valid_utf8(payload@) {
                            decode_utf8_encode_utf8(payload@);
                        }
                    }
                }
                if let Some(carrier) = signature_carrier {
                    out.extra = encode_payload(&carrier, form);
                    out.extra_label = owned("signature carrier");
                }
                out
            },
            DecomposeStatus::Unsigned => yaml_unsigned_or_not_document(form, artifact),
            DecomposeStatus::MalformedAttemptedSigned => OpResult::with_status("malformed_attempted_signed"),
        },
    }
}

/// A split shows the payload as YAML text and the carrier in the artifact's
/// form: for a YAML artifact, reading the shown carrier back as YAML gives
/// the carrier's bytes, and the shown payload reads back as the payload.
pub proof fn law_split_shows_yaml_parts(payload: Seq<u8>, carrier: Seq<u8>, artifact: Seq<u8>)
    requires
        valid_utf8(payload),
        valid_utf8(carrier),
    ensures
        ({
            let v = decomposed(DecomposeStatus::Split, Some(payload), Some(carrier), "yaml"@, artifact);
            &&& v.0 == "ok"@
            &&& decoded_payload(v.2, "yaml"@) == Ok::<Seq<u8>, Seq<char>>(payload)
            &&& decoded_payload(v.3, "yaml"@) == Ok::<Seq<u8>, Seq<char>>(carrier)
            &&& v.4 == "signature carrier"@
        }),
{
    reveal_strlit("yaml");
    reveal_strlit("protobuf");
    assert("yaml"@.len() != "protobuf"@.len());
    decode_utf8_encode_utf8(payload);
    decode_utf8_encode_utf8(carrier);
}

// ---------------------------------------------------------------------------
// Transcode.
// ---------------------------------------------------------------------------

/// Which conversion the signer is asked for.
#[derive(Clone, Copy, Debug, PartialEq, Eq, Structural)]
pub enum Conversion {
    /// `signed_yaml_stream_to_proto_wire`.
    YamlToProtobuf,
    /// `proto_wire_to_signed_yaml_stream`.
    ProtobufToYaml,
}

/// What transcoding needs: nothing more (the result is ready) or a conversion
/// of the decoded artifact.
pub enum TranscodePlan {
    Done(OpResult),
    Convert { artifact: Vec<u8>, conversion: Conversion },
}

/// Reads the transcode fields: equal forms pass the text through unchanged.
pub fn transcode_request(artifact_text: &str, from_form: &str, to_form: &str) -> (r: TranscodePlan)
    ensures
        match r {
            TranscodePlan::Done(res) => if form_of(from_form@) is None || form_of(to_form@) is None {
                res@ == invocation_view("invalid_or_unsupported_form"@)
            } else if from_form@ == to_form@ {
                res@ == ("success"@, None::<Seq<char>>, artifact_text@, Seq::<char>::empty(), Seq::<char>::empty())
            } else {
                decoded_payload(artifact_text@, from_form@) is Err && res@ == err_view(
                    "invocation_error"@,
                    decoded_payload(artifact_text@, from_form@)->Err_0,
                )
            },
            TranscodePlan::Convert { artifact, conversion } => {
                &&& form_of(from_form@) is Some && form_of(to_form@) is Some
                &&& from_form@ != to_form@
                &&& decoded_payload(artifact_text@, from_form@) == Ok::<Seq<u8>, Seq<char>>(artifact@)
                &&& conversion == (if from_form@ == "yaml"@ {
                    Conversion::YamlToProtobuf
                } else {
                    Conversion::ProtobufToYaml
                })
            },
        },
{
    let from = form(from_form);
    let to = form(to_form);
    if from.is_none() || to.is_none() {
        return TranscodePlan::Done(OpResult::invocation("invalid_or_unsupported_form"));
    }
    if str_eq(from_form, to_form) {
        let mut out = OpResult::with_status("success");
        out.primary = owned(artifact_text);
        return TranscodePlan::Done(out);
    }
    let decoded = match decode_payload(artifact_text, from_form) {
        Ok(bytes) => bytes,
        Err(message) => return TranscodePlan::Done(decode_failure(message)),
    };
    let conversion = if str_eq(from_form, "yaml") {
        Conversion::YamlToProtobuf
    } else {
        Conversion::ProtobufToYaml
    };
    TranscodePlan::Convert { artifact: decoded, conversion }
}

pub open spec fn transcoded(converted: Result<Seq<u8>, TranscodeFailure>, to_form: Seq<char>) -> OpView {
    match converted {
        Ok(bytes) => ("success"@, None, encoded_payload(bytes, to_form), seq![], seq![]),
        Err(e) => err_view("transcode_error"@, transcode_error_code_of(e)),
    }
}

pub open spec fn converted_view(converted: Result<Vec<u8>, TranscodeFailure>) -> Result<Seq<u8>, TranscodeFailure> {
    match converted {
        Ok(b) => Ok(b@),
        Err(e) => Err(e),
    }
}

/// The result shown for a conversion's outcome.
pub fn transcode_result(converted: Result<Vec<u8>, TranscodeFailure>, to_form: &str) -> (r: OpResult)
    ensures
        r@ == transcoded(converted_view(converted), to_form@),
{
    match converted {
        Ok(bytes) => {
            let mut out = OpResult::with_status("success");
            out.primary = encode_payload(&bytes, to_form);
            out
        },
        Err(error) => OpResult::err("transcode_error", transcode_error_code(error)),
    }
}

// ---------------------------------------------------------------------------
// Sign.
// ---------------------------------------------------------------------------

/// What the signer's `sign` is asked.
pub struct SignInput {
    pub payload: Vec<u8>,
    pub algorithm: AlgorithmId,
    /// The raw signing key: a 32-byte Ed25519 seed, or a P-256 scalar that
    /// `p256::ecdsa::SigningKey::from_slice` accepts.
    pub key_bytes: Vec<u8>,
    pub keyid: Option<String>,
    pub append_missing_final_newline: bool,
    pub output_form: Form,
}

/// The keyid argument: an empty keyid is no keyid.
pub open spec fn keyid_of(keyid: Option<Seq<char>>) -> Option<Seq<char>> {
    match keyid {
        Some(k) => if k.len() == 0 {
            None
        } else {
            Some(k)
        },
        None => None,
    }
}

/// Whether the key bytes make a signing key of the algorithm.
pub open spec fn signing_key_ok(algorithm: AlgorithmId, key: Seq<u8>) -> bool {
    match algorithm {
        AlgorithmId::Ed25519 => key.len() == 32,
        AlgorithmId::EcdsaP256Sha256 => p256_secret_accepted(key),
    }
}

/// Reads the sign fields: selectors are exact, the payload is YAML text and
/// the key is hex or base64 of a valid key for the algorithm.
pub fn sign_request(
    payload_text: &str,
    algorithm_selector: &str,
    signing_key: &str,
    keyid: Option<&str>,
    append_missing_final_newline: bool,
    output_form_selector: &str,
) -> (r: Result<SignInput, OpResult>)
    ensures
        match r {
            Ok(input) => {
                &&& algorithm_of(algorithm_selector@) == Some(input.algorithm)
                &&& form_of(output_form_selector@) == Some(input.output_form)
                &&& input.payload@ == encode_utf8(payload_text@)
                &&& decoded_key_bytes(signing_key@) == Ok::<Seq<u8>, Seq<char>>(input.key_bytes@)
                &&& signing_key_ok(input.algorithm, input.key_bytes@)
                &&& opt_view(input.keyid) == keyid_of(opt_str_view(keyid))
                &&& input.append_missing_final_newline == append_missing_final_newline
            },
            Err(e) => if algorithm_of(algorithm_selector@) is None {
                e@ == invocation_view("invalid_or_unsupported_algorithm"@)
            } else if form_of(output_form_selector@) is None {
                e@ == invocation_view("invalid_or_unsupported_output_form"@)
            } else {
                match decoded_key_bytes(signing_key@) {
                    Err(m) => e@ == err_view("invocation_error"@, m),
                    Ok(key) => !signing_key_ok(algorithm_of(algorithm_selector@)->0, key) && e@
                        == invocation_view("invalid_signing_key"@),
                }
            },
        },
{
    let alg = match algorithm(algorithm_selector) {
        Some(a) => a,
        None => return Err(OpResult::invocation("invalid_or_unsupported_algorithm")),
    };
    let output_form = match form(output_form_selector) {
        Some(f) => f,
        None => return Err(OpResult::invocation("invalid_or_unsupported_output_form")),
    };
    let payload = decode_yaml_text(payload_text);
    let key_bytes = match decode_key_bytes(signing_key) {
        Ok(bytes) => bytes,
        Err(message) => return Err(decode_failure(message)),
    };
    let key_ok = match alg {
        AlgorithmId::Ed25519 => key_bytes.len() == 32,
        AlgorithmId::EcdsaP256Sha256 => p256_secret_key_accepted(key_bytes.as_slice()),
    };
    if !key_ok {
        return Err(OpResult::invocation("invalid_signing_key"));
    }
    let keyid = match keyid {
        Some(k) => if k.is_empty() {
            None
        } else {
            Some(owned(k))
        },
        None => None,
    };
    Ok(SignInput { payload, algorithm: alg, key_bytes, keyid, append_missing_final_newline, output_form })
}

/// The signer's `SignOutcome`.
pub enum SignOutcome {
    Success { artifact: Vec<u8>, modified_payload: Vec<u8> },
    Invocation(SignInvocation),
    Signer(SignFailure),
}

pub open spec fn signed(outcome: SignOutcome, form: Seq<char>) -> OpView {
    match outcome {
        SignOutcome::Success { artifact, modified_payload } => (
            "success"@,
            None,
            encoded_payload(artifact@, form),
            if modified_payload@.len() == 0 {
                seq![]
            } else {
                yaml_text_of(modified_payload@)
            },
            if modified_payload@.len() == 0 {
                seq![]
            } else {
                "modified payload"@
            },
        ),
        SignOutcome::Invocation(e) => invocation_view(sign_invocation_code_of(e)),
        SignOutcome::Signer(e) => err_view("signer_error"@, sign_error_code_of(e)),
    }
}

/// The result shown for the signer's outcome; the artifact is written in `form`.
pub fn sign_result(outcome: SignOutcome, form: &str) -> (r: OpResult)
    ensures
        r@ == signed(outcome, form@),
{
    match outcome {
        SignOutcome::Success { artifact, modified_payload } => {
            let mut result = OpResult::with_status("success");
            result.primary = encode_payload(&artifact, form);
            if modified_payload.len() != 0 {
                result.extra = encode_yaml_text(&modified_payload);
                result.extra_label = owned("modified payload");
            }
            result
        },
        SignOutcome::Invocation(error) => OpResult::invocation(sign_invocation_code(error)),
        SignOutcome::Signer(error) => OpResult::err("signer_error", sign_error_code(error)),
    }
}

// ---------------------------------------------------------------------------
// Verify.
// ---------------------------------------------------------------------------

/// What the verifier is asked: the artifact, its form, the algorithm to
/// verify with and the raw public key bytes (resolved by the verifier).
pub struct VerifyInput {
    pub artifact: Vec<u8>,
    pub form: Form,
    pub algorithm: AlgorithmId,
    pub key_bytes: Vec<u8>,
}

/// Reads the verify fields.
pub fn verify_request(
    artifact_text: &str,
    form_selector: &str,
    algorithm_selector: &str,
    verifying_key: &str,
) -> (r: Result<VerifyInput, OpResult>)
    ensures
        match r {
            Ok(input) => {
                &&& form_of(form_selector@) == Some(input.form)
                &&& algorithm_of(algorithm_selector@) == Some(input.algorithm)
                &&& decoded_payload(artifact_text@, form_selector@) == Ok::<Seq<u8>, Seq<char>>(input.artifact@)
                &&& decoded_key_bytes(verifying_key@) == Ok::<Seq<u8>, Seq<char>>(input.key_bytes@)
            },
            Err(e) => if form_of(form_selector@) is None {
                e@ == invocation_view("invalid_or_unsupported_form"@)
            } else if algorithm_of(algorithm_selector@) is None {
                e@ == invocation_view("invalid_or_unsupported_algorithm"@)
            } else if decoded_payload(artifact_text@, form_selector@) is Err {
                e@ == err_view("invocation_error"@, decoded_payload(artifact_text@, form_selector@)->Err_0)
            } else {
                decoded_key_bytes(verifying_key@) is Err && e@ == err_view(
                    "invocation_error"@,
                    decoded_key_bytes(verifying_key@)->Err_0,
                )
            },
        },
{
    let form_sel = match form(form_selector) {
        Some(f) => f,
        None => return Err(OpResult::invocation("invalid_or_unsupported_form")),
    };
    let selected_algorithm = match algorithm(algorithm_selector) {
        Some(a) => a,
        None => return Err(OpResult::invocation("invalid_or_unsupported_algorithm")),
    };
    let artifact = match decode_payload(artifact_text, form_selector) {
        Ok(bytes) => bytes,
        Err(message) => return Err(decode_failure(message)),
    };
    let key_bytes = match decode_key_bytes(verifying_key) {
        Ok(bytes) => bytes,
        Err(message) => return Err(decode_failure(message)),
    };
    Ok(VerifyInput { artifact, form: form_sel, algorithm: selected_algorithm, key_bytes })
}

/// The verifier's `VerifierState`.
pub enum VerifierState {
    Verified { payload: Vec<u8>, algorithm: AlgorithmId },
    Unsigned,
    MalformedAttemptedSigned,
    SignedButAlgorithmUnsupported { algorithm: AlgorithmId },
    SignedButFailedVerification,
}

pub open spec fn verified(state: Result<VerifierState, VerifyInvocation>) -> OpView {
    match state {
        Err(e) => invocation_view(verify_invocation_code_of(e)),
        Ok(VerifierState::Verified { payload, algorithm }) => (
            "verified"@,
            None,
            yaml_text_of(payload@),
            algorithm_name_of(algorithm),
            "algorithm"@,
        ),
        Ok(VerifierState::Unsigned) => status_view("unsigned"@),
        Ok(VerifierState::MalformedAttemptedSigned) => status_view("malformed_attempted_signed"@),
        Ok(VerifierState::SignedButAlgorithmUnsupported { algorithm }) => (
            "signed_but_algorithm_unsupported"@,
            None,
            seq![],
            algorithm_name_of(algorithm),
            "algorithm"@,
        ),
        Ok(VerifierState::SignedButFailedVerification) => status_view("signed_but_failed_verification"@),
    }
}

/// A verified artifact is shown with the verifier's payload, read back as
/// YAML text, and names the algorithm the verifier reported: the shown name
/// selects that algorithm again.  An unsupported algorithm is named the same way.
pub proof fn law_verified_names_its_algorithm(payload: Vec<u8>, algorithm: AlgorithmId)
    ensures
        ({
            let v = verified(Ok(VerifierState::Verified { payload, algorithm }));
            &&& v.0 == "verified"@
            &&& algorithm_of(v.3) == Some(algorithm)
            &&& v.4 == "algorithm"@
            &&& valid_utf8(payload@) ==> decoded_payload(v.2, "yaml"@) == Ok::<Seq<u8>, Seq<char>>(payload@)
        }),
        algorithm_of(verified(Ok(VerifierState::SignedButAlgorithmUnsupported { algorithm })).3) == Some(
            algorithm,
        ),
{
    law_algorithm_name_selects_it(algorithm);
    reveal_strlit("yaml");
    reveal_strlit("protobuf");
    assert("yaml"@.len() != "protobuf"@.len());
    if valid_utf8(payload@) {
        decode_utf8_encode_utf8(payload@);
    }
}

/// The result shown for the verifier's answer (a key that does not resolve
/// is an invocation error too).
pub fn verify_result(state: Result<VerifierState, VerifyInvocation>) -> (r: OpResult)
    ensures
        r@ == verified(state),
{
    match state {
        Err(error) => OpResult::invocation(verify_invocation_code(error)),
        Ok(VerifierState::Verified { payload, algorithm }) => {
            let mut result = OpResult::with_status("verified");
            result.primary = encode_yaml_text(&payload);
            result.extra = owned(algorithm_name(algorithm));
            result.extra_label = owned("algorithm");
            result
        },
        Ok(VerifierState::Unsigned) => OpResult::with_status("unsigned"),
        Ok(VerifierState::MalformedAttemptedSigned) => OpResult::with_status("malformed_attempted_signed"),
        Ok(VerifierState::SignedButAlgorithmUnsupported { algorithm }) => {
            let mut result = OpResult::with_status("signed_but_algorithm_unsupported");
            result.extra = owned(algorithm_name(algorithm));
            result.extra_label = owned("algorithm");
            result
        },
        Ok(VerifierState::SignedButFailedVerification) => OpResult::with_status("signed_but_failed_verification"),
    }
}

} // verus!
