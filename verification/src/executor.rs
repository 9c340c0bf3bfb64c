use vstd::prelude::*;
use crate::codec::{
    canonical_decodes, cbor_decode_generic, drisl_decode, drisl_encode_decoded, drisl_reencoded,
    drisl_generic_encodes, drisl_roundtrip, drisl_roundtrip_ok, permissive_decoded,
    permissive_decodes,
};
use crate::corpus::{
    descriptor_of_raw, mode_of, parse_cases, DescriptorModel, RawCase, TestCaseDescriptor,
    TestMode,
};
use crate::hexcode::{hex_bytes_of, hex_chars_of, hex_encode, hex_valid, lemma_hex_chars_injective};
use crate::report::{flag_outcome, skipped_outcome, Outcome, OutcomeModel, PassState, Report};
use crate::skip::{skip_hits, SkipSet};
use crate::value::{
    bridge_diag_shape, bridge_err, generic_to_canonical, has_prefix, representable,
    CanonicalValue, GenericValue,
};
use crate::bytes_eq;

verus! {

/// Round-trip through the codec under test: decode the payload, then
/// re-encode the decoded value.  Both steps read the bytes alone, so the
/// call succeeds exactly when decode and re-encode both do, and then
/// returns exactly the codec's re-encoding; a failure keeps the failing
/// stage's diagnostic.
pub fn roundtrip(b: &[u8]) -> (r: Result<Vec<u8>, String>)
    ensures
        r is Ok <==> (canonical_decodes(b@) && drisl_roundtrip_ok(b@)),
        r matches Ok(v) ==> v@ == drisl_reencoded(b@),
        r matches Err(e) ==> e@.len() > 0,
        (r is Err && !canonical_decodes(b@)) ==> has_prefix(
            r->Err_0@,
            "drisl decode error: "@,
        ),
        (r is Err && canonical_decodes(b@)) ==> has_prefix(r->Err_0@, "drisl encode error: "@),
{
    drisl_roundtrip(b)
}

/// Whether the codec under test refuses to decode these bytes.  On a
/// refusal the decoder's diagnostic is kept; on an acceptance the string is
/// empty.
pub fn invalid_decode(b: &[u8]) -> (r: (bool, String))
    ensures
        r.0 == !canonical_decodes(b@),
        !r.0 ==> r.1@ == Seq::<char>::empty(),
        r.0 ==> r.1@.len() > 0 && has_prefix(r.1@, "drisl decode error: "@),
{
    match drisl_decode(b) {
        Ok(_) => (false, String::new()),
        Err(e) => (true, e),
    }
}

/// Decode bytes with the permissive codec into the harness's own value
/// model.
pub fn decode_generic(b: &[u8]) -> (r: Result<GenericValue, String>)
    ensures
        r is Ok <==> permissive_decodes(b@),
        r matches Ok(g) ==> g@ == permissive_decoded(b@),
{
    cbor_decode_generic(b)
}

/// The reject-output verdict, from the two collaborator responses: the case
/// passes exactly when the Value Bridge refused the decoded value or the
/// codec's encoder refused; it fails exactly when both accepted.  The kept
/// diagnostic is the refusal's own.
pub fn reject_output_verdict(
    bridge: Result<CanonicalValue, String>,
    enc: Option<Result<Vec<u8>, String>>,
) -> (r: (bool, String))
    requires
        bridge is Ok <==> enc is Some,
    ensures
        r.0 == !(bridge is Ok && enc->0 is Ok),
        bridge matches Err(e) ==> r.1 == e,
        (bridge is Ok && enc->0 is Err) ==> r.1@ == (enc->0)->Err_0@,
        !r.0 ==> r.1@ == Seq::<char>::empty(),
{
    match bridge {
        Err(diag) => (true, diag),
        Ok(_) => match enc {
            Some(Ok(_)) => (false, String::new()),
            Some(Err(e)) => (true, e),
            None => (false, String::new()),
        },
    }
}

/// Reject-output check: decode the payload with the permissive codec (a
/// refusal there is a harness error, not a test outcome), run the Value
/// Bridge, and only when the bridge accepts ask the codec under test to
/// encode the decoded value.  The verdict is a function of the payload:
/// refusal exactly when the value is unrepresentable or the encoder
/// refuses.
pub fn invalid_encode(b: &[u8]) -> (r: Result<(bool, String), String>)
    ensures
        r is Ok <==> permissive_decodes(b@),
        r matches Ok(f) ==> f.0 == !(representable(permissive_decoded(b@))
            && drisl_generic_encodes(b@)),
        (r is Ok && !representable(permissive_decoded(b@))) ==> ((r->Ok_0).1@ == bridge_err(
            permissive_decoded(b@),
        ) && bridge_diag_shape((r->Ok_0).1@)),
{
    let g = match cbor_decode_generic(b) {
        Ok(g) => g,
        Err(e) => {
            return Err(e);
        },
    };
    let bridge = generic_to_canonical(g);
    let enc = if bridge.is_ok() {
        Some(drisl_encode_decoded(b))
    } else {
        None
    };
    Ok(reject_output_verdict(bridge, enc))
}

/// The outcome a round-trip case must get for a given re-encoding response:
/// byte-identical output is a pass; different output is a failure carrying
/// the re-encoding in hex; a decode or encode refusal is a failure carrying
/// the diagnostic.
pub open spec fn roundtrip_outcome(payload: Seq<u8>, enc: Result<Seq<u8>, Seq<char>>) -> OutcomeModel {
    match enc {
        Ok(out) => if out == payload {
            OutcomeModel { pass: PassState::Passed, output: None, error: None }
        } else {
            OutcomeModel {
                pass: PassState::Failed,
                output: Some(hex_chars_of(out)),
                error: None,
            }
        },
        Err(e) => OutcomeModel { pass: PassState::Failed, output: None, error: Some(e) },
    }
}

pub open spec fn bytes_result_model(r: Result<Vec<u8>, String>) -> Result<Seq<u8>, Seq<char>> {
    match r {
        Ok(v) => Ok(v@),
        Err(e) => Err(e@),
    }
}

/// Classify a round-trip case from the codec's response.
pub fn classify_roundtrip(payload: &[u8], reencoded: Result<Vec<u8>, String>) -> (o: Outcome)
    ensures
        o@ == roundtrip_outcome(payload@, bytes_result_model(reencoded)),
        o@.output matches Some(h) ==> h != hex_chars_of(payload@),
{
    match reencoded {
        Ok(out) => {
            if bytes_eq(payload, out.as_slice()) {
                Outcome { pass: PassState::Passed, output: None, error: None }
            } else {
                proof {
                    if hex_chars_of(out@) == hex_chars_of(payload@) {
                        lemma_hex_chars_injective(out@, payload@);
                    }
                }
                let h = hex_encode(out.as_slice());
                Outcome { pass: PassState::Failed, output: Some(h), error: None }
            }
        },
        Err(e) => Outcome { pass: PassState::Failed, output: None, error: Some(e) },
    }
}

/// Classify a rejection-mode case from the refusal flag and diagnostic.
pub fn classify_flag(refused: bool, info: String) -> (o: Outcome)
    ensures
        o@ == flag_outcome(refused, info@),
{
    if refused {
        Outcome { pass: PassState::Passed, output: None, error: Some(info) }
    } else {
        Outcome { pass: PassState::Failed, output: None, error: None }
    }
}

/// What the executor's contract pins about the outcome of one case, given
/// whether the skip policy applies: everything but the text of a
/// diagnostic is a function of the payload.
pub open spec fn case_ok_post(d: DescriptorModel, skipped: bool, o: OutcomeModel) -> bool {
    if skipped {
        o == skipped_outcome()
    } else {
        match d.mode {
            TestMode::RoundTrip => {
                &&& (if canonical_decodes(d.payload) && drisl_roundtrip_ok(d.payload) {
                    o == roundtrip_outcome(d.payload, Ok(drisl_reencoded(d.payload)))
                } else {
                    o.pass == PassState::Failed && o.output is None && (o.error matches Some(e)
                        && e.len() > 0)
                })
                &&& (o.output matches Some(h) ==> h != hex_chars_of(d.payload))
            },
            TestMode::RejectInput => {
                &&& o.pass == (if canonical_decodes(d.payload) {
                    PassState::Failed
                } else {
                    PassState::Passed
                })
                &&& o.output is None
                &&& ((o.pass == PassState::Passed) <==> (o.error is Some))
                &&& (o.error matches Some(e) ==> e.len() > 0)
            },
            TestMode::RejectOutput => {
                &&& o.pass == (if representable(permissive_decoded(d.payload))
                    && drisl_generic_encodes(d.payload) {
                    PassState::Failed
                } else {
                    PassState::Passed
                })
                &&& o.output is None
                &&& ((o.pass == PassState::Passed) <==> (o.error is Some))
                &&& (!representable(permissive_decoded(d.payload)) ==> (o.error matches Some(e)
                    && e == bridge_err(permissive_decoded(d.payload)) && bridge_diag_shape(e)))
            },
        }
    }
}

/// Run one test case against the codec under test.  A skipped case gets the
/// not-applicable outcome untouched by its mode; a reject-output case whose
/// payload the permissive codec cannot decode is a harness error.
pub fn run_case(case: &TestCaseDescriptor, skip: &SkipSet) -> (r: Result<Outcome, String>)
    ensures
        r is Err <==> (case@.mode == TestMode::RejectOutput && !skip_hits(skip@, case@.id)
            && !permissive_decodes(case@.payload)),
        r matches Ok(o) ==> case_ok_post(case@, skip_hits(skip@, case@.id), o@),
{
    if skip.should_skip(&case.id) {
        return Ok(Outcome { pass: PassState::NotApplicable, output: None, error: None });
    }
    match case.mode {
        TestMode::RoundTrip => {
            let enc = roundtrip(case.payload.as_slice());
            Ok(classify_roundtrip(case.payload.as_slice(), enc))
        },
        TestMode::RejectInput => {
            let (refused, info) = invalid_decode(case.payload.as_slice());
            Ok(classify_flag(refused, info))
        },
        TestMode::RejectOutput => {
            match invalid_encode(case.payload.as_slice()) {
                Ok((refused, info)) => Ok(classify_flag(refused, info)),
                Err(e) => Err(e),
            }
        },
    }
}

/// Run a fixture file's cases in order.  An empty case list yields an empty
/// outcome list; the first harness error aborts the run.
#[verifier::loop_isolation(false)]
pub fn run_tests(cases: &Vec<TestCaseDescriptor>, skip: &SkipSet) -> (r: Result<
    Vec<Outcome>,
    String,
>)
    ensures
        r matches Ok(os) ==> {
            &&& os@.len() == cases@.len()
            &&& forall|i: int|
                0 <= i < cases@.len() ==> case_ok_post(
                    cases@[i]@,
                    skip_hits(skip@, cases@[i]@.id),
                    os@[i]@,
                )
        },
        r is Err <==> (exists|i: int|
            0 <= i < cases@.len() && cases@[i]@.mode == TestMode::RejectOutput && !skip_hits(
                skip@,
                cases@[i]@.id,
            ) && !permissive_decodes(cases@[i]@.payload)),
{
    let mut out: Vec<Outcome> = Vec::new();
    let mut i: usize = 0;
    while i < cases.len()
        invariant
            0 <= i <= cases@.len(),
            out@.len() == i,
            forall|j: int|
                0 <= j < i ==> case_ok_post(cases@[j]@, skip_hits(skip@, cases@[j]@.id), out@[j]@),
            forall|j: int|
                0 <= j < i ==> !(cases@[j]@.mode == TestMode::RejectOutput && !skip_hits(
                    skip@,
                    cases@[j]@.id,
                ) && !permissive_decodes(cases@[j]@.payload)),
        decreases cases@.len() - i,
    {
        match run_case(&cases[i], skip) {
            Ok(o) => out.push(o),
            Err(e) => {
                return Err(e);
            },
        }
        i = i + 1;
    }
    Ok(out)
}

/// Reject-input law: when the case is not skipped, it passes exactly when
/// the codec under test refuses to decode the payload, and fails exactly
/// when the codec accepts it.
pub proof fn lemma_reject_input_law(d: DescriptorModel, o: OutcomeModel)
    requires
        case_ok_post(d, false, o),
        d.mode == TestMode::RejectInput,
    ensures
        (o.pass == PassState::Passed) <==> !canonical_decodes(d.payload),
        (o.pass == PassState::Failed) <==> canonical_decodes(d.payload),
{
}

/// Run-to-run idempotence, the harness's share: whatever the mode, two
/// outcomes of the same case agree in the pass state, in the output, and
/// in whether a diagnostic is present — all pinned as functions of the
/// payload through the named codec results.  Only the text of a diagnostic
/// is left to the codec.
pub proof fn lemma_pinned_cases_idempotent(
    d: DescriptorModel,
    skipped: bool,
    o1: OutcomeModel,
    o2: OutcomeModel,
)
    requires
        case_ok_post(d, skipped, o1),
        case_ok_post(d, skipped, o2),
    ensures
        o1.pass == o2.pass,
        o1.output == o2.output,
        (o1.error is Some) == (o2.error is Some),
{
}

} // verus!

verus! {

/// Round-trip law: a response byte-identical to the payload gives a clean
/// pass with no output; a different response gives a failure whose output
/// is exactly the response in hex, and never the payload's own hex.
pub proof fn lemma_roundtrip_outcome_law(payload: Seq<u8>, enc: Result<Seq<u8>, Seq<char>>)
    ensures
        (enc is Ok && enc->Ok_0 == payload) ==> roundtrip_outcome(payload, enc)
            == (OutcomeModel { pass: PassState::Passed, output: None, error: None }),
        (enc is Ok && enc->Ok_0 != payload) ==> {
            &&& roundtrip_outcome(payload, enc).pass == PassState::Failed
            &&& roundtrip_outcome(payload, enc).output == Some(hex_chars_of(enc->Ok_0))
            &&& roundtrip_outcome(payload, enc).output != Some(hex_chars_of(payload))
            &&& roundtrip_outcome(payload, enc).error is None
        },
{
    if enc is Ok && enc->Ok_0 != payload {
        if hex_chars_of(enc->Ok_0) == hex_chars_of(payload) {
            lemma_hex_chars_injective(enc->Ok_0, payload);
        }
    }
}

/// Skip law: a skipped case's outcome is exactly the not-applicable
/// sentinel, whatever the case's mode — neither a pass nor a failure, and
/// without output or error.
pub proof fn lemma_skip_outcome_law(d: DescriptorModel, o: OutcomeModel)
    requires
        case_ok_post(d, true, o),
    ensures
        o.pass == PassState::NotApplicable,
        o.pass != PassState::Passed && o.pass != PassState::Failed,
        o.output is None,
        o.error is None,
{
}

} // verus!

verus! {

/// Process one fixture file: parse its entries, run them against the codec
/// under test in fixture order, and append the outcomes to the report under
/// the file's name.  A corpus error or a harness error leaves the report
/// untouched; otherwise earlier files and the metadata are kept, and the
/// new file's outcomes stand in fixture order, each as the executor's
/// contract pins it.
pub fn run_fixture_file(
    name: String,
    raw: Vec<RawCase>,
    skip: &SkipSet,
    report: &mut Report,
) -> (r: Result<(), String>)
    ensures
        r is Err ==> *final(report) == *old(report),
        r is Ok ==> {
            &&& final(report)@.metadata == old(report)@.metadata
            &&& final(report)@.files.len() == old(report)@.files.len() + 1
            &&& final(report)@.files.subrange(0, old(report)@.files.len() as int) == old(
                report,
            )@.files
            &&& final(report)@.files.last().0 == name@
            &&& final(report)@.files.last().1.len() == raw@.len()
            &&& forall|i: int|
                0 <= i < raw@.len() ==> case_ok_post(
                    descriptor_of_raw(raw@[i]@),
                    skip_hits(skip@, raw@[i]@.id),
                    final(report)@.files.last().1[i],
                )
        },
        r is Ok ==> (forall|i: int|
            0 <= i < raw@.len() ==> #[trigger] mode_of(raw@[i]@.test_type) is Some && hex_valid(
                raw@[i]@.data,
            )),
        r is Ok ==> !(exists|i: int|
            0 <= i < raw@.len() && (#[trigger] descriptor_of_raw(raw@[i]@)).mode
                == TestMode::RejectOutput && !skip_hits(skip@, raw@[i]@.id)
                && !permissive_decodes(descriptor_of_raw(raw@[i]@).payload)),
        r is Err ==> !((forall|i: int|
            0 <= i < raw@.len() ==> #[trigger] mode_of(raw@[i]@.test_type) is Some && hex_valid(
                raw@[i]@.data,
            )) && !(exists|i: int|
            0 <= i < raw@.len() && (#[trigger] descriptor_of_raw(raw@[i]@)).mode
                == TestMode::RejectOutput && !skip_hits(skip@, raw@[i]@.id)
                && !permissive_decodes(descriptor_of_raw(raw@[i]@).payload))),
{
    let ghost raw0 = raw@;
    let ghost files0 = report@.files;
    let cases = match parse_cases(raw) {
        Ok(cs) => cs,
        Err(e) => {
            return Err(e);
        },
    };
    proof {
        assert forall|i: int| 0 <= i < raw0.len() implies #[trigger] cases@[i]@
            == descriptor_of_raw(raw0[i]@) by {
            assert(Some(cases@[i]@.mode) == mode_of(raw0[i]@.test_type));
            assert(cases@[i]@.payload == hex_bytes_of(raw0[i]@.data));
            assert(cases@[i]@.id == raw0[i]@.id);
        }
    }
    let ran = run_tests(&cases, skip);
    let outcomes = match ran {
        Ok(os) => os,
        Err(e) => {
            proof {
                let i = choose|i: int|
                    0 <= i < cases@.len() && cases@[i]@.mode == TestMode::RejectOutput
                        && !skip_hits(skip@, cases@[i]@.id) && !permissive_decodes(
                        cases@[i]@.payload,
                    );
                assert(cases@[i]@ == descriptor_of_raw(raw0[i]@));
                assert(0 <= i < raw0.len() && (#[trigger] descriptor_of_raw(raw0[i]@)).mode
                    == TestMode::RejectOutput && !skip_hits(skip@, raw0[i]@.id)
                    && !permissive_decodes(descriptor_of_raw(raw0[i]@).payload));
            }
            return Err(e);
        },
    };
    report.add_file(name, outcomes);
    proof {
        assert(report@.files.subrange(0, files0.len() as int) =~= files0);
        assert(!(exists|i: int|
            0 <= i < raw0.len() && (#[trigger] descriptor_of_raw(raw0[i]@)).mode
                == TestMode::RejectOutput && !skip_hits(skip@, raw0[i]@.id)
                && !permissive_decodes(descriptor_of_raw(raw0[i]@).payload))) by {
            if exists|i: int|
                0 <= i < raw0.len() && (#[trigger] descriptor_of_raw(raw0[i]@)).mode
                    == TestMode::RejectOutput && !skip_hits(skip@, raw0[i]@.id)
                    && !permissive_decodes(descriptor_of_raw(raw0[i]@).payload) {
                let i = choose|i: int|
                    0 <= i < raw0.len() && (#[trigger] descriptor_of_raw(raw0[i]@)).mode
                        == TestMode::RejectOutput && !skip_hits(skip@, raw0[i]@.id)
                        && !permissive_decodes(descriptor_of_raw(raw0[i]@).payload);
                assert(cases@[i]@ == descriptor_of_raw(raw0[i]@));
                assert(0 <= i < cases@.len() && cases@[i]@.mode == TestMode::RejectOutput
                    && !skip_hits(skip@, cases@[i]@.id) && !permissive_decodes(
                    cases@[i]@.payload,
                ));
                assert(false);
            }
        }
    }
    Ok(())
}

} // verus!
