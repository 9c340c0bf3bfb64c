use vstd::prelude::*;
use vstd::string::*;
use crate::hexcode::{hex_bytes_of, hex_decode, hex_valid};

verus! {

/// The three test modes a fixture entry can declare.
#[derive(Clone, Copy, PartialEq, Eq, Structural, Debug)]
pub enum TestMode {
    RoundTrip,
    RejectInput,
    RejectOutput,
}

/// One fixture entry as it stands in a fixture file: the declared mode, the
/// payload as a hex string, and an optional stable identifier.
pub struct RawCase {
    pub test_type: String,
    pub data: String,
    pub id: Option<String>,
}

pub ghost struct RawCaseModel {
    pub test_type: Seq<char>,
    pub data: Seq<char>,
    pub id: Option<Seq<char>>,
}

impl View for RawCase {
    type V = RawCaseModel;

    open spec fn view(&self) -> RawCaseModel {
        RawCaseModel {
            test_type: self.test_type@,
            data: self.data@,
            id: match self.id {
                Some(s) => Some(s@),
                None => None,
            },
        }
    }
}

/// One fixture entry, parsed: mode, raw payload bytes, optional identifier.
#[derive(Debug)]
pub struct TestCaseDescriptor {
    pub mode: TestMode,
    pub payload: Vec<u8>,
    pub id: Option<String>,
}

pub ghost struct DescriptorModel {
    pub mode: TestMode,
    pub payload: Seq<u8>,
    pub id: Option<Seq<char>>,
}

impl View for TestCaseDescriptor {
    type V = DescriptorModel;

    open spec fn view(&self) -> DescriptorModel {
        DescriptorModel {
            mode: self.mode,
            payload: self.payload@,
            id: match self.id {
                Some(s) => Some(s@),
                None => None,
            },
        }
    }
}

/// The descriptor a well-formed fixture entry parses to.
pub open spec fn descriptor_of_raw(c: RawCaseModel) -> DescriptorModel {
    DescriptorModel {
        mode: mode_of(c.test_type).unwrap(),
        payload: hex_bytes_of(c.data),
        id: c.id,
    }
}

/// The mode a fixture's `type` string declares, if any.
pub open spec fn mode_of(s: Seq<char>) -> Option<TestMode> {
    if s == "roundtrip"@ {
        Some(TestMode::RoundTrip)
    } else if s == "invalid_in"@ {
        Some(TestMode::RejectInput)
    } else if s == "invalid_out"@ {
        Some(TestMode::RejectOutput)
    } else {
        None
    }
}

fn str_eq(a: &str, b: &str) -> (r: bool)
    ensures
        r == (a@ == b@),
{
    let sa = a.to_owned();
    let sb = b.to_owned();
    sa.eq(&sb)
}

pub fn parse_mode(s: &str) -> (r: Option<TestMode>)
    ensures
        r == mode_of(s@),
{
    if str_eq(s, "roundtrip") {
        Some(TestMode::RoundTrip)
    } else if str_eq(s, "invalid_in") {
        Some(TestMode::RejectInput)
    } else if str_eq(s, "invalid_out") {
        Some(TestMode::RejectOutput)
    } else {
        None
    }
}

/// Parse one fixture entry.  It succeeds exactly when the declared mode is
/// known and the payload is well-formed hex; anything else is a corpus
/// error, not a codec failure.
pub fn parse_case(c: RawCase) -> (r: Result<TestCaseDescriptor, String>)
    ensures
        r is Ok <==> (mode_of(c@.test_type) is Some && hex_valid(c@.data)),
        r matches Ok(d) ==> {
            &&& Some(d@.mode) == mode_of(c@.test_type)
            &&& d@.payload == hex_bytes_of(c@.data)
            &&& d@.id == c@.id
        },
        r matches Err(e) ==> e@.len() > 0,
{
    let mode = match parse_mode(c.test_type.as_str()) {
        Some(m) => m,
        None => {
            proof {
                reveal_strlit("unknown test type: ");
            }
            let mut msg = "unknown test type: ".to_owned();
            msg.append(c.test_type.as_str());
            return Err(msg);
        },
    };
    let payload = match hex_decode(c.data.as_str()) {
        Some(p) => p,
        None => {
            proof {
                reveal_strlit("failed to decode hex: ");
            }
            let mut msg = "failed to decode hex: ".to_owned();
            msg.append(c.data.as_str());
            return Err(msg);
        },
    };
    Ok(TestCaseDescriptor { mode, payload, id: c.id })
}

} // verus!

verus! {

/// Parse a fixture file's entries in order.  The first malformed entry is a
/// corpus error and aborts the parse; otherwise every entry is kept, in
/// fixture order.
#[verifier::loop_isolation(false)]
pub fn parse_cases(cs: Vec<RawCase>) -> (r: Result<Vec<TestCaseDescriptor>, String>)
    ensures
        r matches Ok(ds) ==> {
            &&& ds@.len() == cs@.len()
            &&& forall|i: int|
                0 <= i < cs@.len() ==> {
                    &&& Some(#[trigger] ds@[i]@.mode) == mode_of(cs@[i]@.test_type)
                    &&& ds@[i]@.payload == hex_bytes_of(cs@[i]@.data)
                    &&& ds@[i]@.id == cs@[i]@.id
                }
        },
        r is Ok <==> (forall|i: int|
            0 <= i < cs@.len() ==> #[trigger] mode_of(cs@[i]@.test_type) is Some && hex_valid(
                cs@[i]@.data,
            )),
        r matches Err(e) ==> e@.len() > 0,
{
    let ghost orig = cs@;
    let mut cs = cs;
    let mut out: Vec<TestCaseDescriptor> = Vec::new();
    while cs.len() > 0
        invariant
            out@.len() + cs@.len() == orig.len(),
            cs@ =~= orig.subrange(out@.len() as int, orig.len() as int),
            forall|j: int|
                0 <= j < out@.len() ==> {
                    &&& Some(#[trigger] out@[j]@.mode) == mode_of(orig[j]@.test_type)
                    &&& out@[j]@.payload == hex_bytes_of(orig[j]@.data)
                    &&& out@[j]@.id == orig[j]@.id
                },
            forall|j: int|
                0 <= j < out@.len() ==> #[trigger] mode_of(orig[j]@.test_type) is Some
                    && hex_valid(orig[j]@.data),
        decreases cs@.len(),
    {
        let c = cs.remove(0);
        match parse_case(c) {
            Ok(d) => out.push(d),
            Err(e) => {
                return Err(e);
            },
        }
    }
    Ok(out)
}

} // verus!
