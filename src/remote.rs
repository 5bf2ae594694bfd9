//! The wire contract of remote execution: the worker's side (routing a
//! request, turning an execution's outcome into a response) and the
//! client's side (turning a response or a transport error into a verdict).

use vstd::prelude::*;

use crate::verdict::{Status, TestFailure, TestResult};

verus! {

/// The status a worker reports for one execution.
#[derive(Clone, Copy, Debug, PartialEq, Eq, Structural)]
pub enum WireStatus {
    Passed,
    Failed,
    InvalidInput,
}

pub open spec fn wire_status_spec(code: i32) -> Option<WireStatus> {
    if code == 0 {
        Some(WireStatus::Passed)
    } else if code == 1 {
        Some(WireStatus::Failed)
    } else if code == 2 {
        Some(WireStatus::InvalidInput)
    } else {
        None
    }
}

pub open spec fn status_of_wire(w: WireStatus) -> Status {
    match w {
        WireStatus::Passed => Status::Pass,
        WireStatus::Failed => Status::Fail,
        WireStatus::InvalidInput => Status::Discard,
    }
}

impl WireStatus {
    /// The status that a code on the wire stands for, if it is one of the
    /// three.
    pub fn from_code(code: i32) -> (r: Option<WireStatus>)
        ensures
            r == wire_status_spec(code),
    {
        if code == 0 {
            Some(WireStatus::Passed)
        } else if code == 1 {
            Some(WireStatus::Failed)
        } else if code == 2 {
            Some(WireStatus::InvalidInput)
        } else {
            None
        }
    }

    pub fn code(&self) -> (r: i32)
        ensures
            wire_status_spec(r) == Some(*self),
            r == (match *self {
                WireStatus::Passed => 0i32,
                WireStatus::Failed => 1i32,
                WireStatus::InvalidInput => 2i32,
            }),
    {
        match self {
            WireStatus::Passed => 0,
            WireStatus::Failed => 1,
            WireStatus::InvalidInput => 2,
        }
    }

    /// The verdict status for this wire status.
    pub fn to_status(&self) -> (r: Status)
        ensures
            r == status_of_wire(*self),
    {
        match self {
            WireStatus::Passed => Status::Pass,
            WireStatus::Failed => Status::Fail,
            WireStatus::InvalidInput => Status::Discard,
        }
    }
}

/// One request: which registered test to run, on which encoded arguments.
#[derive(Clone, Debug, PartialEq)]
pub struct ExecuteRequest {
    pub test_id: String,
    pub arguments: Vec<u8>,
}

/// A worker's answer to one request.
#[derive(Clone, Debug, PartialEq)]
pub struct ExecuteResponse {
    pub status: i32,
    pub failure_detail: Option<String>,
    /// The encoded return value; present only when the status is passed.
    pub return_value: Option<Vec<u8>>,
}

/// How the registered test function ended on the worker.
#[derive(Clone, Debug, PartialEq)]
pub enum Execution {
    /// It returned a value, here already encoded.
    Returned(Vec<u8>),
    /// It returned an application error.
    Rejected(String),
    /// It terminated abnormally; the rendered payload.
    Panicked(String),
}

pub open spec fn panic_prefix() -> Seq<char> {
    "Panic: "@
}

/// `a` and `b` hold the same characters.
pub fn same_text(a: &str, b: &str) -> (r: bool)
    ensures
        r == (a@ == b@),
{
    let n = a.unicode_len();
    if n != b.unicode_len() {
        return false;
    }
    let mut i: usize = 0;
    while i < n
        invariant
            n == a@.len(),
            n == b@.len(),
            0 <= i <= n,
            a@.take(i as int) == b@.take(i as int),
        decreases n - i,
    {
        if a.get_char(i) != b.get_char(i) {
            assert(a@[i as int] != b@[i as int]);
            return false;
        }
        assert(a@.take(i + 1) =~= a@.take(i as int).push(a@[i as int]));
        assert(b@.take(i + 1) =~= b@.take(i as int).push(b@[i as int]));
        i = i + 1;
    }
    assert(a@.take(n as int) =~= a@);
    assert(b@.take(n as int) =~= b@);
    true
}

/// `s` begins with `p`.
pub fn starts_with(s: &str, p: &str) -> (r: bool)
    ensures
        r == (p@.len() <= s@.len() && s@.take(p@.len() as int) == p@),
{
    let n = p.unicode_len();
    if n > s.unicode_len() {
        return false;
    }
    let mut i: usize = 0;
    while i < n
        invariant
            n == p@.len(),
            n <= s@.len(),
            0 <= i <= n,
            s@.take(i as int) == p@.take(i as int),
        decreases n - i,
    {
        if s.get_char(i) != p.get_char(i) {
            assert(s@.take(n as int)[i as int] != p@[i as int]);
            return false;
        }
        assert(s@.take(i + 1) =~= s@.take(i as int).push(s@[i as int]));
        assert(p@.take(i + 1) =~= p@.take(i as int).push(p@[i as int]));
        i = i + 1;
    }
    assert(p@.take(n as int) =~= p@);
    true
}

pub open spec fn not_found_text(requested: Seq<char>, served: Seq<char>) -> Seq<char> {
    "Test '"@ + requested + "' not found. This runner only supports '"@ + served + "'"@
}

/// A worker serves one test: a request for another one is refused with a
/// not-found message.
pub fn route(requested: &str, served: &str) -> (r: Result<(), String>)
    ensures
        r.is_ok() == (requested@ == served@),
        r matches Err(m) ==> m@ == not_found_text(requested@, served@),
{
    if same_text(requested, served) {
        Ok(())
    } else {
        let mut m = String::from_str("Test '");
        m.append(requested);
        m.append("' not found. This runner only supports '");
        m.append(served);
        m.append("'");
        Err(m)
    }
}

/// The rendering of a termination payload that is text, or a fixed
/// message when it is not.
pub fn panic_text(payload: Option<String>) -> (r: String)
    ensures
        payload matches Some(p) ==> r == p,
        payload is None ==> r@ == "Unknown panic occurred"@,
{
    match payload {
        Some(p) => p,
        None => String::from_str("Unknown panic occurred"),
    }
}

/// The response a worker sends for one execution's outcome: a returned
/// value passes and carries the value; an application error or an abnormal
/// termination fails with its detail, the latter marked as a panic.
pub fn worker_response(e: Execution) -> (r: ExecuteResponse)
    ensures
        match e {
            Execution::Returned(v) => r.status == 0 && r.failure_detail.is_none() && r.return_value
                == Some(v),
            Execution::Rejected(m) => r.status == 1 && r.failure_detail == Some(m)
                && r.return_value.is_none(),
            Execution::Panicked(m) => {
                &&& r.status == 1
                &&& r.failure_detail matches Some(d) && d@ == panic_prefix() + m@
                &&& r.return_value.is_none()
            },
        },
{
    match e {
        Execution::Returned(v) => ExecuteResponse {
            status: WireStatus::Passed.code(),
            failure_detail: None,
            return_value: Some(v),
        },
        Execution::Rejected(m) => ExecuteResponse {
            status: WireStatus::Failed.code(),
            failure_detail: Some(m),
            return_value: None,
        },
        Execution::Panicked(m) => {
            let mut d = String::from_str("Panic: ");
            d.append(m.as_str());
            ExecuteResponse { status: WireStatus::Failed.code(), failure_detail: Some(d), return_value: None }
        },
    }
}

/// The classification of a worker-reported failure: an abnormal termination
/// is a failure of the run, anything else a failure of the property.
pub open spec fn remote_failure(detail: Option<String>) -> TestFailure {
    match detail {
        Some(d) => if panic_prefix().len() <= d@.len() && d@.take(panic_prefix().len() as int)
            == panic_prefix() {
            TestFailure::Runtime(d)
        } else {
            TestFailure::Property(Some(d))
        },
        None => TestFailure::Property(None),
    }
}

pub open spec fn malformed_text() -> Seq<char> {
    "unknown response status"@
}

/// The verdict for a worker's response on the arguments rendered as
/// `witness`. The return value is kept only on a pass; a status code that is
/// none of the three makes the response malformed, a failure of the run.
pub fn remote_verdict(resp: ExecuteResponse, witness: String) -> (r: TestResult)
    ensures
        r.arguments@ == seq![witness],
        match wire_status_spec(resp.status) {
            None => {
                &&& r.status == Status::Fail
                &&& r.failure matches Some(TestFailure::Runtime(m)) && m@ == transport_text(malformed_text())
                &&& r.return_value.is_none()
            },
            Some(w) => {
                &&& r.status == status_of_wire(w)
                &&& r.failure == (if r.status == Status::Fail {
                    Some(remote_failure(resp.failure_detail))
                } else {
                    None
                })
                &&& r.return_value == (if r.status == Status::Pass {
                    resp.return_value
                } else {
                    None
                })
            },
        },
{
    let status = match WireStatus::from_code(resp.status) {
        Some(w) => w.to_status(),
        None => {
            return transport_failure(witness, "unknown response status");
        },
    };
    let arguments = vec![witness];
    assert(arguments@ =~= seq![witness]);
    match status {
        Status::Pass => TestResult { status, arguments, failure: None, return_value: resp.return_value },
        Status::Discard => TestResult { status, arguments, failure: None, return_value: None },
        Status::Fail => {
            let failure = match resp.failure_detail {
                Some(d) => {
                    proof {
                        reveal_strlit("Panic: ");
                    }
                    if starts_with(d.as_str(), "Panic: ") {
                        TestFailure::Runtime(d)
                    } else {
                        TestFailure::Property(Some(d))
                    }
                },
                None => TestFailure::Property(None),
            };
            TestResult { status, arguments, failure: Some(failure), return_value: None }
        },
    }
}

pub open spec fn transport_text(error: Seq<char>) -> Seq<char> {
    "Tester failed to call runner: "@ + error
}

/// The verdict when the worker could not be reached or its answer could not
/// be read: a failure of the run, never retried.
pub fn transport_failure(witness: String, error: &str) -> (r: TestResult)
    ensures
        r.status == Status::Fail,
        r.arguments@ == seq![witness],
        r.failure matches Some(TestFailure::Runtime(m)) && m@ == transport_text(error@),
        r.return_value.is_none(),
{
    let mut m = String::from_str("Tester failed to call runner: ");
    m.append(error);
    let arguments = vec![witness];
    assert(arguments@ =~= seq![witness]);
    TestResult { status: Status::Fail, arguments, failure: Some(TestFailure::Runtime(m)), return_value: None }
}

} // verus!
