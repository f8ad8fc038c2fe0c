//! Summaries are produced by a worker child process. This module decides
//! what the child's exit means, how its failures are reported to clients,
//! and when a summary can be asked for at all.

use vstd::prelude::*;

use crate::model::{SessionId, Segment};
use crate::sessions::{message_of, session_not_found, ApiError, NO_TRANSCRIPT, SESSION_PREFIX};
use crate::ids::ulid_text;
use crate::text::{
    chars_of, decimal, digits_value, lemma_decimal, push_decimal, push_str, string_from_chars, trim,
    trim_chars,
};

verus! {

/// Why the summarize worker did not produce a summary.
#[derive(Debug, Clone)]
pub enum SummarizeChildError {
    /// Starting the child or talking to it failed.
    Io(String),
    /// The request could not be serialized.
    Serialize(String),
    /// The child exited unsuccessfully.
    ChildFailed { status: i32, stderr: String },
    /// The worker binary does not exist.
    BinaryMissing(String),
}

/// The decimal text of a signed number.
pub open spec fn signed_decimal(v: int) -> Seq<char> {
    if v < 0 {
        seq!['-'] + decimal((-v) as nat)
    } else {
        decimal(v as nat)
    }
}

fn push_signed(out: &mut Vec<char>, v: i32)
    ensures
        final(out)@ == old(out)@ + signed_decimal(v as int),
{
    if v < 0 {
        out.push('-');
        let m: i64 = -(v as i64);
        push_decimal(out, m as u32);
        assert(out@ == old(out)@ + (seq!['-'] + decimal((-v) as nat)));
    } else {
        push_decimal(out, v as u32);
    }
}

pub const IO_PREFIX: &'static str = "io: ";

pub const SERIALIZE_PREFIX: &'static str = "serialize request: ";

pub const FAILED_PREFIX: &'static str = "child exited with status ";

pub const BINARY_PREFIX: &'static str = "child binary `";

pub const BINARY_SUFFIX: &'static str = "` not found";

pub const SUMMARIZE_PREFIX: &'static str = "summarize: ";

pub const WORKER_MISSING_PREFIX: &'static str = "summarize worker binary not found at `";

pub const BACKTICK: &'static str = "`";

/// The text an error is reported with.
pub open spec fn child_error_text(e: SummarizeChildError) -> Seq<char> {
    match e {
        SummarizeChildError::Io(m) => IO_PREFIX@ + m@,
        SummarizeChildError::Serialize(m) => SERIALIZE_PREFIX@ + m@,
        SummarizeChildError::ChildFailed { status, stderr } => FAILED_PREFIX@ + signed_decimal(
            status as int,
        ) + seq![':', ' '] + stderr@,
        SummarizeChildError::BinaryMissing(p) => BINARY_PREFIX@ + p@ + BINARY_SUFFIX@,
    }
}

impl SummarizeChildError {
    /// The text the error is reported with.
    pub fn message(&self) -> (s: String)
        ensures
            s@ == child_error_text(*self),
    {
        let mut out: Vec<char> = Vec::new();
        match self {
            SummarizeChildError::Io(m) => {
                push_str(&mut out, IO_PREFIX);
                push_str(&mut out, m.as_str());
            },
            SummarizeChildError::Serialize(m) => {
                push_str(&mut out, SERIALIZE_PREFIX);
                push_str(&mut out, m.as_str());
            },
            SummarizeChildError::ChildFailed { status, stderr } => {
                push_str(&mut out, FAILED_PREFIX);
                push_signed(&mut out, *status);
                out.push(':');
                out.push(' ');
                push_str(&mut out, stderr.as_str());
                assert(out@ =~= FAILED_PREFIX@ + signed_decimal(*status as int) + seq![':', ' ']
                    + stderr@);
            },
            SummarizeChildError::BinaryMissing(p) => {
                push_str(&mut out, BINARY_PREFIX);
                push_str(&mut out, p.as_str());
                push_str(&mut out, BINARY_SUFFIX);
            },
        }
        string_from_chars(&out)
    }
}

/// What a finished child run means: on success its output is the summary;
/// otherwise it failed with its exit code (-1 when it has none, e.g. when
/// killed by a signal) and its trimmed error output.
pub fn child_outcome(success: bool, code: Option<i32>, stdout: String, stderr: String) -> (r: Result<
    String,
    SummarizeChildError,
>)
    ensures
        success ==> r == Ok::<String, SummarizeChildError>(stdout),
        !success ==> (r matches Err(SummarizeChildError::ChildFailed { status, stderr: e }) && status
            == match code {
            Some(c) => c as int,
            None => -1int,
        } && e@ == trim(stderr@)),
{
    if !success {
        let t = trim_chars(&chars_of(stderr.as_str()));
        return Err(
            SummarizeChildError::ChildFailed {
                status: match code {
                    Some(c) => c,
                    None => -1,
                },
                stderr: string_from_chars(&t),
            },
        );
    }
    Ok(stdout)
}

/// How a failed summary request is answered: a missing worker binary is the
/// client's problem to fix (400), anything else is a server error.
pub fn to_api_error(e: SummarizeChildError) -> (a: ApiError)
    ensures
        match e {
            SummarizeChildError::BinaryMissing(p) => a is BadRequest && message_of(a)
                == WORKER_MISSING_PREFIX@ + p@ + BACKTICK@,
            _ => a is Internal && message_of(a) == SUMMARIZE_PREFIX@ + child_error_text(e),
        },
{
    match e {
        SummarizeChildError::BinaryMissing(p) => {
            let mut out = chars_of(WORKER_MISSING_PREFIX);
            push_str(&mut out, p.as_str());
            push_str(&mut out, BACKTICK);
            ApiError::BadRequest(string_from_chars(&out))
        },
        other => {
            let m = other.message();
            let mut out = chars_of(SUMMARIZE_PREFIX);
            push_str(&mut out, m.as_str());
            ApiError::Internal(string_from_chars(&out))
        },
    }
}

pub const MODEL_MISSING_PREFIX: &'static str = "summarization model not found at `";

pub const MODEL_MISSING_SUFFIX: &'static str = "`. Run scripts/setup-models.sh to fetch one.";

/// Whether a summary may be asked for. A session that does not exist is
/// "not found". A session without a transcript is a bad request: when the
/// summarization model at `model_path` is missing too, the answer names the
/// model (the daemon's API test asks a session with neither to be refused
/// for the model), otherwise it says there is no transcript yet. A session
/// with a transcript may go ahead whether or not the model is there: the
/// worker is started, and a missing model makes it fail, as it always has.
pub fn check_resummarize(
    id: SessionId,
    session_found: bool,
    model_path: &str,
    model_found: bool,
    segments: &[Segment],
) -> (r: Result<(), ApiError>)
    ensures
        r is Ok <==> session_found && segments@.len() > 0,
        !session_found ==> (r matches Err(e) && e is NotFound && message_of(e) == SESSION_PREFIX@
            + ulid_text(id.value)),
        session_found && segments@.len() == 0 && !model_found ==> (r matches Err(e)
            && e is BadRequest && message_of(e) == MODEL_MISSING_PREFIX@ + model_path@
            + MODEL_MISSING_SUFFIX@),
        session_found && segments@.len() == 0 && model_found ==> (r matches Err(e)
            && e is BadRequest && message_of(e) == NO_TRANSCRIPT@),
{
    if !session_found {
        return Err(session_not_found(id));
    }
    if segments.len() == 0 {
        if !model_found {
            let mut out = chars_of(MODEL_MISSING_PREFIX);
            push_str(&mut out, model_path);
            push_str(&mut out, MODEL_MISSING_SUFFIX);
            return Err(ApiError::BadRequest(string_from_chars(&out)));
        }
        return Err(ApiError::BadRequest(NO_TRANSCRIPT.to_owned()));
    }
    Ok(())
}

/// The signed decimal text of `v` is its sign (only for a negative `v`)
/// followed by the digits that spell its magnitude.
pub proof fn lemma_signed_decimal(v: int)
    ensures
        v >= 0 ==> signed_decimal(v) == decimal(v as nat) && digits_value(signed_decimal(v)) == v,
        v < 0 ==> signed_decimal(v)[0] == '-' && signed_decimal(v).drop_first() == decimal((-v) as nat)
            && digits_value(signed_decimal(v).drop_first()) == -v,
{
    if v >= 0 {
        lemma_decimal(v as nat);
    } else {
        lemma_decimal((-v) as nat);
        assert(signed_decimal(v).drop_first() =~= decimal((-v) as nat));
    }
}

} // verus!
