//! Command-line arguments of the stand-alone summarize test tool:
//! `<model.gguf> [--language LANG] [--n-ctx N]`.

use vstd::prelude::*;

use crate::pipeline_args::{opt_view, texts, value_after, LANGUAGE_FLAG};
use crate::text::{decimal, lemma_parsed_u32, parse_u32, parsed_u32, str_eq};

verus! {

pub const N_CTX_FLAG: &'static str = "--n-ctx";

/// The context window used when `--n-ctx` is absent or not a number.
pub const DEFAULT_TEST_N_CTX: u32 = 4096;

/// The tool's arguments.
#[derive(Debug, Clone)]
pub struct SummarizeTestArgs {
    pub model_path: String,
    pub language: Option<String>,
    pub n_ctx: u32,
}

/// Why the arguments were refused.
#[derive(Debug, Clone)]
pub enum SummarizeTestArgsError {
    /// No model path was given.
    Usage,
    /// An argument that is neither flag.
    Unexpected(String),
}

/// The context window `--n-ctx` sets from the argument after it (if any).
pub open spec fn n_ctx_value(v: Option<Seq<char>>) -> u32 {
    match v {
        Some(t) => match parsed_u32(t) {
            Some(n) => n,
            None => DEFAULT_TEST_N_CTX,
        },
        None => DEFAULT_TEST_N_CTX,
    }
}

/// Reads the flags from position `i` on: each flag takes the argument after
/// it (none when it is the last one); the first other argument is refused.
pub open spec fn scan_flags(raw: Seq<Seq<char>>, i: int, language: Option<Seq<char>>, n_ctx: u32) -> Result<
    (Option<Seq<char>>, u32),
    Seq<char>,
>
    decreases raw.len() + 1 - i,
{
    if i < 0 || i >= raw.len() {
        Ok((language, n_ctx))
    } else if raw[i] == LANGUAGE_FLAG@ {
        scan_flags(raw, i + 2, value_after(raw, i), n_ctx)
    } else if raw[i] == N_CTX_FLAG@ {
        scan_flags(raw, i + 2, language, n_ctx_value(value_after(raw, i)))
    } else {
        Err(raw[i])
    }
}

/// What the tool makes of its arguments: the model path first, then the
/// flags; `Err(None)` when there is no model path, `Err(Some(arg))` for an
/// unexpected argument.
pub open spec fn test_args(raw: Seq<Seq<char>>) -> Result<(Seq<char>, Option<Seq<char>>, u32), Option<
    Seq<char>,
>> {
    if raw.len() == 0 {
        Err(None)
    } else {
        match scan_flags(raw, 1, None, DEFAULT_TEST_N_CTX) {
            Ok((language, n_ctx)) => Ok((raw[0], language, n_ctx)),
            Err(a) => Err(Some(a)),
        }
    }
}

/// Reads the tool's arguments (without the program name).
pub fn parse_summarize_test_args(raw: &Vec<String>) -> (r: Result<
    SummarizeTestArgs,
    SummarizeTestArgsError,
>)
    ensures
        match (r, test_args(texts(raw@))) {
            (Ok(a), Ok((m, l, n))) => a.model_path@ == m && opt_view(a.language) == l && a.n_ctx == n,
            (Err(SummarizeTestArgsError::Usage), Err(None)) => true,
            (Err(SummarizeTestArgsError::Unexpected(e)), Err(Some(a))) => e@ == a,
            _ => false,
        },
{
    let ghost t = texts(raw@);
    let n = raw.len();
    if n == 0 {
        return Err(SummarizeTestArgsError::Usage);
    }
    let model_path = raw[0].clone();
    let mut language: Option<String> = None;
    let mut n_ctx: u32 = DEFAULT_TEST_N_CTX;
    let mut i: usize = 1;
    while i < n
        invariant
            n == raw@.len(),
            t == texts(raw@),
            1 <= i <= n,
            scan_flags(t, i as int, opt_view(language), n_ctx) == scan_flags(
                t,
                1,
                None,
                DEFAULT_TEST_N_CTX,
            ),
        decreases n - i,
    {
        let arg = raw[i].as_str();
        assert(t[i as int] == arg@);
        if str_eq(arg, LANGUAGE_FLAG) {
            language = if i + 1 < n {
                Some(raw[i + 1].clone())
            } else {
                None
            };
            proof {
                if i + 1 < n {
                    assert(t[i + 1] == raw@[i + 1]@);
                }
                assert(opt_view(language) == value_after(t, i as int));
            }
        } else if str_eq(arg, N_CTX_FLAG) {
            n_ctx = if i + 1 < n {
                match parse_u32(raw[i + 1].as_str()) {
                    Some(v) => v,
                    None => DEFAULT_TEST_N_CTX,
                }
            } else {
                DEFAULT_TEST_N_CTX
            };
            proof {
                if i + 1 < n {
                    assert(t[i + 1] == raw@[i + 1]@);
                }
                assert(n_ctx == n_ctx_value(value_after(t, i as int)));
            }
        } else {
            return Err(SummarizeTestArgsError::Unexpected(arg.to_owned()));
        }
        i = if i + 1 < n {
            i + 2
        } else {
            n
        };
    }
    proof {
        assert(t[0] == raw@[0]@);
    }
    Ok(SummarizeTestArgs { model_path, language, n_ctx })
}

/// `--n-ctx` takes a number written in decimal (optionally with `+`);
/// without a value, or with one that is not a `u32`, the window is 4096.
pub proof fn lemma_n_ctx(n: nat, s: Seq<char>)
    requires
        n <= u32::MAX,
    ensures
        n_ctx_value(Some(decimal(n))) == n,
        n_ctx_value(None) == 4096,
        parsed_u32(s) is None ==> n_ctx_value(Some(s)) == 4096,
        DEFAULT_TEST_N_CTX == 4096,
{
    lemma_parsed_u32(n, s);
}

/// The model path comes first and the flags may follow in any order; with
/// no arguments the tool prints its usage, and any other argument is
/// refused.
pub proof fn lemma_test_args(m: Seq<char>, l: Seq<char>, v: Seq<char>, x: Seq<char>)
    requires
        x != LANGUAGE_FLAG@,
        x != N_CTX_FLAG@,
    ensures
        test_args(Seq::empty()) == Err::<(Seq<char>, Option<Seq<char>>, u32), Option<Seq<char>>>(None),
        test_args(seq![m]) == Ok::<(Seq<char>, Option<Seq<char>>, u32), Option<Seq<char>>>(
            (m, None, DEFAULT_TEST_N_CTX),
        ),
        test_args(seq![m, LANGUAGE_FLAG@, l, N_CTX_FLAG@, v]) == Ok::<
            (Seq<char>, Option<Seq<char>>, u32),
            Option<Seq<char>>,
        >((m, Some(l), n_ctx_value(Some(v)))),
        test_args(seq![m, N_CTX_FLAG@, v, LANGUAGE_FLAG@, l]) == Ok::<
            (Seq<char>, Option<Seq<char>>, u32),
            Option<Seq<char>>,
        >((m, Some(l), n_ctx_value(Some(v)))),
        test_args(seq![m, x]) == Err::<(Seq<char>, Option<Seq<char>>, u32), Option<Seq<char>>>(
            Some(x),
        ),
{
    reveal_strlit("--language");
    reveal_strlit("--n-ctx");
    assert(LANGUAGE_FLAG@.len() == 10 && N_CTX_FLAG@.len() == 7);
    reveal_with_fuel(scan_flags, 3);
}

} // verus!
