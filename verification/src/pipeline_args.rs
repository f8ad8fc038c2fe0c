//! Command-line arguments of the end-to-end pipeline tool:
//! `<audio.wav> --whisper PATH [--gemma PATH] [--language LANG]`.

use vstd::prelude::*;

use crate::text::{chars_of, push_str, str_eq, string_from_chars};

verus! {

pub const WHISPER_FLAG: &'static str = "--whisper";

pub const GEMMA_FLAG: &'static str = "--gemma";

pub const LANGUAGE_FLAG: &'static str = "--language";

pub const SHORT_HELP: &'static str = "-h";

pub const LONG_HELP: &'static str = "--help";

pub const HELP: &'static str = "help";

pub const UNEXPECTED: &'static str = "unexpected argument: ";

pub const MISSING_AUDIO: &'static str = "missing audio file path";

pub const MISSING_WHISPER: &'static str = "missing --whisper PATH";

/// The tool's arguments.
#[derive(Debug, Clone)]
pub struct Args {
    pub audio: String,
    pub whisper_model: String,
    pub gemma_model: Option<String>,
    pub language: Option<String>,
}

/// What has been read from the command line so far.
pub struct ArgScan {
    pub audio: Option<Seq<char>>,
    pub whisper: Option<Seq<char>>,
    pub gemma: Option<Seq<char>>,
    pub language: Option<Seq<char>>,
}

/// The argument after position `i`, if there is one.
pub open spec fn value_after(raw: Seq<Seq<char>>, i: int) -> Option<Seq<char>> {
    if 0 <= i + 1 < raw.len() {
        Some(raw[i + 1])
    } else {
        None
    }
}

/// Reads the arguments from position `i` on. A flag takes the argument
/// after it as its value (none when it is the last argument), a help flag
/// stops with "help", the first other argument is the audio file, and any
/// further one is unexpected.
pub open spec fn scan(raw: Seq<Seq<char>>, i: int, st: ArgScan) -> Result<ArgScan, Seq<char>>
    decreases raw.len() + 1 - i,
{
    if i < 0 || i >= raw.len() {
        Ok(st)
    } else {
        let arg = raw[i];
        if arg == WHISPER_FLAG@ {
            scan(raw, i + 2, ArgScan { whisper: value_after(raw, i), ..st })
        } else if arg == GEMMA_FLAG@ {
            scan(raw, i + 2, ArgScan { gemma: value_after(raw, i), ..st })
        } else if arg == LANGUAGE_FLAG@ {
            scan(raw, i + 2, ArgScan { language: value_after(raw, i), ..st })
        } else if arg == SHORT_HELP@ || arg == LONG_HELP@ {
            Err(HELP@)
        } else if st.audio is None {
            scan(raw, i + 1, ArgScan { audio: Some(arg), ..st })
        } else {
            Err(UNEXPECTED@ + arg)
        }
    }
}

/// The texts of the command-line arguments.
pub open spec fn texts(raw: Seq<String>) -> Seq<Seq<char>> {
    raw.map_values(|s: String| s@)
}

/// The text of an optional string.
pub open spec fn opt_view(o: Option<String>) -> Option<Seq<char>> {
    match o {
        Some(s) => Some(s@),
        None => None,
    }
}

/// What the tool makes of its arguments: the scan's error, a missing audio
/// file or whisper model, or the arguments read.
pub open spec fn parsed(raw: Seq<Seq<char>>) -> Result<ArgScan, Seq<char>> {
    match scan(raw, 0, ArgScan { audio: None, whisper: None, gemma: None, language: None }) {
        Err(e) => Err(e),
        Ok(st) => if st.audio is None {
            Err(MISSING_AUDIO@)
        } else if st.whisper is None {
            Err(MISSING_WHISPER@)
        } else {
            Ok(st)
        },
    }
}

fn value_at(raw: &Vec<String>, i: usize) -> (v: Option<String>)
    ensures
        opt_view(v) == (if i < raw@.len() {
            Some(raw@[i as int]@)
        } else {
            None::<Seq<char>>
        }),
{
    if i < raw.len() {
        Some(raw[i].clone())
    } else {
        None
    }
}

fn unexpected(arg: &str) -> (s: String)
    ensures
        s@ == UNEXPECTED@ + arg@,
{
    let mut v = chars_of(UNEXPECTED);
    push_str(&mut v, arg);
    string_from_chars(&v)
}

/// Reads the tool's arguments (without the program name).
pub fn parse_args(raw: &Vec<String>) -> (r: Result<Args, String>)
    ensures
        match (r, parsed(texts(raw@))) {
            (Ok(a), Ok(st)) => st.audio == Some(a.audio@) && st.whisper == Some(a.whisper_model@)
                && st.gemma == opt_view(a.gemma_model) && st.language == opt_view(a.language),
            (Err(e), Err(se)) => e@ == se,
            _ => false,
        },
{
    let ghost t = texts(raw@);
    let mut audio: Option<String> = None;
    let mut whisper_model: Option<String> = None;
    let mut gemma_model: Option<String> = None;
    let mut language: Option<String> = None;
    let mut i: usize = 0;
    let n = raw.len();
    while i < n
        invariant
            n == raw@.len(),
            t == texts(raw@),
            i <= n,
            scan(t, i as int, ArgScan {
                audio: opt_view(audio),
                whisper: opt_view(whisper_model),
                gemma: opt_view(gemma_model),
                language: opt_view(language),
            }) == scan(t, 0, ArgScan { audio: None, whisper: None, gemma: None, language: None }),
        decreases n - i,
    {
        let arg = raw[i].as_str();
        assert(t[i as int] == arg@);
        let ghost st = ArgScan {
            audio: opt_view(audio),
            whisper: opt_view(whisper_model),
            gemma: opt_view(gemma_model),
            language: opt_view(language),
        };
        if str_eq(arg, WHISPER_FLAG) {
            whisper_model = value_at(raw, i + 1);
            proof {
                assert(opt_view(whisper_model) == value_after(t, i as int));
                reveal_with_fuel(scan, 2);
            }
            i = if i + 1 < n {
                i + 2
            } else {
                n
            };
        } else if str_eq(arg, GEMMA_FLAG) {
            gemma_model = value_at(raw, i + 1);
            proof {
                assert(opt_view(gemma_model) == value_after(t, i as int));
                reveal_with_fuel(scan, 2);
            }
            i = if i + 1 < n {
                i + 2
            } else {
                n
            };
        } else if str_eq(arg, LANGUAGE_FLAG) {
            language = value_at(raw, i + 1);
            proof {
                assert(opt_view(language) == value_after(t, i as int));
                reveal_with_fuel(scan, 2);
            }
            i = if i + 1 < n {
                i + 2
            } else {
                n
            };
        } else if str_eq(arg, SHORT_HELP) || str_eq(arg, LONG_HELP) {
            return Err(HELP.to_owned());
        } else if audio.is_none() {
            audio = Some(arg.to_owned());
            i = i + 1;
        } else {
            return Err(unexpected(arg));
        }
    }
    let a = match audio {
        Some(a) => a,
        None => {
            return Err(MISSING_AUDIO.to_owned());
        },
    };
    let w = match whisper_model {
        Some(w) => w,
        None => {
            return Err(MISSING_WHISPER.to_owned());
        },
    };
    Ok(Args { audio: a, whisper_model: w, gemma_model, language })
}

/// An argument that is none of the tool's flags.
pub open spec fn plain_arg(a: Seq<char>) -> bool {
    a != WHISPER_FLAG@ && a != GEMMA_FLAG@ && a != LANGUAGE_FLAG@ && a != SHORT_HELP@ && a
        != LONG_HELP@
}

/// The audio file and the whisper model are read wherever the flag stands;
/// without a whisper model the arguments are refused, and a second plain
/// argument is unexpected.
pub proof fn lemma_parsed(a: Seq<char>, w: Seq<char>, x: Seq<char>)
    requires
        plain_arg(a),
        plain_arg(x),
    ensures
        parsed(seq![a, WHISPER_FLAG@, w]) == Ok::<ArgScan, Seq<char>>(
            ArgScan { audio: Some(a), whisper: Some(w), gemma: None, language: None },
        ),
        parsed(seq![WHISPER_FLAG@, w, a]) == Ok::<ArgScan, Seq<char>>(
            ArgScan { audio: Some(a), whisper: Some(w), gemma: None, language: None },
        ),
        parsed(seq![a]) == Err::<ArgScan, Seq<char>>(MISSING_WHISPER@),
        parsed(seq![a, x]) == Err::<ArgScan, Seq<char>>(UNEXPECTED@ + x),
        parsed(Seq::empty()) == Err::<ArgScan, Seq<char>>(MISSING_AUDIO@),
        parsed(seq![a, LONG_HELP@, WHISPER_FLAG@, w]) == Err::<ArgScan, Seq<char>>(HELP@),
{
    reveal_strlit("--help");
    reveal_strlit("--whisper");
    reveal_strlit("--gemma");
    reveal_strlit("--language");
    assert(LONG_HELP@.len() == 6 && WHISPER_FLAG@.len() == 9 && GEMMA_FLAG@.len() == 7
        && LANGUAGE_FLAG@.len() == 10);
    reveal_with_fuel(scan, 4);
}

} // verus!
