//! Pure parts of the HTTP and WebSocket endpoints: which embedded asset a
//! request path names and its content type, and which segments a replay
//! streams.

use vstd::prelude::*;

use crate::model::Segment;
use crate::text::{chars_of, string_from_chars};

verus! {

pub const INDEX_HTML: &'static str = "index.html";

pub const OCTET_STREAM: &'static str = "application/octet-stream";

/// `s` without its leading slashes.
pub open spec fn strip_slashes(s: Seq<char>) -> Seq<char>
    decreases s.len(),
{
    if s.len() > 0 && s[0] == '/' {
        strip_slashes(s.drop_first())
    } else {
        s
    }
}

/// The asset a request path names: the path without leading slashes, or
/// `index.html` when nothing is left.
pub open spec fn asset_of(path: Seq<char>) -> Seq<char> {
    if strip_slashes(path).len() == 0 {
        INDEX_HTML@
    } else {
        strip_slashes(path)
    }
}

/// The embedded asset a request path names.
pub fn asset_path(uri_path: &str) -> (p: String)
    ensures
        p@ == asset_of(uri_path@),
{
    let cs = chars_of(uri_path);
    let n = cs.len();
    let mut i: usize = 0;
    assert(cs@.subrange(0, n as int) == cs@);
    while i < n && cs[i] == '/'
        invariant
            n == cs@.len(),
            i <= n,
            strip_slashes(cs@.subrange(i as int, n as int)) == strip_slashes(cs@),
        decreases n - i,
    {
        proof {
            assert(cs@.subrange(i as int, n as int).drop_first() == cs@.subrange(i + 1, n as int));
        }
        i = i + 1;
    }
    let ghost rest = cs@.subrange(i as int, n as int);
    assert(strip_slashes(rest) == rest);
    if i == n {
        return INDEX_HTML.to_owned();
    }
    let mut out: Vec<char> = Vec::new();
    let mut k: usize = i;
    while k < n
        invariant
            i <= k <= n,
            n == cs@.len(),
            out@ == cs@.subrange(i as int, k as int),
        decreases n - k,
    {
        out.push(cs[k]);
        proof {
            assert(cs@.subrange(i as int, k + 1) == cs@.subrange(i as int, k as int).push(
                cs@[k as int],
            ));
        }
        k = k + 1;
    }
    string_from_chars(&out)
}

/// The content type `mime_guess` gives a path by its extension.
pub uninterp spec fn guessed_mime(path: Seq<char>) -> Seq<char>;

/// `mime_guess::from_path(path).first_or_octet_stream()`, as text: the first
/// type known for the path's extension, else `application/octet-stream`,
/// which is what a path without any '.' (so without an extension) gets.
#[verifier::external_body]
fn guess_mime(path: &str) -> (m: String)
    ensures
        m@ == guessed_mime(path@),
        !path@.contains('.') ==> m@ == OCTET_STREAM@,
{
    mime_guess::from_path(path).first_or_octet_stream().as_ref().to_owned()
}

/// The content type an embedded asset is served with.
pub fn asset_content_type(path: &str) -> (m: String)
    ensures
        m@ == guessed_mime(path@),
        !path@.contains('.') ==> m@ == OCTET_STREAM@,
{
    guess_mime(path)
}

/// Whether a replay starting at `start_ms` streams segment `s`: segments
/// that end by the start point are skipped.
pub open spec fn replayed(s: Segment, start_ms: u32) -> bool {
    s.end_ms > start_ms
}

/// The segments a replay from `start_ms` streams, in order.
pub fn replay_segments(segments: Vec<Segment>, start_ms: u32) -> (out: Vec<Segment>)
    ensures
        out@ == segments@.filter(|s: Segment| replayed(s, start_ms)),
        out@ == segments@.filter(|s: Segment| s.end_ms > start_ms),
{
    let ghost all = segments@;
    let ghost pred = |s: Segment| replayed(s, start_ms);
    let n = segments.len();
    let mut out: Vec<Segment> = Vec::new();
    let mut i: usize = 0;
    for seg in it: segments.into_iter()
        invariant
            i == it.index(),
            it.seq() == all,
            n == all.len(),
            pred == (|s: Segment| replayed(s, start_ms)),
            out@ == all.take(i as int).filter(pred),
    {
        proof {
            reveal_with_fuel(Seq::<_>::filter, 1);
            assert(all.take(i + 1).drop_last() == all.take(i as int));
            assert(all.take(i + 1).last() == seg);
        }
        if seg.end_ms > start_ms {
            out.push(seg);
        }
        i = i + 1;
    }
    assert(all.take(all.len() as int) == all);
    assert((|s: Segment| replayed(s, start_ms)) =~= (|s: Segment| s.end_ms > start_ms));
    out
}

/// A replay from `start_ms` streams a segment exactly when it ends after
/// the start point, so one still being spoken at that point is included.
pub proof fn lemma_replayed(s: Segment, start_ms: u32)
    ensures
        replayed(s, start_ms) <==> s.end_ms > start_ms,
{
}

/// The asset a path names ignores its leading slashes, keeps the rest as it
/// is, and is `index.html` for a path of slashes only.
pub proof fn lemma_asset_of(path: Seq<char>)
    ensures
        asset_of(seq!['/'] + path) == asset_of(path),
        path.len() > 0 && path[0] != '/' ==> asset_of(path) == path,
        asset_of(Seq::empty()) == INDEX_HTML@,
{
    assert((seq!['/'] + path).drop_first() =~= path);
}

} // verus!
