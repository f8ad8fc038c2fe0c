//! Prompt construction for meeting summarization.
//!
//! Two responsibilities:
//! - Pick a language-appropriate system prompt so the model replies in the
//!   same language the meeting was in.
//! - Render the transcript as `[HH:MM:SS] Speaker N: text` lines so the
//!   model has timeline anchors and speaker attribution to ground its
//!   summary.
//!
//! Output structure is fixed to three sections (TL;DR / Decisions / Action
//! items) across all languages, because mixing structure with language
//! tends to confuse smaller quants.

use vstd::prelude::*;

use crate::model::Segment;
use crate::text::{
    chars_of, decimal, decimal2, digits_value, is_ascii_digit, lemma_decimal, lemma_decimal2,
    push_all, push_decimal, push_decimal2, push_str, str_eq, string_from_chars, trim, trim_chars,
};

verus! {

pub const EN_CODE: &'static str = "en";

pub const EN_INTRO: &'static str = "You are an assistant that summarizes meeting transcripts. \
     Read the transcript below and produce a structured summary in English.";

pub const EN_HEADER: &'static str = "Transcript:";

pub const EN_STRUCTURE: &'static str = "Use this exact structure (Markdown):\n\
     ## TL;DR\n2-3 sentences capturing the main outcomes.\n\n\
     ## Decisions\nBulleted list of decisions made. Omit the section if none.\n\n\
     ## Action items\nBulleted `Owner: task` where owners are mentioned, otherwise just the task. Omit the section if none.";

pub const PL_CODE: &'static str = "pl";

pub const PL_INTRO: &'static str = "Jesteś asystentem podsumowującym transkrypcje spotkań. \
     Przeczytaj poniższą transkrypcję i przygotuj uporządkowane podsumowanie po polsku.";

pub const PL_HEADER: &'static str = "Transkrypcja:";

pub const PL_STRUCTURE: &'static str = "Użyj dokładnie tej struktury (Markdown):\n\
     ## TL;DR\n2-3 zdania ujmujące główne wnioski.\n\n\
     ## Decyzje\nLista wypunktowana podjętych decyzji. Pomiń sekcję, jeśli nie ma decyzji.\n\n\
     ## Zadania\nLista wypunktowana `Osoba: zadanie` jeśli wskazano osobę, w innym przypadku samo zadanie. Pomiń sekcję, jeśli nie ma zadań.";

pub const SPEAKER_PREFIX: &'static str = "Speaker ";

/// The language code a prompt is built for: the one given, else English.
pub open spec fn language_code(language: Option<Seq<char>>) -> Seq<char> {
    match language {
        Some(l) => l,
        None => EN_CODE@,
    }
}

/// The (intro, transcript header, structure) texts for a language code.
/// Polish has its own template; every other code gets the English one.
pub open spec fn template(code: Seq<char>) -> (Seq<char>, Seq<char>, Seq<char>) {
    if code == PL_CODE@ {
        (PL_INTRO@, PL_HEADER@, PL_STRUCTURE@)
    } else {
        (EN_INTRO@, EN_HEADER@, EN_STRUCTURE@)
    }
}

/// `mm:ss` below an hour, `h:mm:ss` from an hour on.
pub open spec fn timestamp_text(ms: nat) -> Seq<char> {
    let total = ms / 1000;
    let h = total / 3600;
    let m = (total % 3600) / 60;
    let s = total % 60;
    if h > 0 {
        decimal(h) + seq![':'] + decimal2(m) + seq![':'] + decimal2(s)
    } else {
        decimal2(m) + seq![':'] + decimal2(s)
    }
}

/// The transcript line of one segment: empty when its text is blank.
pub open spec fn transcript_line(start_ms: u32, speaker: Option<u32>, text: Seq<char>) -> Seq<
    char,
> {
    let t = trim(text);
    if t.len() == 0 {
        Seq::empty()
    } else {
        let who = match speaker {
            Some(s) => SPEAKER_PREFIX@ + decimal(s as nat) + seq![':', ' '],
            None => Seq::empty(),
        };
        seq!['['] + timestamp_text(start_ms as nat) + seq![']', ' '] + who + t + seq!['\n']
    }
}

/// The transcript of all segments, one line per non-blank segment.
pub open spec fn transcript_text(segments: Seq<Segment>) -> Seq<char>
    decreases segments.len(),
{
    if segments.len() == 0 {
        Seq::empty()
    } else {
        let last = segments.last();
        transcript_text(segments.drop_last()) + transcript_line(
            last.start_ms,
            last.speaker_id,
            last.text@,
        )
    }
}

/// The system and user messages handed to the model.
pub struct SummaryPrompt {
    pub system: String,
    pub user: String,
}

/// Renders `ms` as `mm:ss`, or `h:mm:ss` from an hour on.
pub fn format_timestamp(ms: u32) -> (s: String)
    ensures
        s@ == timestamp_text(ms as nat),
{
    let total = ms / 1000;
    let h = total / 3600;
    let m = (total % 3600) / 60;
    let sec = total % 60;
    let mut out: Vec<char> = Vec::new();
    if h > 0 {
        push_decimal(&mut out, h);
        out.push(':');
    }
    push_decimal2(&mut out, m);
    out.push(':');
    push_decimal2(&mut out, sec);
    proof {
        if h > 0 {
            assert(out@ =~= decimal(h as nat) + seq![':'] + decimal2(m as nat) + seq![':'] + decimal2(sec as nat));
        } else {
            assert(out@ =~= decimal2(m as nat) + seq![':'] + decimal2(sec as nat));
        }
    }
    string_from_chars(&out)
}

fn push_line(out: &mut Vec<char>, seg: &Segment)
    ensures
        final(out)@ == old(out)@ + transcript_line(seg.start_ms, seg.speaker_id, seg.text@),
{
    let text = trim_chars(&chars_of(seg.text.as_str()));
    if text.len() == 0 {
        assert(old(out)@ + Seq::<char>::empty() == old(out)@);
        return;
    }
    let ghost before = out@;
    out.push('[');
    let ts = format_timestamp(seg.start_ms);
    push_str(out, ts.as_str());
    out.push(']');
    out.push(' ');
    let ghost mid = out@;
    match seg.speaker_id {
        Some(s) => {
            push_str(out, SPEAKER_PREFIX);
            push_decimal(out, s);
            out.push(':');
            out.push(' ');
        },
        None => {},
    }
    let ghost after_who = out@;
    push_all(out, &text);
    out.push('\n');
    proof {
        let who = match seg.speaker_id {
            Some(s) => SPEAKER_PREFIX@ + decimal(s as nat) + seq![':', ' '],
            None => Seq::<char>::empty(),
        };
        assert(mid =~= before + seq!['['] + timestamp_text(seg.start_ms as nat) + seq![']', ' ']);
        assert(after_who =~= mid + who);
        assert(out@ =~= before + (seq!['['] + timestamp_text(seg.start_ms as nat) + seq![']', ' ']
            + who + trim(seg.text@) + seq!['\n']));
    }
}

/// Renders the transcript: one `[ts] Speaker N: text` line per segment with
/// non-blank text, in the given order; blank segments are dropped.
pub fn format_transcript(segments: &[Segment]) -> (s: String)
    ensures
        s@ == transcript_text(segments@),
{
    let mut out: Vec<char> = Vec::new();
    let mut i: usize = 0;
    while i < segments.len()
        invariant
            i <= segments@.len(),
            out@ == transcript_text(segments@.subrange(0, i as int)),
        decreases segments@.len() - i,
    {
        push_line(&mut out, &segments[i]);
        proof {
            let pre = segments@.subrange(0, i + 1);
            assert(pre.drop_last() == segments@.subrange(0, i as int));
            assert(pre.last() == segments@[i as int]);
        }
        i = i + 1;
    }
    assert(segments@.subrange(0, segments@.len() as int) == segments@);
    string_from_chars(&out)
}

fn template_for(code: &str) -> (t: (&'static str, &'static str, &'static str))
    ensures
        t.0@ == template(code@).0,
        t.1@ == template(code@).1,
        t.2@ == template(code@).2,
{
    if str_eq(code, PL_CODE) {
        (PL_INTRO, PL_HEADER, PL_STRUCTURE)
    } else {
        (EN_INTRO, EN_HEADER, EN_STRUCTURE)
    }
}

/// Builds the prompt: the language's intro and structure as the system
/// message, its transcript header and the rendered transcript as the user
/// message. Languages without a template fall back to English.
pub fn build(segments: &[Segment], language: Option<&str>) -> (p: SummaryPrompt)
    ensures
        ({
            let (intro, header, structure) = template(
                language_code(
                    match language {
                        Some(l) => Some(l@),
                        None => None,
                    },
                ),
            );
            &&& p.system@ == intro + seq!['\n', '\n'] + structure
            &&& p.user@ == header + seq!['\n'] + transcript_text(segments@)
        }),
{
    let lang = match language {
        Some(l) => l,
        None => EN_CODE,
    };
    let (intro, header, structure) = template_for(lang);
    let mut system: Vec<char> = Vec::new();
    push_str(&mut system, intro);
    system.push('\n');
    system.push('\n');
    push_str(&mut system, structure);
    let transcript = format_transcript(segments);
    let mut user: Vec<char> = Vec::new();
    push_str(&mut user, header);
    user.push('\n');
    push_str(&mut user, transcript.as_str());
    proof {
        assert(system@ =~= intro@ + seq!['\n', '\n'] + structure@);
        assert(user@ =~= header@ + seq!['\n'] + transcript_text(segments@));
    }
    SummaryPrompt { system: string_from_chars(&system), user: string_from_chars(&user) }
}

/// Adding a segment adds its own line (nothing when its text is blank) and
/// leaves the lines before it alone, whatever those segments say.
pub proof fn lemma_transcript_push(segments: Seq<Segment>, x: Segment)
    ensures
        transcript_text(segments.push(x)) == transcript_text(segments) + transcript_line(
            x.start_ms,
            x.speaker_id,
            x.text@,
        ),
{
    assert(segments.push(x).drop_last() == segments);
}

/// The transcript of two runs of segments is the first's followed by the
/// second's: each segment's line depends on that segment alone.
pub proof fn lemma_transcript_concat(a: Seq<Segment>, b: Seq<Segment>)
    ensures
        transcript_text(a + b) == transcript_text(a) + transcript_text(b),
    decreases b.len(),
{
    if b.len() == 0 {
        assert(a + b == a);
        assert(transcript_text(b) == Seq::<char>::empty());
        assert(transcript_text(a) + Seq::<char>::empty() == transcript_text(a));
    } else {
        lemma_transcript_concat(a, b.drop_last());
        assert((a + b).drop_last() == a + b.drop_last());
        assert((a + b).last() == b.last());
        assert(transcript_text(a) + transcript_text(b.drop_last()) + transcript_line(
            b.last().start_ms,
            b.last().speaker_id,
            b.last().text@,
        ) == transcript_text(a) + (transcript_text(b.drop_last()) + transcript_line(
            b.last().start_ms,
            b.last().speaker_id,
            b.last().text@,
        )));
    }
}

/// A segment's line: nothing when its trimmed text is empty; otherwise
/// `[` timestamp `] `, then `Speaker N: ` when a speaker is known, then the
/// trimmed text and a newline.
pub proof fn lemma_transcript_line(start_ms: u32, speaker: Option<u32>, text: Seq<char>)
    ensures
        trim(text).len() == 0 ==> transcript_line(start_ms, speaker, text).len() == 0,
        trim(text).len() > 0 && speaker is None ==> transcript_line(start_ms, speaker, text)
            == seq!['['] + timestamp_text(start_ms as nat) + seq![']', ' '] + trim(text) + seq!['\n'],
        trim(text).len() > 0 && speaker is Some ==> transcript_line(start_ms, speaker, text)
            == seq!['['] + timestamp_text(start_ms as nat) + seq![']', ' '] + seq![
            'S',
            'p',
            'e',
            'a',
            'k',
            'e',
            'r',
            ' ',
        ] + decimal(speaker.unwrap() as nat) + seq![':', ' '] + trim(text) + seq!['\n'],
{
    reveal_strlit("Speaker ");
    assert(SPEAKER_PREFIX@ =~= seq!['S', 'p', 'e', 'a', 'k', 'e', 'r', ' ']);
    assert(seq!['['] + timestamp_text(start_ms as nat) + seq![']', ' '] + Seq::<char>::empty()
        == seq!['['] + timestamp_text(start_ms as nat) + seq![']', ' ']);
}

/// Below an hour a timestamp is `mm:ss`: two digits of whole minutes, a
/// colon, two digits of the seconds within the minute.
pub proof fn lemma_timestamp_short(ms: nat)
    requires
        ms < 3_600_000,
    ensures
        ({
            let t = timestamp_text(ms);
            &&& t.len() == 5
            &&& t[2] == ':'
            &&& digits_value(t.subrange(0, 2)) == ms / 60_000
            &&& digits_value(t.subrange(3, 5)) == ms / 1000 % 60
            &&& forall|i: int| 0 <= i < 5 && i != 2 ==> is_ascii_digit(#[trigger] t[i])
        }),
{
    let total = ms / 1000;
    assert(total / 3600 == 0);
    assert(total % 3600 == total);
    assert(total / 60 == ms / 60_000);
    let m = (total % 3600) / 60;
    let sec = total % 60;
    lemma_decimal2(m);
    lemma_decimal2(sec);
    let t = timestamp_text(ms);
    assert(t == decimal2(m) + seq![':'] + decimal2(sec));
    assert(t.subrange(0, 2) =~= decimal2(m));
    assert(t.subrange(3, 5) =~= decimal2(sec));
    assert forall|i: int| 0 <= i < 5 && i != 2 implies is_ascii_digit(#[trigger] t[i]) by {
        if i < 2 {
            assert(t[i] == decimal2(m)[i]);
        } else {
            assert(t[i] == decimal2(sec)[i - 3]);
        }
    }
}

/// From an hour on a timestamp is `h:mm:ss`: the whole hours in decimal,
/// then two digits of minutes within the hour and two of seconds within the
/// minute, separated by colons.
pub proof fn lemma_timestamp_long(ms: nat)
    requires
        ms >= 3_600_000,
    ensures
        ({
            let t = timestamp_text(ms);
            let n = t.len() as int;
            &&& n >= 7
            &&& t[n - 6] == ':'
            &&& t[n - 3] == ':'
            &&& t.subrange(0, n - 6) == decimal(ms / 3_600_000)
            &&& digits_value(t.subrange(0, n - 6)) == ms / 3_600_000
            &&& digits_value(t.subrange(n - 5, n - 3)) == ms / 60_000 % 60
            &&& digits_value(t.subrange(n - 2, n)) == ms / 1000 % 60
        }),
{
    let total = ms / 1000;
    let h = total / 3600;
    let m = (total % 3600) / 60;
    let sec = total % 60;
    assert(h == ms / 3_600_000);
    assert(h > 0);
    assert(m == ms / 60_000 % 60);
    lemma_decimal(h);
    lemma_decimal2(m);
    lemma_decimal2(sec);
    let t = timestamp_text(ms);
    let d = decimal(h);
    assert(t == d + seq![':'] + decimal2(m) + seq![':'] + decimal2(sec));
    let n = t.len() as int;
    assert(n == d.len() + 6);
    assert(t.subrange(0, n - 6) =~= d);
    assert(t.subrange(n - 5, n - 3) =~= decimal2(m));
    assert(t.subrange(n - 2, n) =~= decimal2(sec));
}

/// Polish gets the Polish template; every other language code, and a
/// missing one (English), the English template.
pub proof fn lemma_templates(code: Seq<char>)
    ensures
        language_code(None) == EN_CODE@,
        language_code(Some(code)) == code,
        code == PL_CODE@ ==> template(code) == (PL_INTRO@, PL_HEADER@, PL_STRUCTURE@),
        code != PL_CODE@ ==> template(code) == (EN_INTRO@, EN_HEADER@, EN_STRUCTURE@),
{
}

} // verus!
