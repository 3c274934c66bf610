//! The words of a timeline event: the player a description names, the two
//! players of a substitution, and how the text breaks into tokens and
//! chunks that fit a column.

use vstd::prelude::*;

use crate::app::timeline::TimelineEventKind;
use crate::text::{
    ascii_lowercase, ascii_lowercase_chars, chars_of, find_chars, first_occurrence, is_space, is_space_char,
    owned, push_char, push_chars, same_text, string_from_chars, trim, trim_chars,
};

verus! {

/// `s` without its trailing full stops (`trim_end_matches('.')`).
pub open spec fn strip_dots(s: Seq<char>) -> Seq<char>
    decreases s.len(),
{
    if s.len() > 0 && s.last() == '.' {
        strip_dots(s.drop_last())
    } else {
        s
    }
}

fn strip_dots_chars(v: &[char]) -> (r: Vec<char>)
    ensures
        r@ == strip_dots(v@),
{
    let mut n: usize = v.len();
    assert(v@.take(n as int) =~= v@);
    while n > 0 && v[n - 1] == '.'
        invariant
            n <= v@.len(),
            strip_dots(v@) == strip_dots(v@.take(n as int)),
        decreases n,
    {
        assert(v@.take(n as int).drop_last() =~= v@.take(n - 1));
        n = n - 1;
    }
    let r = vstd::slice::slice_subrange(v, 0, n);
    let mut out: Vec<char> = Vec::new();
    let mut i: usize = 0;
    while i < r.len()
        invariant
            i <= r@.len(),
            r@ == v@.subrange(0, n as int),
            out@ == r@.take(i as int),
        decreases r@.len() - i,
    {
        out.push(r[i]);
        assert(r@.take(i + 1) =~= r@.take(i as int).push(r@[i as int]));
        i = i + 1;
    }
    assert(out@ =~= v@.take(n as int));
    out
}

/// Where a player's name ends in a description: before the first of these.
pub open spec fn name_markers() -> Seq<Seq<char>> {
    seq![
        " ("@,
        " is "@,
        " was "@,
        " has "@,
        " receives "@,
        " gets "@,
        " shown "@,
        " commits "@,
        " scores"@,
        " converts"@,
        " replaces "@,
        " comes on"@,
    ]
}

/// The earliest position in `lower` where one of `markers` starts, or
/// `best` when none starts before it.
pub open spec fn earliest(lower: Seq<char>, markers: Seq<Seq<char>>, best: int) -> int
    decreases markers.len(),
{
    if markers.len() == 0 {
        best
    } else {
        let b = match first_occurrence(lower, markers[0]) {
            Some(i) => if i < best {
                i
            } else {
                best
            },
            None => best,
        };
        earliest(lower, markers.drop_first(), b)
    }
}

/// The player a description names: its text (trimmed, without trailing
/// full stops) up to the first marker, trimmed again.
#[verifier::opaque]
pub open spec fn primary_name_text(description: Seq<char>) -> Seq<char> {
    let t = strip_dots(trim(description));
    trim(t.take(earliest(ascii_lowercase(t), name_markers(), t.len() as int)))
}

pub fn primary_name(description: &str) -> (r: String)
    ensures
        r@ == primary_name_text(description@),
{
    proof {
        reveal(primary_name_text);
    }
    let chars = chars_of(description);
    let trimmed = trim_chars(chars.as_slice());
    let t = strip_dots_chars(trimmed.as_slice());
    let lower = ascii_lowercase_chars(t.as_slice());
    let markers: [&str; 12] = [
        " (",
        " is ",
        " was ",
        " has ",
        " receives ",
        " gets ",
        " shown ",
        " commits ",
        " scores",
        " converts",
        " replaces ",
        " comes on",
    ];
    let ghost ms = markers@.map_values(|m: &str| m@);
    assert(ms =~= name_markers());
    let mut best: usize = t.len();
    let mut i: usize = 0;
    assert(ms.skip(0) =~= ms);
    while i < 12
        invariant
            i <= 12,
            ms.len() == 12,
            ms == markers@.map_values(|m: &str| m@),
            best <= t@.len(),
            earliest(lower@, ms, t@.len() as int) == earliest(lower@, ms.skip(i as int), best as int),
        decreases 12 - i,
    {
        let needle = chars_of(markers[i]);
        assert(ms.skip(i as int)[0] == ms[i as int]);
        assert(ms.skip(i as int).drop_first() =~= ms.skip(i + 1));
        match find_chars(lower.as_slice(), needle.as_slice()) {
            Some(k) => {
                if k < best {
                    best = k;
                }
            },
            None => {},
        }
        i = i + 1;
    }
    assert(ms.skip(12) =~= Seq::<Seq<char>>::empty());
    let head = vstd::slice::slice_subrange(t.as_slice(), 0, best);
    let name = trim_chars(head);
    string_from_chars(name.as_slice())
}

/// `value` split around the first place where its lower-cased text reads
/// `delimiter` (which is written in lower case).
pub open spec fn split_once_text(value: Seq<char>, delimiter: Seq<char>) -> Option<(Seq<char>, Seq<char>)> {
    match first_occurrence(ascii_lowercase(value), delimiter) {
        Some(i) => Some((value.take(i), value.skip(i + delimiter.len()))),
        None => None,
    }
}

#[verifier::spinoff_prover]
pub fn split_once_case_insensitive(value: &str, delimiter: &str) -> (r: Option<(String, String)>)
    ensures
        match split_once_text(value@, delimiter@) {
            Some((a, b)) => r matches Some(p) && p.0@ == a && p.1@ == b,
            None => r is None,
        },
{
    let v = chars_of(value);
    let d = chars_of(delimiter);
    let lower = ascii_lowercase_chars(v.as_slice());
    assert(lower@.len() == v@.len());
    let found = find_chars(lower.as_slice(), d.as_slice());
    let ghost fo = first_occurrence(ascii_lowercase(value@), delimiter@);
    assert(fo == first_occurrence(lower@, d@));
    match found {
        Some(i) => {
            let dl = d.len();
            let vl = v.len();
            assert(i + dl <= vl);
            let start: usize = i + dl;
            let head = string_from_chars(vstd::slice::slice_subrange(v.as_slice(), 0, i));
            let tail = string_from_chars(vstd::slice::slice_subrange(v.as_slice(), start, vl));
            assert(head@ =~= value@.take(i as int));
            assert(tail@ =~= value@.skip(i + delimiter@.len()));
            assert(split_once_text(value@, delimiter@) == Some((value@.take(i as int), value@.skip(i + delimiter@.len()))));
            Some((head, tail))
        },
        None => {
            assert(fo is None);
            None
        },
    }
}

/// `value` without `prefix` when it starts with it, ignoring ASCII case.
pub open spec fn strip_prefix_text(value: Seq<char>, prefix: Seq<char>) -> Seq<char> {
    if prefix.len() <= value.len() && ascii_lowercase(value.take(prefix.len() as int)) == ascii_lowercase(prefix) {
        value.skip(prefix.len() as int)
    } else {
        value
    }
}

pub fn strip_prefix_case_insensitive(value: &str, prefix: &str) -> (r: String)
    ensures
        r@ == strip_prefix_text(value@, prefix@),
{
    let v = chars_of(value);
    let p = chars_of(prefix);
    if p.len() > v.len() {
        return owned(value);
    }
    let head = ascii_lowercase_chars(vstd::slice::slice_subrange(v.as_slice(), 0, p.len()));
    let lp = ascii_lowercase_chars(p.as_slice());
    let mut same = true;
    let mut k: usize = 0;
    while k < lp.len()
        invariant
            k <= lp@.len(),
            head@.len() == lp@.len(),
            same == (forall|m: int| 0 <= m < k ==> head@[m] == lp@[m]),
        decreases lp@.len() - k,
    {
        if head[k] != lp[k] {
            same = false;
        }
        k = k + 1;
    }
    if same {
        assert(head@ =~= lp@);
        string_from_chars(vstd::slice::slice_subrange(v.as_slice(), p.len(), v.len()))
    } else {
        assert(head@ != lp@ ==> exists|m: int| 0 <= m < lp@.len() && head@[m] != lp@[m]);
        owned(value)
    }
}

/// The player coming on and the player going off, as a substitution's
/// description names them in any of FIFA's phrasings; `unknown` for the
/// player going off when none fits.
#[verifier::opaque]
pub open spec fn substitution_text(description: Seq<char>) -> (Seq<char>, Seq<char>) {
    let d = strip_dots(trim(strip_prefix_text(description, "substitution:"@)));
    match split_once_text(d, " (in) comes off the bench to replace "@) {
        Some((on, rest)) => {
            let off = match split_once_text(rest, " (out)"@) {
                Some((name, _)) => name,
                None => rest,
            };
            (primary_name_text(on), primary_name_text(off))
        },
        None => match split_once_text(d, " replaces "@) {
            Some((on, off)) => (primary_name_text(on), primary_name_text(off)),
            None => match split_once_text(d, " replaced by "@) {
                Some((off, on)) => (primary_name_text(on), primary_name_text(off)),
                None => match split_once_text(d, " comes on for "@) {
                    Some((on, off)) => (primary_name_text(on), primary_name_text(off)),
                    None => match split_once_text(d, " enters the game and replaces "@) {
                        Some((on, off)) => (primary_name_text(on), primary_name_text(off)),
                        None => (primary_name_text(d), "unknown"@),
                    },
                },
            },
        },
    }
}

pub fn substitution_names(description: &str) -> (r: (String, String))
    ensures
        r.0@ == substitution_text(description@).0,
        r.1@ == substitution_text(description@).1,
{
    proof {
        reveal(substitution_text);
    }
    let stripped = strip_prefix_case_insensitive(description, "substitution:");
    let chars = chars_of(stripped.as_str());
    let trimmed = trim_chars(chars.as_slice());
    let dv = strip_dots_chars(trimmed.as_slice());
    let d = string_from_chars(dv.as_slice());
    let ds = d.as_str();
    if let Some((on, rest)) = split_once_case_insensitive(ds, " (in) comes off the bench to replace ") {
        let off = match split_once_case_insensitive(rest.as_str(), " (out)") {
            Some((name, _)) => name,
            None => rest,
        };
        return (primary_name(on.as_str()), primary_name(off.as_str()));
    }
    if let Some((on, off)) = split_once_case_insensitive(ds, " replaces ") {
        return (primary_name(on.as_str()), primary_name(off.as_str()));
    }
    if let Some((off, on)) = split_once_case_insensitive(ds, " replaced by ") {
        return (primary_name(on.as_str()), primary_name(off.as_str()));
    }
    if let Some((on, off)) = split_once_case_insensitive(ds, " comes on for ") {
        return (primary_name(on.as_str()), primary_name(off.as_str()));
    }
    if let Some((on, off)) = split_once_case_insensitive(ds, " enters the game and replaces ") {
        return (primary_name(on.as_str()), primary_name(off.as_str()));
    }
    (primary_name(ds), owned("unknown"))
}

/// `s` cut into maximal runs of white space and of other characters.
pub open spec fn runs(s: Seq<char>) -> Seq<Seq<char>>
    decreases s.len(),
{
    if s.len() == 0 {
        Seq::empty()
    } else {
        let r = runs(s.drop_last());
        let c = s.last();
        if r.len() > 0 && is_space(s[s.len() - 2]) == is_space(c) {
            r.update(r.len() - 1, r.last().push(c))
        } else {
            r.push(seq![c])
        }
    }
}

pub open spec fn texts_of(v: Seq<String>) -> Seq<Seq<char>> {
    v.map_values(|t: String| t@)
}

/// Breaks `value` into tokens: maximal runs of white space and of other
/// characters, in order.
pub fn wrap_tokens(value: &str) -> (r: Vec<String>)
    ensures
        texts_of(r@) == runs(value@),
{
    let chars = chars_of(value);
    let mut tokens: Vec<String> = Vec::new();
    let mut current = String::new();
    let mut state: Option<bool> = None;
    let mut i: usize = 0;
    while i < chars.len()
        invariant
            i <= chars@.len(),
            chars@ == value@,
            i == 0 ==> state is None && tokens@.len() == 0 && current@.len() == 0,
            i > 0 ==> state == Some(is_space(chars@[i - 1])) && runs(chars@.take(i as int)).len() > 0
                && texts_of(tokens@) == runs(chars@.take(i as int)).drop_last() && current@ == runs(
                chars@.take(i as int),
            ).last(),
        decreases chars@.len() - i,
    {
        let c = chars[i];
        let space = is_space_char(c);
        let ghost before = runs(chars@.take(i as int));
        let ghost tok = tokens@;
        proof {
            assert(chars@.take(i + 1).drop_last() =~= chars@.take(i as int));
            assert(chars@.take(i + 1).last() == c);
            if i > 0 {
                assert(chars@.take(i + 1)[i - 1] == chars@[i - 1]);
            }
        }
        match state {
            Some(previous) => {
                if previous != space {
                    let done = current;
                    tokens.push(done);
                    current = String::new();
                    proof {
                        assert(texts_of(tokens@) =~= texts_of(tok).push(before.last()));
                        assert(texts_of(tok).push(before.last()) =~= before);
                    }
                }
            },
            None => {},
        }
        state = Some(space);
        push_char(&mut current, c);
        proof {
            let after = runs(chars@.take(i + 1));
            if i > 0 && is_space(chars@[i - 1]) == space {
                assert(after == before.update(before.len() - 1, before.last().push(c)));
                assert(texts_of(tokens@) =~= after.drop_last());
            } else {
                assert(after == before.push(seq![c]));
                assert(current@ =~= seq![c]);
                assert(texts_of(tokens@) =~= after.drop_last());
            }
        }
        i = i + 1;
    }
    assert(chars@.take(chars@.len() as int) =~= chars@);
    if !current.as_str().is_empty() {
        let ghost tok = tokens@;
        tokens.push(current);
        proof {
            assert(texts_of(tokens@) =~= texts_of(tok).push(runs(value@).last()));
        }
    } else {
        proof {
            if i > 0 {
                assert(runs(value@).last().len() > 0) by {
                    lemma_runs_nonempty(value@);
                }
            }
        }
    }
    tokens
}

proof fn lemma_runs_nonempty(s: Seq<char>)
    ensures
        forall|k: int| 0 <= k < runs(s).len() ==> #[trigger] runs(s)[k].len() > 0,
    decreases s.len(),
{
    if s.len() > 0 {
        let r = runs(s.drop_last());
        lemma_runs_nonempty(s.drop_last());
        let c = s.last();
        if r.len() > 0 && is_space(s[s.len() - 2]) == is_space(c) {
            let u = r.update(r.len() - 1, r.last().push(c));
            assert forall|k: int| 0 <= k < u.len() implies #[trigger] u[k].len() > 0 by {
                if k < r.len() - 1 {
                    assert(u[k] == r[k]);
                }
            }
        } else {
            let u = r.push(seq![c]);
            assert forall|k: int| 0 <= k < u.len() implies #[trigger] u[k].len() > 0 by {
                if k < r.len() {
                    assert(u[k] == r[k]);
                }
            }
        }
    }
}

/// `s` in chunks of `width` characters (the last one shorter), or whole
/// when it fits; a zero width yields an empty chunk before the whole text.
pub open spec fn chunks(s: Seq<char>, width: nat) -> Seq<Seq<char>>
    decreases s.len(),
{
    if s.len() <= width {
        seq![s]
    } else if width == 0 {
        seq![Seq::empty(), s]
    } else {
        seq![s.take(width as int)] + chunks(s.skip(width as int), width)
    }
}

pub fn split_token_to_width(token: &str, max_width: usize) -> (r: Vec<String>)
    ensures
        texts_of(r@) == chunks(token@, max_width as nat),
{
    let chars = chars_of(token);
    if chars.len() <= max_width {
        let mut out: Vec<String> = Vec::new();
        out.push(owned(token));
        assert(texts_of(out@) =~= seq![token@]);
        return out;
    }
    if max_width == 0 {
        let mut out: Vec<String> = Vec::new();
        out.push(String::new());
        out.push(owned(token));
        assert(texts_of(out@) =~= seq![Seq::<char>::empty(), token@]);
        return out;
    }
    let mut out: Vec<String> = Vec::new();
    let mut i: usize = 0;
    assert(chars@.skip(0) =~= chars@);
    while chars.len() - i > max_width
        invariant
            i <= chars@.len(),
            max_width > 0,
            chars@ == token@,
            texts_of(out@) + chunks(chars@.skip(i as int), max_width as nat) == chunks(chars@, max_width as nat),
        decreases chars@.len() - i,
    {
        let piece = string_from_chars(vstd::slice::slice_subrange(chars.as_slice(), i, i + max_width));
        let ghost o = out@;
        proof {
            let rest = chars@.skip(i as int);
            assert(rest.take(max_width as int) =~= chars@.subrange(i as int, i + max_width));
            assert(rest.skip(max_width as int) =~= chars@.skip(i + max_width));
        }
        out.push(piece);
        proof {
            let rest = chars@.skip(i as int);
            assert(texts_of(out@) =~= texts_of(o).push(rest.take(max_width as int)));
            assert(texts_of(out@) + chunks(chars@.skip(i + max_width), max_width as nat) =~= texts_of(o) + chunks(
                rest,
                max_width as nat,
            ));
        }
        i = i + max_width;
    }
    let last = string_from_chars(vstd::slice::slice_subrange(chars.as_slice(), i, chars.len()));
    let ghost o = out@;
    out.push(last);
    proof {
        assert(chars@.subrange(i as int, chars@.len() as int) =~= chars@.skip(i as int));
        assert(texts_of(out@) =~= texts_of(o) + chunks(chars@.skip(i as int), max_width as nat));
    }
    out
}

/// How a piece of timeline text is coloured.
#[derive(Clone, Copy, Debug, Eq, PartialEq, Structural)]
pub enum Tone {
    /// The colour of an event of this kind.
    Event(TimelineEventKind),
    /// A player coming on.
    Incoming,
    /// A player going off.
    Outgoing,
    /// A player's name in a substitution.
    Player,
    /// No colour of its own.
    Plain,
    /// The minute beside the spine.
    Minute,
    /// The spine between the two teams' events.
    Axis,
    /// A marker across the timeline, such as half time.
    Marker,
    /// A team's code in the match header, stressed when it won.
    Team(bool),
    /// The score in the match header.
    Score,
    /// The separators, context and time of the match header.
    Faint,
    /// The match's status, stressed while it is live.
    Status(bool),
}

/// A piece of timeline text with its colour.
#[derive(Clone, Debug)]
pub struct TextPart {
    pub text: String,
    pub tone: Tone,
}

pub open spec fn part_view(p: TextPart) -> (Seq<char>, Tone) {
    (p.text@, p.tone)
}

pub open spec fn parts_view(v: Seq<TextPart>) -> Seq<(Seq<char>, Tone)> {
    v.map_values(|p: TextPart| part_view(p))
}

fn part(text: String, tone: Tone) -> (r: TextPart)
    ensures
        part_view(r) == (text@, tone),
{
    TextPart { text, tone }
}

/// The pieces an event's line is made of: a goal reads `GOAL` and the
/// scorer (marked `(OG)` for an own goal), a card the player, a
/// substitution the player coming on and, on a line of its own, the player
/// going off; anything else its description.
pub open spec fn event_parts(kind: TimelineEventKind, description: Seq<char>) -> Seq<(Seq<char>, Tone)> {
    let tone = Tone::Event(kind);
    match kind {
        TimelineEventKind::Goal => seq![("GOAL "@, tone), (primary_name_text(description), tone)],
        TimelineEventKind::OwnGoal => seq![("GOAL "@, tone), (primary_name_text(description) + " (OG)"@, tone)],
        TimelineEventKind::YellowCard | TimelineEventKind::RedCard => seq![(primary_name_text(description), tone)],
        TimelineEventKind::Substitution => seq![
            ("-> "@, Tone::Incoming),
            (substitution_text(description).0, Tone::Player),
            ("\n"@, Tone::Plain),
            ("<- "@, Tone::Outgoing),
            (substitution_text(description).1, Tone::Player),
        ],
        _ => seq![(description, tone)],
    }
}

#[verifier::spinoff_prover]
pub fn timeline_event_parts(kind: TimelineEventKind, description: &str) -> (r: Vec<TextPart>)
    ensures
        parts_view(r@) == event_parts(kind, description@),
{
    let tone = Tone::Event(kind);
    let mut out: Vec<TextPart> = Vec::new();
    match kind {
        TimelineEventKind::Goal => {
            out.push(part(owned("GOAL "), tone));
            out.push(part(primary_name(description), tone));
        },
        TimelineEventKind::OwnGoal => {
            out.push(part(owned("GOAL "), tone));
            let mut name = primary_name(description);
            crate::text::push_text(&mut name, " (OG)");
            out.push(part(name, tone));
        },
        TimelineEventKind::YellowCard | TimelineEventKind::RedCard => {
            out.push(part(primary_name(description), tone));
        },
        TimelineEventKind::Substitution => {
            let (on, off) = substitution_names(description);
            out.push(part(owned("-> "), Tone::Incoming));
            out.push(part(on, Tone::Player));
            out.push(part(owned("\n"), Tone::Plain));
            out.push(part(owned("<- "), Tone::Outgoing));
            out.push(part(off, Tone::Player));
        },
        _ => {
            out.push(part(owned(description), tone));
        },
    }
    assert(parts_view(out@) =~= event_parts(kind, description@));
    out
}

// ---------------------------------------------------------------------------
// Wrapping

/// Where wrapping stands: the finished lines, the line being filled and its
/// width.
pub ghost struct WrapState {
    pub done: Seq<Seq<(Seq<char>, Tone)>>,
    pub line: Seq<(Seq<char>, Tone)>,
    pub width: nat,
}

/// Nothing but white space.
pub open spec fn blank(s: Seq<char>) -> bool {
    trim(s).len() == 0
}

pub open spec fn line_break(st: WrapState) -> WrapState {
    WrapState { done: st.done.push(st.line), line: Seq::empty(), width: 0 }
}

/// One chunk: it starts a new line when it would overflow a line that has
/// text, and white space never starts a line.
pub open spec fn put_chunk(st: WrapState, chunk: Seq<char>, tone: Tone, w: nat) -> WrapState {
    let st1 = if st.width > 0 && st.width + chunk.len() > w {
        line_break(st)
    } else {
        st
    };
    if blank(chunk) && st1.width == 0 {
        st1
    } else {
        WrapState { line: st1.line.push((chunk, tone)), width: st1.width + chunk.len(), ..st1 }
    }
}

pub open spec fn put_chunks(st: WrapState, cs: Seq<Seq<char>>, tone: Tone, w: nat) -> WrapState
    decreases cs.len(),
{
    if cs.len() == 0 {
        st
    } else {
        put_chunk(put_chunks(st, cs.drop_last(), tone, w), cs.last(), tone, w)
    }
}

/// One token, cut into chunks that fit; white space never starts a line.
pub open spec fn put_token(st: WrapState, token: Seq<char>, tone: Tone, w: nat) -> WrapState {
    if blank(token) && st.width == 0 {
        st
    } else {
        put_chunks(st, chunks(token, w), tone, w)
    }
}

pub open spec fn put_tokens(st: WrapState, ts: Seq<Seq<char>>, tone: Tone, w: nat) -> WrapState
    decreases ts.len(),
{
    if ts.len() == 0 {
        st
    } else {
        put_token(put_tokens(st, ts.drop_last(), tone, w), ts.last(), tone, w)
    }
}

/// One piece: a lone line break ends a line that has text; other text goes
/// in token by token.
pub open spec fn put_part(st: WrapState, p: (Seq<char>, Tone), w: nat) -> WrapState {
    if p.0 == "\n"@ {
        if st.line.len() > 0 {
            line_break(st)
        } else {
            st
        }
    } else {
        put_tokens(st, runs(p.0), p.1, w)
    }
}

pub open spec fn put_parts(st: WrapState, ps: Seq<(Seq<char>, Tone)>, w: nat) -> WrapState
    decreases ps.len(),
{
    if ps.len() == 0 {
        st
    } else {
        put_part(put_parts(st, ps.drop_last(), w), ps.last(), w)
    }
}

/// The lines that `parts` wrap into at `max_width` columns (at least one):
/// a trailing empty line is dropped, and text that yields nothing becomes
/// one empty line.
pub open spec fn wrapped_lines(parts: Seq<(Seq<char>, Tone)>, max_width: nat) -> Seq<Seq<(Seq<char>, Tone)>> {
    let w: nat = if max_width == 0 {
        1
    } else {
        max_width
    };
    let st = put_parts(WrapState { done: Seq::empty(), line: Seq::empty(), width: 0 }, parts, w);
    let lines = if st.line.len() == 0 && st.done.len() > 0 {
        st.done
    } else {
        st.done.push(st.line)
    };
    if lines[0].len() == 0 {
        seq![seq![(Seq::<char>::empty(), Tone::Plain)]]
    } else {
        lines
    }
}

pub open spec fn lines_view(v: Seq<Vec<TextPart>>) -> Seq<Seq<(Seq<char>, Tone)>> {
    v.map_values(|l: Vec<TextPart>| parts_view(l@))
}

pub open spec fn state_of(done: Seq<Vec<TextPart>>, line: Seq<TextPart>, width: usize) -> WrapState {
    WrapState { done: lines_view(done), line: parts_view(line), width: width as nat }
}

proof fn lemma_chunks_fit(s: Seq<char>, w: nat)
    requires
        w >= 1,
    ensures
        forall|k: int| 0 <= k < chunks(s, w).len() ==> #[trigger] chunks(s, w)[k].len() <= w,
    decreases s.len(),
{
    if s.len() > w {
        lemma_chunks_fit(s.skip(w as int), w);
        let rest = chunks(s.skip(w as int), w);
        assert forall|k: int| 0 <= k < chunks(s, w).len() implies #[trigger] chunks(s, w)[k].len() <= w by {
            if k > 0 {
                assert(chunks(s, w)[k] == rest[k - 1]);
            }
        }
    }
}

fn is_blank(text: &str) -> (r: bool)
    ensures
        r == blank(text@),
{
    let chars = chars_of(text);
    let t = trim_chars(chars.as_slice());
    t.len() == 0
}

fn end_line(done: &mut Vec<Vec<TextPart>>, line: &mut Vec<TextPart>, width: &mut usize)
    ensures
        state_of(final(done)@, final(line)@, *final(width)) == line_break(state_of(old(done)@, old(line)@, *old(width))),
{
    let mut finished: Vec<TextPart> = Vec::new();
    std::mem::swap(&mut finished, line);
    done.push(finished);
    *width = 0;
    assert(lines_view(done@) =~= lines_view(old(done)@).push(parts_view(old(line)@)));
    assert(parts_view(line@) =~= Seq::<(Seq<char>, Tone)>::empty());
}

fn put_chunk_into(
    done: &mut Vec<Vec<TextPart>>,
    line: &mut Vec<TextPart>,
    width: &mut usize,
    chunk: &str,
    tone: Tone,
    w: usize,
)
    requires
        *old(width) <= w,
        chunk@.len() <= w,
    ensures
        state_of(final(done)@, final(line)@, *final(width)) == put_chunk(
            state_of(old(done)@, old(line)@, *old(width)),
            chunk@,
            tone,
            w as nat,
        ),
        *final(width) <= w,
{
    let cw = chars_of(chunk).len();
    if *width > 0 && cw > w - *width {
        end_line(done, line, width);
    }
    if is_blank(chunk) && *width == 0 {
        return;
    }
    let ghost before = parts_view(line@);
    line.push(part(owned(chunk), tone));
    *width = *width + cw;
    assert(parts_view(line@) =~= before.push((chunk@, tone)));
}

fn put_token_into(
    done: &mut Vec<Vec<TextPart>>,
    line: &mut Vec<TextPart>,
    width: &mut usize,
    token: &str,
    tone: Tone,
    w: usize,
)
    requires
        *old(width) <= w,
        w >= 1,
    ensures
        state_of(final(done)@, final(line)@, *final(width)) == put_token(
            state_of(old(done)@, old(line)@, *old(width)),
            token@,
            tone,
            w as nat,
        ),
        *final(width) <= w,
{
    if is_blank(token) && *width == 0 {
        return;
    }
    let ghost start = state_of(done@, line@, *width);
    let pieces = split_token_to_width(token, w);
    let ghost cs = texts_of(pieces@);
    proof {
        lemma_chunks_fit(token@, w as nat);
    }
    let mut k: usize = 0;
    while k < pieces.len()
        invariant
            k <= pieces@.len(),
            cs == texts_of(pieces@),
            cs == chunks(token@, w as nat),
            forall|m: int| 0 <= m < cs.len() ==> #[trigger] cs[m].len() <= w,
            *width <= w,
            state_of(done@, line@, *width) == put_chunks(start, cs.take(k as int), tone, w as nat),
        decreases pieces@.len() - k,
    {
        proof {
            assert(cs.take(k + 1).drop_last() =~= cs.take(k as int));
            assert(cs[k as int] == pieces@[k as int]@);
        }
        put_chunk_into(done, line, width, pieces[k].as_str(), tone, w);
        k = k + 1;
    }
    assert(cs.take(pieces@.len() as int) =~= cs);
}

fn put_part_into(done: &mut Vec<Vec<TextPart>>, line: &mut Vec<TextPart>, width: &mut usize, p: &TextPart, w: usize)
    requires
        *old(width) <= w,
        w >= 1,
    ensures
        state_of(final(done)@, final(line)@, *final(width)) == put_part(
            state_of(old(done)@, old(line)@, *old(width)),
            part_view(*p),
            w as nat,
        ),
        *final(width) <= w,
{
    if same_text(p.text.as_str(), "\n") {
        if line.len() > 0 {
            end_line(done, line, width);
        }
        return;
    }
    let ghost start = state_of(done@, line@, *width);
    let tokens = wrap_tokens(p.text.as_str());
    let ghost ts = texts_of(tokens@);
    let mut j: usize = 0;
    while j < tokens.len()
        invariant
            j <= tokens@.len(),
            ts == texts_of(tokens@),
            ts == runs(p.text@),
            w >= 1,
            *width <= w,
            state_of(done@, line@, *width) == put_tokens(start, ts.take(j as int), p.tone, w as nat),
        decreases tokens@.len() - j,
    {
        proof {
            assert(ts.take(j + 1).drop_last() =~= ts.take(j as int));
            assert(ts[j as int] == tokens@[j as int]@);
        }
        put_token_into(done, line, width, tokens[j].as_str(), p.tone, w);
        j = j + 1;
    }
    assert(ts.take(tokens@.len() as int) =~= ts);
}

/// Wraps `parts` into lines of at most `max_width` columns (at least one),
/// keeping each piece's colour.
pub fn wrap_parts(parts: &[TextPart], max_width: usize) -> (r: Vec<Vec<TextPart>>)
    ensures
        lines_view(r@) == wrapped_lines(parts_view(parts@), max_width as nat),
{
    let w: usize = if max_width == 0 { 1 } else { max_width };
    let mut done: Vec<Vec<TextPart>> = Vec::new();
    let mut line: Vec<TextPart> = Vec::new();
    let mut width: usize = 0;
    let ghost ps = parts_view(parts@);
    let ghost start = state_of(done@, line@, width);
    assert(lines_view(done@) =~= Seq::<Seq<(Seq<char>, Tone)>>::empty());
    assert(parts_view(line@) =~= Seq::<(Seq<char>, Tone)>::empty());
    assert(start == WrapState { done: Seq::empty(), line: Seq::empty(), width: 0 });
    let mut i: usize = 0;
    while i < parts.len()
        invariant
            i <= parts@.len(),
            ps == parts_view(parts@),
            w >= 1,
            w == (if max_width == 0 { 1 } else { max_width }),
            width <= w,
            state_of(done@, line@, width) == put_parts(start, ps.take(i as int), w as nat),
        decreases parts@.len() - i,
    {
        proof {
            assert(ps.take(i + 1).drop_last() =~= ps.take(i as int));
            assert(ps[i as int] == part_view(parts@[i as int]));
        }
        put_part_into(&mut done, &mut line, &mut width, &parts[i], w);
        i = i + 1;
    }
    assert(ps.take(parts@.len() as int) =~= ps);
    let ghost st = state_of(done@, line@, width);
    if line.len() == 0 && done.len() > 0 {
    } else {
        let ghost d = lines_view(done@);
        done.push(line);
        assert(lines_view(done@) =~= d.push(st.line));
    }
    if done[0].len() == 0 {
        let mut only: Vec<TextPart> = Vec::new();
        only.push(part(String::new(), Tone::Plain));
        assert(parts_view(only@) =~= seq![(Seq::<char>::empty(), Tone::Plain)]);
        let ghost one = parts_view(only@);
        let mut out: Vec<Vec<TextPart>> = Vec::new();
        out.push(only);
        assert(lines_view(out@) =~= seq![one]);
        return out;
    }
    done
}

/// How many columns a line of pieces takes.
pub open spec fn line_width(line: Seq<(Seq<char>, Tone)>) -> nat
    decreases line.len(),
{
    if line.len() == 0 {
        0
    } else {
        line_width(line.drop_last()) + line.last().0.len()
    }
}

/// A line padded with blanks to `width` columns: on the left when it is
/// aligned right, on the right when aligned left.
pub open spec fn padded_line(line: Seq<(Seq<char>, Tone)>, width: nat, right: bool) -> Seq<(Seq<char>, Tone)> {
    let pad = (crate::text::spaces((if width > line_width(line) { width - line_width(line) } else { 0 }) as nat), Tone::Plain);
    if right {
        seq![pad] + line
    } else {
        line + seq![pad]
    }
}

fn text_width(line: &Vec<TextPart>) -> (r: usize)
    requires
        line_width(parts_view(line@)) <= usize::MAX,
    ensures
        r == line_width(parts_view(line@)),
{
    let mut total: usize = 0;
    let mut i: usize = 0;
    while i < line.len()
        invariant
            i <= line@.len(),
            line_width(parts_view(line@)) <= usize::MAX,
            total == line_width(parts_view(line@).take(i as int)),
        decreases line@.len() - i,
    {
        proof {
            assert(parts_view(line@).take(i + 1).drop_last() =~= parts_view(line@).take(i as int));
            lemma_width_prefix(parts_view(line@), i + 1);
        }
        let n = chars_of(line[i].text.as_str()).len();
        total = total + n;
        i = i + 1;
    }
    assert(parts_view(line@).take(line@.len() as int) =~= parts_view(line@));
    total
}

proof fn lemma_width_prefix(line: Seq<(Seq<char>, Tone)>, k: int)
    requires
        0 <= k <= line.len(),
    ensures
        line_width(line.take(k)) <= line_width(line),
    decreases line.len() - k,
{
    if k < line.len() {
        lemma_width_prefix(line, k + 1);
        assert(line.take(k + 1).drop_last() =~= line.take(k));
    } else {
        assert(line.take(k) =~= line);
    }
}

/// Pads one wrapped line of a timeline side to `width` columns.
pub fn timeline_side_spans(line: Vec<TextPart>, width: usize, right: bool) -> (r: Vec<TextPart>)
    requires
        line_width(parts_view(line@)) <= usize::MAX,
    ensures
        parts_view(r@) == padded_line(parts_view(line@), width as nat, right),
{
    let used = text_width(&line);
    let gap: usize = if width > used { width - used } else { 0 };
    let mut pad = String::new();
    crate::text::push_spaces(&mut pad, gap);
    let ghost lv = parts_view(line@);
    assert(pad@ =~= crate::text::spaces(gap as nat));
    if right {
        let mut out: Vec<TextPart> = Vec::new();
        out.push(part(pad, Tone::Plain));
        let mut i: usize = 0;
        while i < line.len()
            invariant
                i <= line@.len(),
                lv == parts_view(line@),
                parts_view(out@) == seq![(crate::text::spaces(gap as nat), Tone::Plain)] + lv.take(i as int),
            decreases line@.len() - i,
        {
            let piece = part(line[i].text.clone(), line[i].tone);
            let ghost o = parts_view(out@);
            out.push(piece);
            assert(parts_view(out@) =~= o.push(lv[i as int]));
            assert(lv.take(i + 1) =~= lv.take(i as int).push(lv[i as int]));
            i = i + 1;
        }
        assert(lv.take(line@.len() as int) =~= lv);
        out
    } else {
        let mut out = line;
        let ghost o = parts_view(out@);
        out.push(part(pad, Tone::Plain));
        assert(parts_view(out@) =~= o + seq![(crate::text::spaces(gap as nat), Tone::Plain)]);
        out
    }
}

// ---------------------------------------------------------------------------
// Wrapped lines fit their column

/// The line being filled is as wide as recorded, and no line is wider than
/// `w`.
pub open spec fn fits(st: WrapState, w: nat) -> bool {
    &&& line_width(st.line) == st.width
    &&& st.width <= w
    &&& forall|k: int| 0 <= k < st.done.len() ==> line_width(#[trigger] st.done[k]) <= w
}

proof fn lemma_width_push(line: Seq<(Seq<char>, Tone)>, x: (Seq<char>, Tone))
    ensures
        line_width(line.push(x)) == line_width(line) + x.0.len(),
{
    assert(line.push(x).drop_last() =~= line);
}

proof fn lemma_break_fits(st: WrapState, w: nat)
    requires
        fits(st, w),
    ensures
        fits(line_break(st), w),
{
    let b = line_break(st);
    assert(line_width(Seq::<(Seq<char>, Tone)>::empty()) == 0);
    assert forall|k: int| 0 <= k < b.done.len() implies line_width(#[trigger] b.done[k]) <= w by {
        if k < st.done.len() {
            assert(b.done[k] == st.done[k]);
        }
    }
}

proof fn lemma_chunk_fits(st: WrapState, chunk: Seq<char>, tone: Tone, w: nat)
    requires
        fits(st, w),
        chunk.len() <= w,
    ensures
        fits(put_chunk(st, chunk, tone, w), w),
{
    let st1 = if st.width > 0 && st.width + chunk.len() > w {
        line_break(st)
    } else {
        st
    };
    if st.width > 0 && st.width + chunk.len() > w {
        lemma_break_fits(st, w);
    }
    if !(blank(chunk) && st1.width == 0) {
        lemma_width_push(st1.line, (chunk, tone));
    }
}

proof fn lemma_chunks_keep_fit(st: WrapState, cs: Seq<Seq<char>>, tone: Tone, w: nat)
    requires
        fits(st, w),
        forall|k: int| 0 <= k < cs.len() ==> #[trigger] cs[k].len() <= w,
    ensures
        fits(put_chunks(st, cs, tone, w), w),
    decreases cs.len(),
{
    if cs.len() > 0 {
        lemma_chunks_keep_fit(st, cs.drop_last(), tone, w);
        lemma_chunk_fits(put_chunks(st, cs.drop_last(), tone, w), cs.last(), tone, w);
    }
}

proof fn lemma_tokens_keep_fit(st: WrapState, ts: Seq<Seq<char>>, tone: Tone, w: nat)
    requires
        fits(st, w),
        w >= 1,
    ensures
        fits(put_tokens(st, ts, tone, w), w),
    decreases ts.len(),
{
    if ts.len() > 0 {
        lemma_tokens_keep_fit(st, ts.drop_last(), tone, w);
        let before = put_tokens(st, ts.drop_last(), tone, w);
        if !(blank(ts.last()) && before.width == 0) {
            lemma_chunks_fit(ts.last(), w);
            lemma_chunks_keep_fit(before, chunks(ts.last(), w), tone, w);
        }
    }
}

proof fn lemma_parts_keep_fit(st: WrapState, ps: Seq<(Seq<char>, Tone)>, w: nat)
    requires
        fits(st, w),
        w >= 1,
    ensures
        fits(put_parts(st, ps, w), w),
    decreases ps.len(),
{
    if ps.len() > 0 {
        lemma_parts_keep_fit(st, ps.drop_last(), w);
        let before = put_parts(st, ps.drop_last(), w);
        let p = ps.last();
        if p.0 == "\n"@ {
            if before.line.len() > 0 {
                lemma_break_fits(before, w);
            }
        } else {
            lemma_tokens_keep_fit(before, runs(p.0), p.1, w);
        }
    }
}

/// Wrapping never yields a line wider than the column (taken as at least
/// one column wide).
pub proof fn wrapped_lines_fit(parts: Seq<(Seq<char>, Tone)>, max_width: nat)
    ensures
        forall|k: int|
            0 <= k < wrapped_lines(parts, max_width).len() ==> line_width(#[trigger] wrapped_lines(parts, max_width)[k])
                <= (if max_width == 0 { 1 } else { max_width }),
{
    let w: nat = if max_width == 0 {
        1
    } else {
        max_width
    };
    let start = WrapState { done: Seq::empty(), line: Seq::empty(), width: 0 };
    assert(line_width(Seq::<(Seq<char>, Tone)>::empty()) == 0);
    lemma_parts_keep_fit(start, parts, w);
    let st = put_parts(start, parts, w);
    let lines = if st.line.len() == 0 && st.done.len() > 0 {
        st.done
    } else {
        st.done.push(st.line)
    };
    assert forall|k: int| 0 <= k < lines.len() implies line_width(#[trigger] lines[k]) <= w by {
        if k < st.done.len() {
            assert(lines[k] == st.done[k]);
        }
    }
    let one = seq![(Seq::<char>::empty(), Tone::Plain)];
    assert(one.drop_last() =~= Seq::<(Seq<char>, Tone)>::empty());
    assert(line_width(one) == 0);
}

} // verus!
