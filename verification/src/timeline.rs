//! The response parser: turns the raw reply text of the language model into a
//! non-empty ordered sequence of timeline events.  A line that carries a
//! matched pair of double quotes becomes narration plus an attached dialogue
//! span; every other non-blank line becomes a narration-only event; an input
//! with no usable line collapses to a single fallback event holding the
//! trimmed whole input.

use vstd::prelude::*;

use crate::text::{chars_of, string_of_range, trim_bounds, trimmed};

verus! {

/// One beat of scene content: narration text, with an optional quoted line
/// attached to it.
#[derive(Clone, Debug, PartialEq)]
pub struct TimelineEvent {
    pub text: String,
    pub dialogue: Option<String>,
}

/// The mathematical shape of a timeline event: its narration and dialogue as
/// character sequences.
pub struct TimelineEventModel {
    pub text: Seq<char>,
    pub dialogue: Option<Seq<char>>,
}

impl View for TimelineEvent {
    type V = TimelineEventModel;

    open spec fn view(&self) -> TimelineEventModel {
        TimelineEventModel {
            text: self.text@,
            dialogue: match self.dialogue {
                Option::Some(d) => Option::Some(d@),
                Option::None => Option::None,
            },
        }
    }
}

pub open spec fn models(events: Seq<TimelineEvent>) -> Seq<TimelineEventModel> {
    events.map_values(|e: TimelineEvent| e@)
}

/// The index of the first line break at or after `i`, or the length of `s`
/// when the rest of `s` is a single line.
pub open spec fn line_end(s: Seq<char>, i: int) -> int
    decreases s.len() - i,
{
    if i >= s.len() {
        s.len() as int
    } else if s[i] == '\n' {
        i
    } else {
        line_end(s, i + 1)
    }
}

/// The index of the first double quote at or after `i`, or the length of `s`
/// when there is none.
pub open spec fn first_quote(s: Seq<char>, i: int) -> int
    decreases s.len() - i,
{
    if i >= s.len() {
        s.len() as int
    } else if s[i] == '"' {
        i
    } else {
        first_quote(s, i + 1)
    }
}

/// The index of the last double quote strictly before `i`, or `-1` when there
/// is none.
pub open spec fn last_quote(s: Seq<char>, i: int) -> int
    decreases i,
{
    if i <= 0 {
        -1
    } else if s[i - 1] == '"' {
        i - 1
    } else {
        last_quote(s, i - 1)
    }
}

/// The event that one trimmed, non-blank line stands for.  When the line
/// holds at least two double quotes and the first stands strictly before the
/// last, the span before the first quote is the narration and the span
/// strictly between the two quotes is the dialogue (absent when blank);
/// otherwise the whole line is narration.
pub open spec fn event_of_line(t: Seq<char>) -> TimelineEventModel {
    let f = first_quote(t, 0);
    let l = last_quote(t, t.len() as int);
    if f < t.len() && f < l {
        let d = trimmed(t.subrange(f + 1, l));
        TimelineEventModel {
            text: trimmed(t.subrange(0, f)),
            dialogue: if d.len() == 0 {
                Option::None
            } else {
                Option::Some(d)
            },
        }
    } else {
        TimelineEventModel { text: t, dialogue: Option::None }
    }
}

proof fn lemma_line_end_bounds(s: Seq<char>, i: int)
    requires
        i <= s.len(),
    ensures
        i <= line_end(s, i) <= s.len(),
        line_end(s, i) < s.len() ==> s[line_end(s, i)] == '\n',
    decreases s.len() - i,
{
    if i < s.len() && s[i] != '\n' {
        lemma_line_end_bounds(s, i + 1);
    }
}

/// The events contributed by the lines of `s` from position `i` on: each line
/// is trimmed, blank lines are dropped, and the rest classify as
/// [`event_of_line`] says.
pub open spec fn line_events(s: Seq<char>, i: int) -> Seq<TimelineEventModel>
    decreases s.len() + 1 - i,
    via line_events_dec
{
    if i >= s.len() {
        Seq::empty()
    } else {
        let e = line_end(s, i);
        let t = trimmed(s.subrange(i, e));
        let rest = line_events(s, e + 1);
        if t.len() == 0 {
            rest
        } else {
            seq![event_of_line(t)] + rest
        }
    }
}

#[via_fn]
proof fn line_events_dec(s: Seq<char>, i: int) {
    if i < s.len() {
        lemma_line_end_bounds(s, i);
    }
}

/// What the parser returns for the reply text `s`: the events of its lines,
/// or a single narration-only fallback event holding the trimmed whole input
/// when no line contributed one.
pub open spec fn timeline_of(s: Seq<char>) -> Seq<TimelineEventModel> {
    let events = line_events(s, 0);
    if events.len() == 0 {
        seq![TimelineEventModel { text: trimmed(s), dialogue: Option::None }]
    } else {
        events
    }
}

/// The parser never returns an empty sequence, whatever the input.
pub proof fn lemma_timeline_nonempty(s: Seq<char>)
    ensures
        timeline_of(s).len() >= 1,
{
}

fn find_line_end(v: &Vec<char>, i: usize) -> (e: usize)
    requires
        i <= v@.len(),
    ensures
        i <= e <= v@.len(),
        e == line_end(v@, i as int),
{
    let n = v.len();
    let mut j = i;
    while j < n
        invariant
            i <= j <= n,
            n == v@.len(),
            line_end(v@, i as int) == line_end(v@, j as int),
        decreases n - j,
    {
        if v[j] == '\n' {
            return j;
        }
        j = j + 1;
    }
    j
}

fn find_quote_fwd(v: &Vec<char>, lo: usize, hi: usize) -> (f: usize)
    requires
        lo <= hi <= v@.len(),
    ensures
        lo <= f <= hi,
        f - lo == first_quote(v@.subrange(lo as int, hi as int), 0),
{
    let ghost t = v@.subrange(lo as int, hi as int);
    let mut j = lo;
    while j < hi
        invariant
            lo <= j <= hi <= v@.len(),
            t == v@.subrange(lo as int, hi as int),
            first_quote(t, 0) == first_quote(t, j as int - lo as int),
        decreases hi - j,
    {
        proof {
            assert(t[j as int - lo as int] == v@[j as int]);
        }
        if v[j] == '"' {
            return j;
        }
        j = j + 1;
    }
    j
}

proof fn lemma_first_quote_char(t: Seq<char>, i: int)
    requires
        0 <= i,
        first_quote(t, i) < t.len(),
    ensures
        i <= first_quote(t, i),
        t[first_quote(t, i)] == '"',
    decreases t.len() - i,
{
    if i < t.len() && t[i] != '"' {
        lemma_first_quote_char(t, i + 1);
    }
}

proof fn lemma_last_quote_covers(t: Seq<char>, p: int, m: int)
    requires
        0 <= p < m <= t.len(),
        t[p] == '"',
    ensures
        p <= last_quote(t, m) < m,
    decreases m,
{
    if m == p + 1 {
    } else if t[m - 1] == '"' {
    } else {
        lemma_last_quote_covers(t, p, m - 1);
    }
}

fn find_quote_back(v: &Vec<char>, lo: usize, hi: usize) -> (l: usize)
    requires
        lo <= hi <= v@.len(),
        first_quote(v@.subrange(lo as int, hi as int), 0) < hi - lo,
    ensures
        lo <= l < hi,
        l - lo == last_quote(v@.subrange(lo as int, hi as int), hi as int - lo as int),
{
    let ghost t = v@.subrange(lo as int, hi as int);
    proof {
        lemma_first_quote_char(t, 0);
        lemma_last_quote_covers(t, first_quote(t, 0), t.len() as int);
    }
    let mut k = hi;
    while k > lo
        invariant
            lo <= k <= hi <= v@.len(),
            t == v@.subrange(lo as int, hi as int),
            last_quote(t, hi as int - lo as int) == last_quote(t, k as int - lo as int),
            last_quote(t, hi as int - lo as int) >= 0,
        decreases k,
    {
        proof {
            assert(t[k as int - 1 - lo as int] == v@[k as int - 1]);
        }
        if v[k - 1] == '"' {
            return k - 1;
        }
        k = k - 1;
    }
    proof {
        assert(last_quote(t, 0) == -1);
        assert(false);
    }
    lo
}

/// Builds the event that the trimmed line `v[lo..hi]` stands for.
fn event_of_range(v: &Vec<char>, lo: usize, hi: usize) -> (ev: TimelineEvent)
    requires
        lo <= hi <= v@.len(),
    ensures
        ev@ == event_of_line(v@.subrange(lo as int, hi as int)),
{
    let ghost t = v@.subrange(lo as int, hi as int);
    let f = find_quote_fwd(v, lo, hi);
    if f < hi {
        let l = find_quote_back(v, lo, hi);
        if f < l {
            proof {
                assert(t.subrange(0, f as int - lo as int) =~= v@.subrange(lo as int, f as int));
                assert(t.subrange(f as int - lo as int + 1, l as int - lo as int) =~= v@.subrange(
                    f as int + 1,
                    l as int,
                ));
            }
            let (a, b) = trim_bounds(v, lo, f);
            let text = string_of_range(v, a, b);
            let (c, d) = trim_bounds(v, f + 1, l);
            if c < d {
                let dialogue = string_of_range(v, c, d);
                return TimelineEvent { text, dialogue: Some(dialogue) };
            } else {
                return TimelineEvent { text, dialogue: None };
            }
        }
    }
    let text = string_of_range(v, lo, hi);
    TimelineEvent { text, dialogue: None }
}

/// Parses the raw reply text into timeline events, exactly as
/// [`timeline_of`] describes; the result is never empty.
pub fn parse_timeline_from_response(response: &str) -> (events: Vec<TimelineEvent>)
    ensures
        models(events@) == timeline_of(response@),
        events@.len() >= 1,
{
    let v = chars_of(response);
    let ghost s = v@;
    let n = v.len();
    let mut events: Vec<TimelineEvent> = Vec::new();
    let mut i: usize = 0;
    while i < n
        invariant
            i <= n,
            n == s.len(),
            s == v@,
            s == response@,
            models(events@) + line_events(s, i as int) == line_events(s, 0),
        decreases n - i,
    {
        let e = find_line_end(&v, i);
        let (lo, hi) = trim_bounds(&v, i, e);
        let ghost evs_before = events@;
        if lo < hi {
            let ev = event_of_range(&v, lo, hi);
            events.push(ev);
            proof {
                assert(models(events@) =~= models(evs_before).push(ev@));
                assert(seq![event_of_line(trimmed(s.subrange(i as int, e as int)))] + line_events(
                    s,
                    e as int + 1,
                ) == line_events(s, i as int));
                assert(models(events@) + line_events(s, e as int + 1) =~= line_events(s, 0));
            }
        } else {
            proof {
                assert(trimmed(s.subrange(i as int, e as int)).len() == 0);
                assert(line_events(s, e as int + 1) == line_events(s, i as int));
            }
        }
        if e < n {
            i = e + 1;
        } else {
            proof {
                assert(line_events(s, e as int + 1) == line_events(s, n as int));
            }
            i = n;
        }
    }
    proof {
        assert(line_events(s, n as int) =~= Seq::<TimelineEventModel>::empty());
        assert(models(events@) =~= models(events@) + line_events(s, n as int));
    }
    if events.len() == 0 {
        let (lo, hi) = trim_bounds(&v, 0, n);
        let text = string_of_range(&v, lo, hi);
        events.push(TimelineEvent { text, dialogue: None });
        proof {
            assert(s.subrange(0, n as int) =~= s);
            assert(models(events@) =~= timeline_of(response@));
        }
    }
    events
}

} // verus!
