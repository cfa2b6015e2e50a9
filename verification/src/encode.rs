//! The JSON encoding of the project document: the exact text that `save`
//! persists, stated field by field as spec functions and produced by
//! verified writers.  Field names and order follow the document's stable
//! wire names.

use vstd::prelude::*;
use vstd::string::StringExecFns;

use crate::store::{Character, Description, DraftTab, IdeaBank, PlanStep, ProjectData,
    ProjectMetadata, Scene, ScenePlan, Star, StarScope, StarStatus, StarTags};
use crate::text::{chars_of, dec_digits, json_string, push_decimal, push_json_string};
use crate::timeline::TimelineEvent;

verus! {

pub open spec fn json_bool(b: bool) -> Seq<char> {
    if b {
        "true"@
    } else {
        "false"@
    }
}

fn push_json_bool(out: &mut String, b: bool)
    ensures
        final(out)@ == old(out)@ + json_bool(b),
{
    if b {
        out.append("true");
    } else {
        out.append("false");
    }
}

pub open spec fn json_opt_string(o: Option<String>) -> Seq<char> {
    match o {
        Option::Some(s) => json_string(s@),
        Option::None => "null"@,
    }
}

fn push_json_opt_string(out: &mut String, o: &Option<String>)
    ensures
        final(out)@ == old(out)@ + json_opt_string(*o),
{
    match o {
        Some(s) => push_json_string(out, s.as_str()),
        None => out.append("null"),
    }
}

pub open spec fn json_opt_u64(o: Option<u64>) -> Seq<char> {
    match o {
        Option::Some(n) => dec_digits(n as nat),
        Option::None => "null"@,
    }
}

fn push_json_opt_u64(out: &mut String, o: &Option<u64>)
    ensures
        final(out)@ == old(out)@ + json_opt_u64(*o),
{
    match o {
        Some(n) => push_decimal(out, *n),
        None => out.append("null"),
    }
}

/// The pieces of `v` rendered by `f`, joined with commas.
pub open spec fn comma_joined<T>(v: Seq<T>, f: spec_fn(T) -> Seq<char>) -> Seq<char>
    decreases v.len(),
{
    if v.len() == 0 {
        Seq::empty()
    } else if v.len() == 1 {
        f(v[0])
    } else {
        f(v[0]) + ","@ + comma_joined(v.drop_first(), f)
    }
}

proof fn lemma_comma_joined_snoc<T>(v: Seq<T>, f: spec_fn(T) -> Seq<char>, x: T)
    ensures
        comma_joined(v.push(x), f) == if v.len() == 0 {
            f(x)
        } else {
            comma_joined(v, f) + ","@ + f(x)
        },
    decreases v.len(),
{
    let w = v.push(x);
    if v.len() == 0 {
        assert(w.len() == 1);
        assert(w[0] == x);
    } else {
        assert(w[0] == v[0]);
        assert(w.drop_first() =~= v.drop_first().push(x));
        lemma_comma_joined_snoc(v.drop_first(), f, x);
        if v.len() == 1 {
            assert(comma_joined(w, f) =~= comma_joined(v, f) + ","@ + f(x));
        } else {
            assert(comma_joined(w, f) =~= comma_joined(v, f) + ","@ + f(x));
        }
    }
}

pub open spec fn string_item_fn() -> spec_fn(String) -> Seq<char> {
    |s: String| json_string(s@)
}

pub open spec fn json_string_array(v: Seq<String>) -> Seq<char> {
    "["@ + comma_joined(v, string_item_fn()) + "]"@
}

#[verifier::rlimit(100)]
fn push_json_string_array(out: &mut String, v: &Vec<String>)
    ensures
        final(out)@ == old(out)@ + json_string_array(v@),
{
    out.append("[");
    let n = v.len();
    let mut i: usize = 0;
    while i < n
        invariant
            i <= n,
            n == v@.len(),
            out@ == old(out)@ + "["@ + comma_joined(v@.take(i as int), string_item_fn()),
        decreases n - i,
    {
        if i > 0 {
            out.append(",");
        }
        let s = &v[i];
        push_json_string(out, s.as_str());
        i = i + 1;
        proof {
            let pre = v@.take(i as int - 1);
            assert(v@.take(i as int) =~= pre.push(v@[i as int - 1]));
            lemma_comma_joined_snoc(pre, string_item_fn(), v@[i as int - 1]);
            assert(string_item_fn()(v@[i as int - 1]) == json_string(v@[i as int - 1]@));
            assert(out@ =~= old(out)@ + "["@ + comma_joined(v@.take(i as int), string_item_fn()));
        }
    }
    proof {
        assert(v@.take(n as int) =~= v@);
    }
    out.append("]");
    proof {
        assert(out@ =~= old(out)@ + json_string_array(v@));
    }
}

pub open spec fn is_digit(c: char) -> bool {
    48 <= c as u32 <= 57
}

pub open spec fn all_digits(s: Seq<char>) -> bool {
    forall|i: int| 0 <= i < s.len() ==> is_digit(#[trigger] s[i])
}

/// A decimal number token as JSON admits it here: digits, or digits dot
/// digits, with an optional leading minus.
pub open spec fn decimal_body(t: Seq<char>) -> bool {
    (t.len() > 0 && all_digits(t)) || (exists|k: int|
        1 <= k <= t.len() - 2 && t[k] == '.' && all_digits(#[trigger] t.subrange(0, k))
            && all_digits(t.subrange(k + 1, t.len() as int)))
}

pub open spec fn is_plain_decimal(s: Seq<char>) -> bool {
    if s.len() > 0 && s[0] == '-' {
        decimal_body(s.drop_first())
    } else {
        decimal_body(s)
    }
}

/// The number token written for a priority text: the text itself when it is
/// a plain decimal, and `0` otherwise, so that the output is always valid
/// JSON.
pub open spec fn priority_token(s: Seq<char>) -> Seq<char> {
    if is_plain_decimal(s) {
        s
    } else {
        seq!['0']
    }
}

fn digit_char_test(c: char) -> (r: bool)
    ensures
        r == is_digit(c),
{
    let u = c as u32;
    48 <= u && u <= 57
}

fn decimal_body_check(v: &Vec<char>, start: usize) -> (r: bool)
    requires
        start <= v@.len(),
    ensures
        r == decimal_body(v@.subrange(start as int, v@.len() as int)),
{
    let n = v.len();
    let ghost t = v@.subrange(start as int, n as int);
    if start >= n {
        return false;
    }
    let mut i = start;
    let mut dot: usize = 0;
    let mut has_dot = false;
    while i < n
        invariant
            start <= i <= n,
            n == v@.len(),
            t == v@.subrange(start as int, n as int),
            has_dot ==> start < dot < i,
            has_dot ==> v@[dot as int] == '.',
            forall|j: int|
                start <= j < i ==> (if has_dot && j == dot as int {
                    v@[j] == '.'
                } else {
                    is_digit(#[trigger] v@[j])
                }),
        decreases n - i,
    {
        let c = v[i];
        if c == '.' {
            if has_dot || i == start {
                proof {
                    let ri = i as int - start as int;
                    assert(t[ri] == '.');
                    assert(!is_digit(t[ri]));
                    if i == start {
                        assert(!all_digits(t)) by {
                            assert(!is_digit(t[0]));
                        }
                        assert forall|k: int|
                            1 <= k <= t.len() - 2 implies !(t[k] == '.' && all_digits(
                            t.subrange(0, k),
                        ) && all_digits(t.subrange(k + 1, t.len() as int))) by {
                            assert(t.subrange(0, k)[0] == t[0]);
                        }
                    } else {
                        let rd = dot as int - start as int;
                        assert(t[rd] == '.');
                        assert(!all_digits(t)) by {
                            assert(!is_digit(t[rd]));
                        }
                        assert forall|k: int|
                            1 <= k <= t.len() - 2 implies !(t[k] == '.' && all_digits(
                            t.subrange(0, k),
                        ) && all_digits(t.subrange(k + 1, t.len() as int))) by {
                            if t[k] == '.' {
                                if k < rd {
                                    assert(v@[k + start] == t[k]);
                                    assert(is_digit(v@[k + start]));
                                    assert(false);
                                } else if k == rd {
                                    assert(t.subrange(k + 1, t.len() as int)[ri - k - 1] == t[ri]);
                                } else {
                                    assert(t.subrange(0, k)[rd] == t[rd]);
                                }
                            }
                        }
                    }
                }
                return false;
            }
            dot = i;
            has_dot = true;
        } else if !digit_char_test(c) {
            proof {
                let ri = i as int - start as int;
                assert(t[ri] == v@[i as int]);
                assert(!is_digit(t[ri]) && t[ri] != '.');
                assert(!all_digits(t)) by {
                    assert(!is_digit(t[ri]));
                }
                assert forall|k: int|
                    1 <= k <= t.len() - 2 implies !(t[k] == '.' && all_digits(t.subrange(0, k))
                    && all_digits(t.subrange(k + 1, t.len() as int))) by {
                    if t[k] == '.' {
                        assert(k != ri);
                        if ri < k {
                            assert(t.subrange(0, k)[ri] == t[ri]);
                        } else {
                            assert(t.subrange(k + 1, t.len() as int)[ri - k - 1] == t[ri]);
                        }
                    }
                }
            }
            return false;
        }
        i = i + 1;
    }
    if has_dot && dot == n - 1 {
        proof {
            let rd = dot as int - start as int;
            assert(t[rd] == '.');
            assert(!all_digits(t)) by {
                assert(!is_digit(t[rd]));
            }
            assert forall|k: int|
                1 <= k <= t.len() - 2 implies !(t[k] == '.' && all_digits(t.subrange(0, k))
                && all_digits(t.subrange(k + 1, t.len() as int))) by {
                if t[k] == '.' {
                    assert(k < rd);
                    assert(v@[k + start] == t[k]);
                    assert(is_digit(v@[k + start]));
                    assert(false);
                }
            }
        }
        return false;
    }
    proof {
        if has_dot {
            let rd = dot as int - start as int;
            assert(1 <= rd <= t.len() - 2);
            assert(t[rd] == '.');
            assert(all_digits(t.subrange(0, rd))) by {
                assert forall|j: int| 0 <= j < rd implies is_digit(#[trigger] t.subrange(0, rd)[j])
                    by {
                    assert(t.subrange(0, rd)[j] == v@[j + start]);
                }
            }
            assert(all_digits(t.subrange(rd + 1, t.len() as int))) by {
                assert forall|j: int|
                    0 <= j < t.len() - rd - 1 implies is_digit(
                    #[trigger] t.subrange(rd + 1, t.len() as int)[j],
                ) by {
                    assert(t.subrange(rd + 1, t.len() as int)[j] == v@[j + rd + 1 + start]);
                }
            }
            assert(decimal_body(t));
        } else {
            assert(all_digits(t)) by {
                assert forall|j: int| 0 <= j < t.len() implies is_digit(#[trigger] t[j]) by {
                    assert(t[j] == v@[j + start]);
                }
            }
        }
    }
    true
}

fn is_plain_decimal_text(s: &String) -> (r: bool)
    ensures
        r == is_plain_decimal(s@),
{
    let v = chars_of(s.as_str());
    let start: usize = if v.len() > 0 && v[0] == '-' {
        1
    } else {
        0
    };
    proof {
        if start == 1 {
            assert(v@.subrange(1, v@.len() as int) =~= s@.drop_first());
        } else {
            assert(v@.subrange(0, v@.len() as int) =~= s@);
        }
    }
    decimal_body_check(&v, start)
}

/// Writes the number token for a priority text.
fn push_priority(out: &mut String, s: &String)
    ensures
        final(out)@ == old(out)@ + priority_token(s@),
{
    if is_plain_decimal_text(s) {
        out.append(s.as_str());
    } else {
        out.append("0");
        proof {
            assert(("0")@ =~= seq!['0']) by {
                reveal_strlit("0");
            }
        }
    }
}

pub open spec fn json_event(e: TimelineEvent) -> Seq<char> {
    "{\"text\":"@ + json_string(e.text@) + ",\"dialogue\":"@ + json_opt_string(e.dialogue) + "}"@
}

fn push_json_event(out: &mut String, e: &TimelineEvent)
    ensures
        final(out)@ == old(out)@ + json_event(*e),
{
    out.append("{\"text\":");
    push_json_string(out, e.text.as_str());
    out.append(",\"dialogue\":");
    push_json_opt_string(out, &e.dialogue);
    out.append("}");
    proof {
        assert(out@ =~= old(out)@ + json_event(*e));
    }
}

pub open spec fn event_item_fn() -> spec_fn(TimelineEvent) -> Seq<char> {
    |e: TimelineEvent| json_event(e)
}

pub open spec fn json_event_array(v: Seq<TimelineEvent>) -> Seq<char> {
    "["@ + comma_joined(v, event_item_fn()) + "]"@
}

#[verifier::rlimit(100)]
fn push_json_event_array(out: &mut String, v: &Vec<TimelineEvent>)
    ensures
        final(out)@ == old(out)@ + json_event_array(v@),
{
    out.append("[");
    let n = v.len();
    let mut i: usize = 0;
    while i < n
        invariant
            i <= n,
            n == v@.len(),
            out@ == old(out)@ + "["@ + comma_joined(v@.take(i as int), event_item_fn()),
        decreases n - i,
    {
        if i > 0 {
            out.append(",");
        }
        push_json_event(out, &v[i]);
        i = i + 1;
        proof {
            let pre = v@.take(i as int - 1);
            assert(v@.take(i as int) =~= pre.push(v@[i as int - 1]));
            lemma_comma_joined_snoc(pre, event_item_fn(), v@[i as int - 1]);
            assert(event_item_fn()(v@[i as int - 1]) == json_event(v@[i as int - 1]));
            assert(out@ =~= old(out)@ + "["@ + comma_joined(v@.take(i as int), event_item_fn()));
        }
    }
    proof {
        assert(v@.take(n as int) =~= v@);
    }
    out.append("]");
    proof {
        assert(out@ =~= old(out)@ + json_event_array(v@));
    }
}

pub open spec fn json_description(d: Description) -> Seq<char> {
    "{\"id\":"@ + json_string(d.id@) + ",\"text\":"@ + json_string(d.text@) + ",\"is_important\":"@
        + json_bool(d.is_important) + ",\"origin_star_id\":"@ + json_opt_string(d.origin_star_id)
        + "}"@
}

fn push_json_description(out: &mut String, d: &Description)
    ensures
        final(out)@ == old(out)@ + json_description(*d),
{
    out.append("{\"id\":");
    push_json_string(out, d.id.as_str());
    out.append(",\"text\":");
    push_json_string(out, d.text.as_str());
    out.append(",\"is_important\":");
    push_json_bool(out, d.is_important);
    out.append(",\"origin_star_id\":");
    push_json_opt_string(out, &d.origin_star_id);
    out.append("}");
    proof {
        assert(out@ =~= old(out)@ + json_description(*d));
    }
}

pub open spec fn description_item_fn() -> spec_fn(Description) -> Seq<char> {
    |d: Description| json_description(d)
}

pub open spec fn json_description_array(v: Seq<Description>) -> Seq<char> {
    "["@ + comma_joined(v, description_item_fn()) + "]"@
}

#[verifier::rlimit(100)]
fn push_json_description_array(out: &mut String, v: &Vec<Description>)
    ensures
        final(out)@ == old(out)@ + json_description_array(v@),
{
    out.append("[");
    let n = v.len();
    let mut i: usize = 0;
    while i < n
        invariant
            i <= n,
            n == v@.len(),
            out@ == old(out)@ + "["@ + comma_joined(v@.take(i as int), description_item_fn()),
        decreases n - i,
    {
        if i > 0 {
            out.append(",");
        }
        push_json_description(out, &v[i]);
        i = i + 1;
        proof {
            let pre = v@.take(i as int - 1);
            assert(v@.take(i as int) =~= pre.push(v@[i as int - 1]));
            lemma_comma_joined_snoc(pre, description_item_fn(), v@[i as int - 1]);
            assert(description_item_fn()(v@[i as int - 1]) == json_description(
                v@[i as int - 1],
            ));
            assert(out@ =~= old(out)@ + "["@ + comma_joined(
                v@.take(i as int),
                description_item_fn(),
            ));
        }
    }
    proof {
        assert(v@.take(n as int) =~= v@);
    }
    out.append("]");
    proof {
        assert(out@ =~= old(out)@ + json_description_array(v@));
    }
}

pub open spec fn json_tab(t: DraftTab) -> Seq<char> {
    "{\"id\":"@ + json_string(t.id@) + ",\"scene_id\":"@ + json_string(t.scene_id@) + ",\"index\":"@
        + dec_digits(t.index as nat) + ",\"timeline\":"@ + json_event_array(t.timeline@)
        + ",\"descriptions\":"@ + json_description_array(t.descriptions@) + ",\"summary\":"@
        + json_opt_string(t.summary) + ",\"fulfilled_plan_steps\":"@ + json_string_array(
        t.fulfilled_plan_steps@,
    ) + ",\"suggested_plan_steps\":"@ + json_string_array(t.suggested_plan_steps@)
        + ",\"created_at\":"@ + dec_digits(t.created_at as nat) + ",\"updated_at\":"@ + dec_digits(
        t.updated_at as nat,
    ) + "}"@
}

#[verifier::rlimit(100)]
fn push_json_tab(out: &mut String, t: &DraftTab)
    ensures
        final(out)@ == old(out)@ + json_tab(*t),
{
    let ghost base = out@;
    let ghost mut acc: Seq<char> = Seq::empty();
    out.append("{\"id\":");
    proof {
        acc = ("{\"id\":")@;
    }
    push_json_string(out, t.id.as_str());
    proof {
        vstd::seq_lib::lemma_concat_associative(base, acc, json_string(t.id@));
        acc = acc + json_string(t.id@);
    }
    out.append(",\"scene_id\":");
    proof {
        vstd::seq_lib::lemma_concat_associative(base, acc, (",\"scene_id\":")@);
        acc = acc + (",\"scene_id\":")@;
    }
    push_json_string(out, t.scene_id.as_str());
    proof {
        vstd::seq_lib::lemma_concat_associative(base, acc, json_string(t.scene_id@));
        acc = acc + json_string(t.scene_id@);
    }
    out.append(",\"index\":");
    proof {
        vstd::seq_lib::lemma_concat_associative(base, acc, (",\"index\":")@);
        acc = acc + (",\"index\":")@;
    }
    push_decimal(out, t.index as u64);
    proof {
        vstd::seq_lib::lemma_concat_associative(base, acc, dec_digits(t.index as nat));
        acc = acc + dec_digits(t.index as nat);
    }
    out.append(",\"timeline\":");
    proof {
        vstd::seq_lib::lemma_concat_associative(base, acc, (",\"timeline\":")@);
        acc = acc + (",\"timeline\":")@;
    }
    push_json_event_array(out, &t.timeline);
    proof {
        vstd::seq_lib::lemma_concat_associative(base, acc, json_event_array(t.timeline@));
        acc = acc + json_event_array(t.timeline@);
    }
    out.append(",\"descriptions\":");
    proof {
        vstd::seq_lib::lemma_concat_associative(base, acc, (",\"descriptions\":")@);
        acc = acc + (",\"descriptions\":")@;
    }
    push_json_description_array(out, &t.descriptions);
    proof {
        vstd::seq_lib::lemma_concat_associative(base, acc, json_description_array(t.descriptions@));
        acc = acc + json_description_array(t.descriptions@);
    }
    out.append(",\"summary\":");
    proof {
        vstd::seq_lib::lemma_concat_associative(base, acc, (",\"summary\":")@);
        acc = acc + (",\"summary\":")@;
    }
    push_json_opt_string(out, &t.summary);
    proof {
        vstd::seq_lib::lemma_concat_associative(base, acc, json_opt_string(t.summary));
        acc = acc + json_opt_string(t.summary);
    }
    out.append(",\"fulfilled_plan_steps\":");
    proof {
        vstd::seq_lib::lemma_concat_associative(base, acc, (",\"fulfilled_plan_steps\":")@);
        acc = acc + (",\"fulfilled_plan_steps\":")@;
    }
    push_json_string_array(out, &t.fulfilled_plan_steps);
    proof {
        vstd::seq_lib::lemma_concat_associative(base, acc, json_string_array(t.fulfilled_plan_steps@));
        acc = acc + json_string_array(t.fulfilled_plan_steps@);
    }
    out.append(",\"suggested_plan_steps\":");
    proof {
        vstd::seq_lib::lemma_concat_associative(base, acc, (",\"suggested_plan_steps\":")@);
        acc = acc + (",\"suggested_plan_steps\":")@;
    }
    push_json_string_array(out, &t.suggested_plan_steps);
    proof {
        vstd::seq_lib::lemma_concat_associative(base, acc, json_string_array(t.suggested_plan_steps@));
        acc = acc + json_string_array(t.suggested_plan_steps@);
    }
    out.append(",\"created_at\":");
    proof {
        vstd::seq_lib::lemma_concat_associative(base, acc, (",\"created_at\":")@);
        acc = acc + (",\"created_at\":")@;
    }
    push_decimal(out, t.created_at);
    proof {
        vstd::seq_lib::lemma_concat_associative(base, acc, dec_digits(t.created_at as nat));
        acc = acc + dec_digits(t.created_at as nat);
    }
    out.append(",\"updated_at\":");
    proof {
        vstd::seq_lib::lemma_concat_associative(base, acc, (",\"updated_at\":")@);
        acc = acc + (",\"updated_at\":")@;
    }
    push_decimal(out, t.updated_at);
    proof {
        vstd::seq_lib::lemma_concat_associative(base, acc, dec_digits(t.updated_at as nat));
        acc = acc + dec_digits(t.updated_at as nat);
    }
    out.append("}");
    proof {
        vstd::seq_lib::lemma_concat_associative(base, acc, ("}")@);
        acc = acc + ("}")@;
        assert(acc == json_tab(*t));
    }
}

pub open spec fn json_scope(s: StarScope) -> Seq<char> {
    match s {
        StarScope::CurrentScene => "\"CurrentScene\""@,
        StarScope::FuturePlot => "\"FuturePlot\""@,
        StarScope::Backstory => "\"Backstory\""@,
        StarScope::Worldbuilding => "\"Worldbuilding\""@,
    }
}

fn push_json_scope(out: &mut String, s: StarScope)
    ensures
        final(out)@ == old(out)@ + json_scope(s),
{
    match s {
        StarScope::CurrentScene => out.append("\"CurrentScene\""),
        StarScope::FuturePlot => out.append("\"FuturePlot\""),
        StarScope::Backstory => out.append("\"Backstory\""),
        StarScope::Worldbuilding => out.append("\"Worldbuilding\""),
    }
}

pub open spec fn json_status(s: StarStatus) -> Seq<char> {
    match s {
        StarStatus::Active => "\"Active\""@,
        StarStatus::Resolved => "\"Resolved\""@,
        StarStatus::Deferred => "\"Deferred\""@,
    }
}

fn push_json_status(out: &mut String, s: StarStatus)
    ensures
        final(out)@ == old(out)@ + json_status(s),
{
    match s {
        StarStatus::Active => out.append("\"Active\""),
        StarStatus::Resolved => out.append("\"Resolved\""),
        StarStatus::Deferred => out.append("\"Deferred\""),
    }
}

pub open spec fn json_tags(t: StarTags) -> Seq<char> {
    "{\"characters\":"@ + json_string_array(t.characters@) + ",\"scope\":"@ + json_scope(t.scope)
        + ",\"status\":"@ + json_status(t.status) + ",\"custom\":"@ + json_string_array(t.custom@)
        + "}"@
}

fn push_json_tags(out: &mut String, t: &StarTags)
    ensures
        final(out)@ == old(out)@ + json_tags(*t),
{
    out.append("{\"characters\":");
    push_json_string_array(out, &t.characters);
    out.append(",\"scope\":");
    push_json_scope(out, t.scope);
    out.append(",\"status\":");
    push_json_status(out, t.status);
    out.append(",\"custom\":");
    push_json_string_array(out, &t.custom);
    out.append("}");
    proof {
        assert(out@ =~= old(out)@ + json_tags(*t));
    }
}

pub open spec fn json_star(s: Star) -> Seq<char> {
    "{\"id\":"@ + json_string(s.id@) + ",\"title\":"@ + json_string(s.title@) + ",\"body\":"@
        + json_string(s.body@) + ",\"tags\":"@ + json_tags(s.tags) + ",\"priority\":"@
        + priority_token(s.priority@) + ",\"is_checked\":"@ + json_bool(s.is_checked)
        + ",\"origin_draft_tab_id\":"@ + json_opt_string(s.origin_draft_tab_id)
        + ",\"created_at\":"@ + dec_digits(s.created_at as nat) + ",\"last_used_in_prompt\":"@
        + json_opt_u64(s.last_used_in_prompt) + "}"@
}

#[verifier::rlimit(100)]
fn push_json_star(out: &mut String, s: &Star)
    ensures
        final(out)@ == old(out)@ + json_star(*s),
{
    let ghost base = out@;
    let ghost mut acc: Seq<char> = Seq::empty();
    out.append("{\"id\":");
    proof {
        acc = ("{\"id\":")@;
    }
    push_json_string(out, s.id.as_str());
    proof {
        vstd::seq_lib::lemma_concat_associative(base, acc, json_string(s.id@));
        acc = acc + json_string(s.id@);
    }
    out.append(",\"title\":");
    proof {
        vstd::seq_lib::lemma_concat_associative(base, acc, (",\"title\":")@);
        acc = acc + (",\"title\":")@;
    }
    push_json_string(out, s.title.as_str());
    proof {
        vstd::seq_lib::lemma_concat_associative(base, acc, json_string(s.title@));
        acc = acc + json_string(s.title@);
    }
    out.append(",\"body\":");
    proof {
        vstd::seq_lib::lemma_concat_associative(base, acc, (",\"body\":")@);
        acc = acc + (",\"body\":")@;
    }
    push_json_string(out, s.body.as_str());
    proof {
        vstd::seq_lib::lemma_concat_associative(base, acc, json_string(s.body@));
        acc = acc + json_string(s.body@);
    }
    out.append(",\"tags\":");
    proof {
        vstd::seq_lib::lemma_concat_associative(base, acc, (",\"tags\":")@);
        acc = acc + (",\"tags\":")@;
    }
    push_json_tags(out, &s.tags);
    proof {
        vstd::seq_lib::lemma_concat_associative(base, acc, json_tags(s.tags));
        acc = acc + json_tags(s.tags);
    }
    out.append(",\"priority\":");
    proof {
        vstd::seq_lib::lemma_concat_associative(base, acc, (",\"priority\":")@);
        acc = acc + (",\"priority\":")@;
    }
    push_priority(out, &s.priority);
    proof {
        vstd::seq_lib::lemma_concat_associative(base, acc, priority_token(s.priority@));
        acc = acc + priority_token(s.priority@);
    }
    out.append(",\"is_checked\":");
    proof {
        vstd::seq_lib::lemma_concat_associative(base, acc, (",\"is_checked\":")@);
        acc = acc + (",\"is_checked\":")@;
    }
    push_json_bool(out, s.is_checked);
    proof {
        vstd::seq_lib::lemma_concat_associative(base, acc, json_bool(s.is_checked));
        acc = acc + json_bool(s.is_checked);
    }
    out.append(",\"origin_draft_tab_id\":");
    proof {
        vstd::seq_lib::lemma_concat_associative(base, acc, (",\"origin_draft_tab_id\":")@);
        acc = acc + (",\"origin_draft_tab_id\":")@;
    }
    push_json_opt_string(out, &s.origin_draft_tab_id);
    proof {
        vstd::seq_lib::lemma_concat_associative(base, acc, json_opt_string(s.origin_draft_tab_id));
        acc = acc + json_opt_string(s.origin_draft_tab_id);
    }
    out.append(",\"created_at\":");
    proof {
        vstd::seq_lib::lemma_concat_associative(base, acc, (",\"created_at\":")@);
        acc = acc + (",\"created_at\":")@;
    }
    push_decimal(out, s.created_at);
    proof {
        vstd::seq_lib::lemma_concat_associative(base, acc, dec_digits(s.created_at as nat));
        acc = acc + dec_digits(s.created_at as nat);
    }
    out.append(",\"last_used_in_prompt\":");
    proof {
        vstd::seq_lib::lemma_concat_associative(base, acc, (",\"last_used_in_prompt\":")@);
        acc = acc + (",\"last_used_in_prompt\":")@;
    }
    push_json_opt_u64(out, &s.last_used_in_prompt);
    proof {
        vstd::seq_lib::lemma_concat_associative(base, acc, json_opt_u64(s.last_used_in_prompt));
        acc = acc + json_opt_u64(s.last_used_in_prompt);
    }
    out.append("}");
    proof {
        vstd::seq_lib::lemma_concat_associative(base, acc, ("}")@);
        acc = acc + ("}")@;
        assert(acc == json_star(*s));
    }
}

pub open spec fn json_step(p: PlanStep) -> Seq<char> {
    "{\"id\":"@ + json_string(p.id@) + ",\"text\":"@ + json_string(p.text@) + ",\"fulfilled_by\":"@
        + json_string_array(p.fulfilled_by@) + ",\"linked_stars\":"@ + json_string_array(
        p.linked_stars@,
    ) + "}"@
}

fn push_json_step(out: &mut String, p: &PlanStep)
    ensures
        final(out)@ == old(out)@ + json_step(*p),
{
    out.append("{\"id\":");
    push_json_string(out, p.id.as_str());
    out.append(",\"text\":");
    push_json_string(out, p.text.as_str());
    out.append(",\"fulfilled_by\":");
    push_json_string_array(out, &p.fulfilled_by);
    out.append(",\"linked_stars\":");
    push_json_string_array(out, &p.linked_stars);
    out.append("}");
    proof {
        assert(out@ =~= old(out)@ + json_step(*p));
    }
}

pub open spec fn step_item_fn() -> spec_fn(PlanStep) -> Seq<char> {
    |p: PlanStep| json_step(p)
}

pub open spec fn json_step_array(v: Seq<PlanStep>) -> Seq<char> {
    "["@ + comma_joined(v, step_item_fn()) + "]"@
}

#[verifier::rlimit(100)]
fn push_json_step_array(out: &mut String, v: &Vec<PlanStep>)
    ensures
        final(out)@ == old(out)@ + json_step_array(v@),
{
    out.append("[");
    let ghost base = out@;
    let n = v.len();
    let mut i: usize = 0;
    while i < n
        invariant
            i <= n,
            n == v@.len(),
            base == old(out)@ + "["@,
            out@ == base + comma_joined(v@.take(i as int), step_item_fn()),
        decreases n - i,
    {
        let ghost pre = v@.take(i as int);
        let ghost joined_pre = comma_joined(pre, step_item_fn());
        if i > 0 {
            out.append(",");
            proof {
                vstd::seq_lib::lemma_concat_associative(base, joined_pre, (",")@);
            }
        }
        push_json_step(out, &v[i]);
        i = i + 1;
        proof {
            let item = v@[i as int - 1];
            assert(v@.take(i as int) =~= pre.push(item));
            lemma_comma_joined_snoc(pre, step_item_fn(), item);
            assert(step_item_fn()(item) == json_step(item));
            if pre.len() == 0 {
                assert(out@ == base + comma_joined(v@.take(i as int), step_item_fn()));
            } else {
                vstd::seq_lib::lemma_concat_associative(base, joined_pre + (",")@, json_step(item));
                assert(out@ == base + comma_joined(v@.take(i as int), step_item_fn()));
            }
        }
    }
    proof {
        assert(v@.take(n as int) =~= v@);
    }
    out.append("]");
    proof {
        let joined = comma_joined(v@, step_item_fn());
        vstd::seq_lib::lemma_concat_associative(old(out)@, ("[")@, joined);
        vstd::seq_lib::lemma_concat_associative(old(out)@, ("[")@ + joined, ("]")@);
        assert(("[")@ + joined + ("]")@ == json_step_array(v@)) by {
            assert(("[")@ =~= ("[")@);
        }
        assert(out@ == old(out)@ + json_step_array(v@));
    }
}

pub open spec fn json_plan(p: ScenePlan) -> Seq<char> {
    "{\"raw_text\":"@ + json_string(p.raw_text@) + ",\"parsed_steps\":"@ + json_step_array(
        p.parsed_steps@,
    ) + "}"@
}

pub open spec fn json_scene(s: Scene) -> Seq<char> {
    "{\"id\":"@ + json_string(s.id@) + ",\"name\":"@ + json_string(s.name@) + ",\"setting\":"@
        + json_opt_string(s.setting) + ",\"backstory\":"@ + json_opt_string(s.backstory)
        + ",\"plan\":"@ + json_plan(s.plan) + ",\"draft_tab_ids\":"@ + json_string_array(
        s.draft_tab_ids@,
    ) + ",\"created_at\":"@ + dec_digits(s.created_at as nat) + ",\"updated_at\":"@ + dec_digits(
        s.updated_at as nat,
    ) + "}"@
}

#[verifier::rlimit(100)]
fn push_json_scene(out: &mut String, s: &Scene)
    ensures
        final(out)@ == old(out)@ + json_scene(*s),
{
    let ghost base = out@;
    let ghost mut acc: Seq<char> = Seq::empty();
    out.append("{\"id\":");
    proof {
        acc = ("{\"id\":")@;
    }
    push_json_string(out, s.id.as_str());
    proof {
        vstd::seq_lib::lemma_concat_associative(base, acc, json_string(s.id@));
        acc = acc + json_string(s.id@);
    }
    out.append(",\"name\":");
    proof {
        vstd::seq_lib::lemma_concat_associative(base, acc, (",\"name\":")@);
        acc = acc + (",\"name\":")@;
    }
    push_json_string(out, s.name.as_str());
    proof {
        vstd::seq_lib::lemma_concat_associative(base, acc, json_string(s.name@));
        acc = acc + json_string(s.name@);
    }
    out.append(",\"setting\":");
    proof {
        vstd::seq_lib::lemma_concat_associative(base, acc, (",\"setting\":")@);
        acc = acc + (",\"setting\":")@;
    }
    push_json_opt_string(out, &s.setting);
    proof {
        vstd::seq_lib::lemma_concat_associative(base, acc, json_opt_string(s.setting));
        acc = acc + json_opt_string(s.setting);
    }
    out.append(",\"backstory\":");
    proof {
        vstd::seq_lib::lemma_concat_associative(base, acc, (",\"backstory\":")@);
        acc = acc + (",\"backstory\":")@;
    }
    push_json_opt_string(out, &s.backstory);
    proof {
        vstd::seq_lib::lemma_concat_associative(base, acc, json_opt_string(s.backstory));
        acc = acc + json_opt_string(s.backstory);
    }
    out.append(",\"plan\":");
    proof {
        vstd::seq_lib::lemma_concat_associative(base, acc, (",\"plan\":")@);
        acc = acc + (",\"plan\":")@;
    }
    let mut plan = String::new();
    plan.append("{\"raw_text\":");
    push_json_string(&mut plan, s.plan.raw_text.as_str());
    plan.append(",\"parsed_steps\":");
    push_json_step_array(&mut plan, &s.plan.parsed_steps);
    plan.append("}");
    proof {
        assert(plan@ =~= json_plan(s.plan));
    }
    out.append(plan.as_str());
    proof {
        vstd::seq_lib::lemma_concat_associative(base, acc, json_plan(s.plan));
        acc = acc + json_plan(s.plan);
    }
    out.append(",\"draft_tab_ids\":");
    proof {
        vstd::seq_lib::lemma_concat_associative(base, acc, (",\"draft_tab_ids\":")@);
        acc = acc + (",\"draft_tab_ids\":")@;
    }
    push_json_string_array(out, &s.draft_tab_ids);
    proof {
        vstd::seq_lib::lemma_concat_associative(base, acc, json_string_array(s.draft_tab_ids@));
        acc = acc + json_string_array(s.draft_tab_ids@);
    }
    out.append(",\"created_at\":");
    proof {
        vstd::seq_lib::lemma_concat_associative(base, acc, (",\"created_at\":")@);
        acc = acc + (",\"created_at\":")@;
    }
    push_decimal(out, s.created_at);
    proof {
        vstd::seq_lib::lemma_concat_associative(base, acc, dec_digits(s.created_at as nat));
        acc = acc + dec_digits(s.created_at as nat);
    }
    out.append(",\"updated_at\":");
    proof {
        vstd::seq_lib::lemma_concat_associative(base, acc, (",\"updated_at\":")@);
        acc = acc + (",\"updated_at\":")@;
    }
    push_decimal(out, s.updated_at);
    proof {
        vstd::seq_lib::lemma_concat_associative(base, acc, dec_digits(s.updated_at as nat));
        acc = acc + dec_digits(s.updated_at as nat);
    }
    out.append("}");
    proof {
        vstd::seq_lib::lemma_concat_associative(base, acc, ("}")@);
        acc = acc + ("}")@;
        assert(acc == json_scene(*s));
    }
}

pub open spec fn field_entry_fn() -> spec_fn((String, String)) -> Seq<char> {
    |p: (String, String)| json_string(p.0@) + ":"@ + json_string(p.1@)
}

pub open spec fn json_field_object(m: Seq<(String, String)>) -> Seq<char> {
    "{"@ + comma_joined(m, field_entry_fn()) + "}"@
}

#[verifier::rlimit(100)]
fn push_json_field_object(out: &mut String, m: &Vec<(String, String)>)
    ensures
        final(out)@ == old(out)@ + json_field_object(m@),
{
    out.append("{");
    let n = m.len();
    let mut i: usize = 0;
    while i < n
        invariant
            i <= n,
            n == m@.len(),
            out@ == old(out)@ + "{"@ + comma_joined(m@.take(i as int), field_entry_fn()),
        decreases n - i,
    {
        if i > 0 {
            out.append(",");
        }
        let p = &m[i];
        push_json_string(out, p.0.as_str());
        out.append(":");
        push_json_string(out, p.1.as_str());
        i = i + 1;
        proof {
            let pre = m@.take(i as int - 1);
            assert(m@.take(i as int) =~= pre.push(m@[i as int - 1]));
            lemma_comma_joined_snoc(pre, field_entry_fn(), m@[i as int - 1]);
            assert(field_entry_fn()(m@[i as int - 1]) == json_string(m@[i as int - 1].0@) + ":"@
                + json_string(m@[i as int - 1].1@));
            assert(out@ =~= old(out)@ + "{"@ + comma_joined(m@.take(i as int), field_entry_fn()));
        }
    }
    proof {
        assert(m@.take(n as int) =~= m@);
    }
    out.append("}");
    proof {
        assert(out@ =~= old(out)@ + json_field_object(m@));
    }
}

pub open spec fn json_character(c: Character) -> Seq<char> {
    "{\"id\":"@ + json_string(c.id@) + ",\"name\":"@ + json_string(c.name@) + ",\"fields\":"@
        + json_field_object(c.fields@) + "}"@
}

fn push_json_character(out: &mut String, c: &Character)
    ensures
        final(out)@ == old(out)@ + json_character(*c),
{
    out.append("{\"id\":");
    push_json_string(out, c.id.as_str());
    out.append(",\"name\":");
    push_json_string(out, c.name.as_str());
    out.append(",\"fields\":");
    push_json_field_object(out, &c.fields);
    out.append("}");
    proof {
        assert(out@ =~= old(out)@ + json_character(*c));
    }
}

pub open spec fn json_metadata(m: ProjectMetadata) -> Seq<char> {
    "{\"title\":"@ + json_string(m.title@) + ",\"author\":"@ + json_opt_string(m.author)
        + ",\"created_at\":"@ + dec_digits(m.created_at as nat) + ",\"updated_at\":"@ + dec_digits(
        m.updated_at as nat,
    ) + "}"@
}

fn push_json_metadata(out: &mut String, m: &ProjectMetadata)
    ensures
        final(out)@ == old(out)@ + json_metadata(*m),
{
    out.append("{\"title\":");
    push_json_string(out, m.title.as_str());
    out.append(",\"author\":");
    push_json_opt_string(out, &m.author);
    out.append(",\"created_at\":");
    push_decimal(out, m.created_at);
    out.append(",\"updated_at\":");
    push_decimal(out, m.updated_at);
    out.append("}");
    proof {
        assert(out@ =~= old(out)@ + json_metadata(*m));
    }
}

pub open spec fn json_idea_bank(b: IdeaBank) -> Seq<char> {
    "{\"stored_draft_tab_ids\":"@ + json_string_array(b.stored_draft_tab_ids@) + "}"@
}

fn push_json_idea_bank(out: &mut String, b: &IdeaBank)
    ensures
        final(out)@ == old(out)@ + json_idea_bank(*b),
{
    out.append("{\"stored_draft_tab_ids\":");
    push_json_string_array(out, &b.stored_draft_tab_ids);
    out.append("}");
    proof {
        assert(out@ =~= old(out)@ + json_idea_bank(*b));
    }
}

pub open spec fn scene_entry_fn() -> spec_fn((String, Scene)) -> Seq<char> {
    |p: (String, Scene)| json_string(p.0@) + ":"@ + json_scene(p.1)
}

pub open spec fn json_scene_map(m: Seq<(String, Scene)>) -> Seq<char> {
    "{"@ + comma_joined(m, scene_entry_fn()) + "}"@
}

#[verifier::rlimit(100)]
fn push_json_scene_map(out: &mut String, m: &Vec<(String, Scene)>)
    ensures
        final(out)@ == old(out)@ + json_scene_map(m@),
{
    out.append("{");
    let ghost base = out@;
    let n = m.len();
    let mut i: usize = 0;
    while i < n
        invariant
            i <= n,
            n == m@.len(),
            base == old(out)@ + "{"@,
            out@ == base + comma_joined(m@.take(i as int), scene_entry_fn()),
        decreases n - i,
    {
        let ghost pre = m@.take(i as int);
        let ghost joined_pre = comma_joined(pre, scene_entry_fn());
        if i > 0 {
            out.append(",");
            proof {
                vstd::seq_lib::lemma_concat_associative(base, joined_pre, (",")@);
            }
        }
        let p = &m[i];
        let mut piece = String::new();
        push_json_string(&mut piece, p.0.as_str());
        piece.append(":");
        push_json_scene(&mut piece, &p.1);
        proof {
            assert(piece@ == scene_entry_fn()(m@[i as int]));
        }
        let ghost piecev = piece@;
        out.append(piece.as_str());
        i = i + 1;
        proof {
            let item = m@[i as int - 1];
            assert(m@.take(i as int) =~= pre.push(item));
            lemma_comma_joined_snoc(pre, scene_entry_fn(), item);
            if pre.len() == 0 {
                assert(out@ == base + comma_joined(m@.take(i as int), scene_entry_fn()));
            } else {
                vstd::seq_lib::lemma_concat_associative(base, joined_pre + (",")@, piecev);
                assert(out@ == base + comma_joined(m@.take(i as int), scene_entry_fn()));
            }
        }
    }
    proof {
        assert(m@.take(n as int) =~= m@);
    }
    out.append("}");
    proof {
        let joined = comma_joined(m@, scene_entry_fn());
        vstd::seq_lib::lemma_concat_associative(old(out)@, ("{")@, joined);
        vstd::seq_lib::lemma_concat_associative(old(out)@, ("{")@ + joined, ("}")@);
        assert(out@ == old(out)@ + json_scene_map(m@));
    }
}

pub open spec fn tab_entry_fn() -> spec_fn((String, DraftTab)) -> Seq<char> {
    |p: (String, DraftTab)| json_string(p.0@) + ":"@ + json_tab(p.1)
}

pub open spec fn json_tab_map(m: Seq<(String, DraftTab)>) -> Seq<char> {
    "{"@ + comma_joined(m, tab_entry_fn()) + "}"@
}

#[verifier::rlimit(100)]
fn push_json_tab_map(out: &mut String, m: &Vec<(String, DraftTab)>)
    ensures
        final(out)@ == old(out)@ + json_tab_map(m@),
{
    out.append("{");
    let ghost base = out@;
    let n = m.len();
    let mut i: usize = 0;
    while i < n
        invariant
            i <= n,
            n == m@.len(),
            base == old(out)@ + "{"@,
            out@ == base + comma_joined(m@.take(i as int), tab_entry_fn()),
        decreases n - i,
    {
        let ghost pre = m@.take(i as int);
        let ghost joined_pre = comma_joined(pre, tab_entry_fn());
        if i > 0 {
            out.append(",");
            proof {
                vstd::seq_lib::lemma_concat_associative(base, joined_pre, (",")@);
            }
        }
        let p = &m[i];
        let mut piece = String::new();
        push_json_string(&mut piece, p.0.as_str());
        piece.append(":");
        push_json_tab(&mut piece, &p.1);
        proof {
            assert(piece@ == tab_entry_fn()(m@[i as int]));
        }
        let ghost piecev = piece@;
        out.append(piece.as_str());
        i = i + 1;
        proof {
            let item = m@[i as int - 1];
            assert(m@.take(i as int) =~= pre.push(item));
            lemma_comma_joined_snoc(pre, tab_entry_fn(), item);
            if pre.len() == 0 {
                assert(out@ == base + comma_joined(m@.take(i as int), tab_entry_fn()));
            } else {
                vstd::seq_lib::lemma_concat_associative(base, joined_pre + (",")@, piecev);
                assert(out@ == base + comma_joined(m@.take(i as int), tab_entry_fn()));
            }
        }
    }
    proof {
        assert(m@.take(n as int) =~= m@);
    }
    out.append("}");
    proof {
        let joined = comma_joined(m@, tab_entry_fn());
        vstd::seq_lib::lemma_concat_associative(old(out)@, ("{")@, joined);
        vstd::seq_lib::lemma_concat_associative(old(out)@, ("{")@ + joined, ("}")@);
        assert(out@ == old(out)@ + json_tab_map(m@));
    }
}

pub open spec fn star_entry_fn() -> spec_fn((String, Star)) -> Seq<char> {
    |p: (String, Star)| json_string(p.0@) + ":"@ + json_star(p.1)
}

pub open spec fn json_star_map(m: Seq<(String, Star)>) -> Seq<char> {
    "{"@ + comma_joined(m, star_entry_fn()) + "}"@
}

#[verifier::rlimit(100)]
fn push_json_star_map(out: &mut String, m: &Vec<(String, Star)>)
    ensures
        final(out)@ == old(out)@ + json_star_map(m@),
{
    out.append("{");
    let ghost base = out@;
    let n = m.len();
    let mut i: usize = 0;
    while i < n
        invariant
            i <= n,
            n == m@.len(),
            base == old(out)@ + "{"@,
            out@ == base + comma_joined(m@.take(i as int), star_entry_fn()),
        decreases n - i,
    {
        let ghost pre = m@.take(i as int);
        let ghost joined_pre = comma_joined(pre, star_entry_fn());
        if i > 0 {
            out.append(",");
            proof {
                vstd::seq_lib::lemma_concat_associative(base, joined_pre, (",")@);
            }
        }
        let p = &m[i];
        let mut piece = String::new();
        push_json_string(&mut piece, p.0.as_str());
        piece.append(":");
        push_json_star(&mut piece, &p.1);
        proof {
            assert(piece@ == star_entry_fn()(m@[i as int]));
        }
        let ghost piecev = piece@;
        out.append(piece.as_str());
        i = i + 1;
        proof {
            let item = m@[i as int - 1];
            assert(m@.take(i as int) =~= pre.push(item));
            lemma_comma_joined_snoc(pre, star_entry_fn(), item);
            if pre.len() == 0 {
                assert(out@ == base + comma_joined(m@.take(i as int), star_entry_fn()));
            } else {
                vstd::seq_lib::lemma_concat_associative(base, joined_pre + (",")@, piecev);
                assert(out@ == base + comma_joined(m@.take(i as int), star_entry_fn()));
            }
        }
    }
    proof {
        assert(m@.take(n as int) =~= m@);
    }
    out.append("}");
    proof {
        let joined = comma_joined(m@, star_entry_fn());
        vstd::seq_lib::lemma_concat_associative(old(out)@, ("{")@, joined);
        vstd::seq_lib::lemma_concat_associative(old(out)@, ("{")@ + joined, ("}")@);
        assert(out@ == old(out)@ + json_star_map(m@));
    }
}

pub open spec fn character_entry_fn() -> spec_fn((String, Character)) -> Seq<char> {
    |p: (String, Character)| json_string(p.0@) + ":"@ + json_character(p.1)
}

pub open spec fn json_character_map(m: Seq<(String, Character)>) -> Seq<char> {
    "{"@ + comma_joined(m, character_entry_fn()) + "}"@
}

#[verifier::rlimit(100)]
fn push_json_character_map(out: &mut String, m: &Vec<(String, Character)>)
    ensures
        final(out)@ == old(out)@ + json_character_map(m@),
{
    out.append("{");
    let ghost base = out@;
    let n = m.len();
    let mut i: usize = 0;
    while i < n
        invariant
            i <= n,
            n == m@.len(),
            base == old(out)@ + "{"@,
            out@ == base + comma_joined(m@.take(i as int), character_entry_fn()),
        decreases n - i,
    {
        let ghost pre = m@.take(i as int);
        let ghost joined_pre = comma_joined(pre, character_entry_fn());
        if i > 0 {
            out.append(",");
            proof {
                vstd::seq_lib::lemma_concat_associative(base, joined_pre, (",")@);
            }
        }
        let p = &m[i];
        let mut piece = String::new();
        push_json_string(&mut piece, p.0.as_str());
        piece.append(":");
        push_json_character(&mut piece, &p.1);
        proof {
            assert(piece@ == character_entry_fn()(m@[i as int]));
        }
        let ghost piecev = piece@;
        out.append(piece.as_str());
        i = i + 1;
        proof {
            let item = m@[i as int - 1];
            assert(m@.take(i as int) =~= pre.push(item));
            lemma_comma_joined_snoc(pre, character_entry_fn(), item);
            if pre.len() == 0 {
                assert(out@ == base + comma_joined(m@.take(i as int), character_entry_fn()));
            } else {
                vstd::seq_lib::lemma_concat_associative(base, joined_pre + (",")@, piecev);
                assert(out@ == base + comma_joined(m@.take(i as int), character_entry_fn()));
            }
        }
    }
    proof {
        assert(m@.take(n as int) =~= m@);
    }
    out.append("}");
    proof {
        let joined = comma_joined(m@, character_entry_fn());
        vstd::seq_lib::lemma_concat_associative(old(out)@, ("{")@, joined);
        vstd::seq_lib::lemma_concat_associative(old(out)@, ("{")@ + joined, ("}")@);
        assert(out@ == old(out)@ + json_character_map(m@));
    }
}

pub open spec fn step_entry_fn() -> spec_fn((String, PlanStep)) -> Seq<char> {
    |p: (String, PlanStep)| json_string(p.0@) + ":"@ + json_step(p.1)
}

pub open spec fn json_step_map(m: Seq<(String, PlanStep)>) -> Seq<char> {
    "{"@ + comma_joined(m, step_entry_fn()) + "}"@
}

#[verifier::rlimit(100)]
fn push_json_step_map(out: &mut String, m: &Vec<(String, PlanStep)>)
    ensures
        final(out)@ == old(out)@ + json_step_map(m@),
{
    out.append("{");
    let ghost base = out@;
    let n = m.len();
    let mut i: usize = 0;
    while i < n
        invariant
            i <= n,
            n == m@.len(),
            base == old(out)@ + "{"@,
            out@ == base + comma_joined(m@.take(i as int), step_entry_fn()),
        decreases n - i,
    {
        let ghost pre = m@.take(i as int);
        let ghost joined_pre = comma_joined(pre, step_entry_fn());
        if i > 0 {
            out.append(",");
            proof {
                vstd::seq_lib::lemma_concat_associative(base, joined_pre, (",")@);
            }
        }
        let p = &m[i];
        let mut piece = String::new();
        push_json_string(&mut piece, p.0.as_str());
        piece.append(":");
        push_json_step(&mut piece, &p.1);
        proof {
            assert(piece@ == step_entry_fn()(m@[i as int]));
        }
        let ghost piecev = piece@;
        out.append(piece.as_str());
        i = i + 1;
        proof {
            let item = m@[i as int - 1];
            assert(m@.take(i as int) =~= pre.push(item));
            lemma_comma_joined_snoc(pre, step_entry_fn(), item);
            if pre.len() == 0 {
                assert(out@ == base + comma_joined(m@.take(i as int), step_entry_fn()));
            } else {
                vstd::seq_lib::lemma_concat_associative(base, joined_pre + (",")@, piecev);
                assert(out@ == base + comma_joined(m@.take(i as int), step_entry_fn()));
            }
        }
    }
    proof {
        assert(m@.take(n as int) =~= m@);
    }
    out.append("}");
    proof {
        let joined = comma_joined(m@, step_entry_fn());
        vstd::seq_lib::lemma_concat_associative(old(out)@, ("{")@, joined);
        vstd::seq_lib::lemma_concat_associative(old(out)@, ("{")@ + joined, ("}")@);
        assert(out@ == old(out)@ + json_step_map(m@));
    }
}

/// The serialized form of the whole document.
pub open spec fn json_project(d: ProjectData) -> Seq<char> {
    "{\"version\":"@ + json_string(d.version@) + ",\"metadata\":"@ + json_metadata(d.metadata)
        + ",\"scenes\":"@ + json_scene_map(d.scenes@) + ",\"draft_tabs\":"@ + json_tab_map(
        d.draft_tabs@,
    ) + ",\"stars\":"@ + json_star_map(d.stars@) + ",\"characters\":"@ + json_character_map(
        d.characters@,
    ) + ",\"plan_steps\":"@ + json_step_map(d.plan_steps@) + ",\"idea_bank\":"@ + json_idea_bank(
        d.idea_bank,
    ) + ",\"active_scene_id\":"@ + json_opt_string(d.active_scene_id) + "}"@
}

/// Serializes the entire document to the exact JSON text that
/// [`json_project`] states: this is what `save` writes to disk.
#[verifier::rlimit(100)]
pub fn project_to_json(d: &ProjectData) -> (r: String)
    ensures
        r@ == json_project(*d),
{
    let mut out = String::new();
    let ghost base = out@;
    let ghost mut acc: Seq<char> = Seq::empty();
    out.append("{\"version\":");
    proof {
        acc = ("{\"version\":")@;
    }
    push_json_string(&mut out, d.version.as_str());
    proof {
        vstd::seq_lib::lemma_concat_associative(base, acc, json_string(d.version@));
        acc = acc + json_string(d.version@);
    }
    out.append(",\"metadata\":");
    proof {
        vstd::seq_lib::lemma_concat_associative(base, acc, (",\"metadata\":")@);
        acc = acc + (",\"metadata\":")@;
    }
    push_json_metadata(&mut out, &d.metadata);
    proof {
        vstd::seq_lib::lemma_concat_associative(base, acc, json_metadata(d.metadata));
        acc = acc + json_metadata(d.metadata);
    }
    out.append(",\"scenes\":");
    proof {
        vstd::seq_lib::lemma_concat_associative(base, acc, (",\"scenes\":")@);
        acc = acc + (",\"scenes\":")@;
    }
    push_json_scene_map(&mut out, &d.scenes);
    proof {
        vstd::seq_lib::lemma_concat_associative(base, acc, json_scene_map(d.scenes@));
        acc = acc + json_scene_map(d.scenes@);
    }
    out.append(",\"draft_tabs\":");
    proof {
        vstd::seq_lib::lemma_concat_associative(base, acc, (",\"draft_tabs\":")@);
        acc = acc + (",\"draft_tabs\":")@;
    }
    push_json_tab_map(&mut out, &d.draft_tabs);
    proof {
        vstd::seq_lib::lemma_concat_associative(base, acc, json_tab_map(d.draft_tabs@));
        acc = acc + json_tab_map(d.draft_tabs@);
    }
    out.append(",\"stars\":");
    proof {
        vstd::seq_lib::lemma_concat_associative(base, acc, (",\"stars\":")@);
        acc = acc + (",\"stars\":")@;
    }
    push_json_star_map(&mut out, &d.stars);
    proof {
        vstd::seq_lib::lemma_concat_associative(base, acc, json_star_map(d.stars@));
        acc = acc + json_star_map(d.stars@);
    }
    out.append(",\"characters\":");
    proof {
        vstd::seq_lib::lemma_concat_associative(base, acc, (",\"characters\":")@);
        acc = acc + (",\"characters\":")@;
    }
    push_json_character_map(&mut out, &d.characters);
    proof {
        vstd::seq_lib::lemma_concat_associative(base, acc, json_character_map(d.characters@));
        acc = acc + json_character_map(d.characters@);
    }
    out.append(",\"plan_steps\":");
    proof {
        vstd::seq_lib::lemma_concat_associative(base, acc, (",\"plan_steps\":")@);
        acc = acc + (",\"plan_steps\":")@;
    }
    push_json_step_map(&mut out, &d.plan_steps);
    proof {
        vstd::seq_lib::lemma_concat_associative(base, acc, json_step_map(d.plan_steps@));
        acc = acc + json_step_map(d.plan_steps@);
    }
    out.append(",\"idea_bank\":");
    proof {
        vstd::seq_lib::lemma_concat_associative(base, acc, (",\"idea_bank\":")@);
        acc = acc + (",\"idea_bank\":")@;
    }
    push_json_idea_bank(&mut out, &d.idea_bank);
    proof {
        vstd::seq_lib::lemma_concat_associative(base, acc, json_idea_bank(d.idea_bank));
        acc = acc + json_idea_bank(d.idea_bank);
    }
    out.append(",\"active_scene_id\":");
    proof {
        vstd::seq_lib::lemma_concat_associative(base, acc, (",\"active_scene_id\":")@);
        acc = acc + (",\"active_scene_id\":")@;
    }
    push_json_opt_string(&mut out, &d.active_scene_id);
    proof {
        vstd::seq_lib::lemma_concat_associative(base, acc, json_opt_string(d.active_scene_id));
        acc = acc + json_opt_string(d.active_scene_id);
    }
    out.append("}");
    proof {
        vstd::seq_lib::lemma_concat_associative(base, acc, ("}")@);
        acc = acc + ("}")@;
        assert(acc == json_project(*d));
        assert(base =~= Seq::<char>::empty());
        assert(out@ =~= json_project(*d));
    }
    out
}

} // verus!
