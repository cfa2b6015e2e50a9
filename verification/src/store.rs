//! The project store: the versioned project document (scenes, draft tabs,
//! stars, characters, plan steps), the empty document synthesized when no
//! file exists yet, the validation pass that drops dangling references on
//! load, the resolution of the target path, and the error taxonomy of local
//! persistence.  Reading and writing the file itself is the surrounding
//! application's part; every decision about what is read and written is made
//! here.

use vstd::prelude::*;
use vstd::string::StringExecFns;

use crate::text::{dec_digits, push_decimal};
use crate::timeline::TimelineEvent;

verus! {

/// A freeform annotation on a draft tab, optionally flagged important and
/// optionally tied back to the star it originated from.
#[derive(Clone, Debug, PartialEq)]
pub struct Description {
    pub id: String,
    pub text: String,
    pub is_important: bool,
    pub origin_star_id: Option<String>,
}

/// One generated or edited pass of a scene segment: ordered timeline events,
/// annotations, and the plan steps it fulfills or suggests.
#[derive(Clone, Debug, PartialEq)]
pub struct DraftTab {
    pub id: String,
    pub scene_id: String,
    pub index: u32,
    pub timeline: Vec<TimelineEvent>,
    pub descriptions: Vec<Description>,
    pub summary: Option<String>,
    pub fulfilled_plan_steps: Vec<String>,
    pub suggested_plan_steps: Vec<String>,
    pub created_at: u64,
    pub updated_at: u64,
}

/// A character, with an open ordered mapping of field name to text value.
#[derive(Clone, Debug, PartialEq)]
pub struct Character {
    pub id: String,
    pub name: String,
    pub fields: Vec<(String, String)>,
}

/// Where a star's idea belongs in the narrative.
#[derive(Clone, Copy, Debug, PartialEq, Eq, Structural)]
pub enum StarScope {
    CurrentScene,
    FuturePlot,
    Backstory,
    Worldbuilding,
}

/// The lifecycle status of a star.
#[derive(Clone, Copy, Debug, PartialEq, Eq, Structural)]
pub enum StarStatus {
    Active,
    Resolved,
    Deferred,
}

#[derive(Clone, Debug, PartialEq)]
pub struct StarTags {
    pub characters: Vec<String>,
    pub scope: StarScope,
    pub status: StarStatus,
    pub custom: Vec<String>,
}

/// A tagged note capturing an idea, plot thread or reminder.
#[derive(Clone, Debug, PartialEq)]
pub struct Star {
    pub id: String,
    pub title: String,
    pub body: String,
    pub tags: StarTags,
    /// The relevance score, held as the decimal text it was written with;
    /// the store never interprets it, higher means more relevant.
    pub priority: String,
    pub is_checked: bool,
    pub origin_draft_tab_id: Option<String>,
    pub created_at: u64,
    pub last_used_in_prompt: Option<u64>,
}

/// One discrete beat of a scene's outline, trackable as fulfilled by
/// specific draft tabs and linked to stars.
#[derive(Clone, Debug, PartialEq)]
pub struct PlanStep {
    pub id: String,
    pub text: String,
    pub fulfilled_by: Vec<String>,
    pub linked_stars: Vec<String>,
}

#[derive(Clone, Debug, PartialEq)]
pub struct ScenePlan {
    pub raw_text: String,
    pub parsed_steps: Vec<PlanStep>,
}

#[derive(Clone, Debug, PartialEq)]
pub struct Scene {
    pub id: String,
    pub name: String,
    pub setting: Option<String>,
    pub backstory: Option<String>,
    pub plan: ScenePlan,
    pub draft_tab_ids: Vec<String>,
    pub created_at: u64,
    pub updated_at: u64,
}

/// The holding area for draft tabs not yet assigned to any scene.
#[derive(Clone, Debug, PartialEq)]
pub struct IdeaBank {
    pub stored_draft_tab_ids: Vec<String>,
}

#[derive(Clone, Debug, PartialEq)]
pub struct ProjectMetadata {
    pub title: String,
    pub author: Option<String>,
    pub created_at: u64,
    pub updated_at: u64,
}

/// The whole versioned project document.  Each entity mapping is an ordered
/// association list from id to entity, with unique ids.
#[derive(Clone, Debug, PartialEq)]
pub struct ProjectData {
    pub version: String,
    pub metadata: ProjectMetadata,
    pub scenes: Vec<(String, Scene)>,
    pub draft_tabs: Vec<(String, DraftTab)>,
    pub stars: Vec<(String, Star)>,
    pub characters: Vec<(String, Character)>,
    pub plan_steps: Vec<(String, PlanStep)>,
    pub idea_bank: IdeaBank,
    pub active_scene_id: Option<String>,
}

/// The ids of an association list, in order, as character sequences.
pub open spec fn key_views<V>(m: Seq<(String, V)>) -> Seq<Seq<char>> {
    m.map_values(|p: (String, V)| p.0@)
}

pub open spec fn str_views(v: Seq<String>) -> Seq<Seq<char>> {
    v.map_values(|s: String| s@)
}

pub open spec fn unique_ids<V>(m: Seq<(String, V)>) -> bool {
    forall|i: int, j: int| 0 <= i < j < m.len() ==> m[i].0@ != m[j].0@
}

/// Each entity mapping keys its entries uniquely.
pub open spec fn wf(d: ProjectData) -> bool {
    &&& unique_ids(d.scenes@)
    &&& unique_ids(d.draft_tabs@)
    &&& unique_ids(d.stars@)
    &&& unique_ids(d.characters@)
    &&& unique_ids(d.plan_steps@)
}

/// Membership of an id among a set of keys.
pub open spec fn known_pred(keys: Seq<Seq<char>>) -> spec_fn(Seq<char>) -> bool {
    |x: Seq<char>| keys.contains(x)
}

pub open spec fn all_known(ids: Seq<String>, keys: Seq<Seq<char>>) -> bool {
    forall|i: int| 0 <= i < ids.len() ==> keys.contains(#[trigger] ids[i]@)
}

pub open spec fn opt_known(id: Option<String>, keys: Seq<Seq<char>>) -> bool {
    match id {
        Option::Some(s) => keys.contains(s@),
        Option::None => true,
    }
}

pub open spec fn step_closed(s: PlanStep, tab_keys: Seq<Seq<char>>, star_keys: Seq<Seq<char>>) -> bool {
    all_known(s.fulfilled_by@, tab_keys) && all_known(s.linked_stars@, star_keys)
}

pub open spec fn scene_closed(s: Scene, tab_keys: Seq<Seq<char>>, star_keys: Seq<Seq<char>>) -> bool {
    &&& all_known(s.draft_tab_ids@, tab_keys)
    &&& forall|i: int|
        0 <= i < s.plan.parsed_steps@.len() ==> step_closed(
            #[trigger] s.plan.parsed_steps@[i],
            tab_keys,
            star_keys,
        )
}

pub open spec fn tab_closed(t: DraftTab, step_keys: Seq<Seq<char>>, star_keys: Seq<Seq<char>>) -> bool {
    &&& all_known(t.fulfilled_plan_steps@, step_keys)
    &&& all_known(t.suggested_plan_steps@, step_keys)
    &&& forall|i: int|
        0 <= i < t.descriptions@.len() ==> opt_known(
            (#[trigger] t.descriptions@[i]).origin_star_id,
            star_keys,
        )
}

pub open spec fn star_closed(s: Star, char_keys: Seq<Seq<char>>, tab_keys: Seq<Seq<char>>) -> bool {
    all_known(s.tags.characters@, char_keys) && opt_known(s.origin_draft_tab_id, tab_keys)
}

/// Every id referenced inside a mapping value of `d` exists as a key in the
/// corresponding mapping.
pub open spec fn references_closed(d: ProjectData) -> bool {
    let scene_keys = key_views(d.scenes@);
    let tab_keys = key_views(d.draft_tabs@);
    let star_keys = key_views(d.stars@);
    let char_keys = key_views(d.characters@);
    let step_keys = key_views(d.plan_steps@);
    &&& forall|i: int|
        0 <= i < d.scenes@.len() ==> scene_closed((#[trigger] d.scenes@[i]).1, tab_keys, star_keys)
    &&& forall|i: int|
        0 <= i < d.draft_tabs@.len() ==> tab_closed(
            (#[trigger] d.draft_tabs@[i]).1,
            step_keys,
            star_keys,
        )
    &&& forall|i: int|
        0 <= i < d.stars@.len() ==> star_closed((#[trigger] d.stars@[i]).1, char_keys, tab_keys)
    &&& forall|i: int|
        0 <= i < d.plan_steps@.len() ==> step_closed(
            (#[trigger] d.plan_steps@[i]).1,
            tab_keys,
            star_keys,
        )
    &&& all_known(d.idea_bank.stored_draft_tab_ids@, tab_keys)
    &&& opt_known(d.active_scene_id, key_views(d.scenes@))
}

/// `new_ids` is `old_ids` with every id that is not among `keys` dropped.
pub open spec fn ids_filtered(
    old_ids: Seq<String>,
    keys: Seq<Seq<char>>,
    new_ids: Seq<String>,
) -> bool {
    str_views(new_ids) == str_views(old_ids).filter(known_pred(keys))
}

/// `n` is `o` with the reference dropped when its target is not among
/// `keys`.
pub open spec fn opt_pruned(o: Option<String>, keys: Seq<Seq<char>>, n: Option<String>) -> bool {
    match o {
        Option::Some(id) => if keys.contains(id@) {
            n == o
        } else {
            n is None
        },
        Option::None => n is None,
    }
}

pub open spec fn step_repaired(
    tab_keys: Seq<Seq<char>>,
    star_keys: Seq<Seq<char>>,
    o: PlanStep,
    n: PlanStep,
) -> bool {
    &&& n.id == o.id
    &&& n.text == o.text
    &&& ids_filtered(o.fulfilled_by@, tab_keys, n.fulfilled_by@)
    &&& ids_filtered(o.linked_stars@, star_keys, n.linked_stars@)
}

pub open spec fn scene_repaired(
    tab_keys: Seq<Seq<char>>,
    star_keys: Seq<Seq<char>>,
    o: Scene,
    n: Scene,
) -> bool {
    &&& n.id == o.id
    &&& n.name == o.name
    &&& n.setting == o.setting
    &&& n.backstory == o.backstory
    &&& n.created_at == o.created_at
    &&& n.updated_at == o.updated_at
    &&& n.plan.raw_text == o.plan.raw_text
    &&& n.plan.parsed_steps@.len() == o.plan.parsed_steps@.len()
    &&& forall|i: int|
        0 <= i < o.plan.parsed_steps@.len() ==> step_repaired(
            tab_keys,
            star_keys,
            o.plan.parsed_steps@[i],
            #[trigger] n.plan.parsed_steps@[i],
        )
    &&& ids_filtered(o.draft_tab_ids@, tab_keys, n.draft_tab_ids@)
}

pub open spec fn star_repaired(
    char_keys: Seq<Seq<char>>,
    tab_keys: Seq<Seq<char>>,
    o: Star,
    n: Star,
) -> bool {
    &&& n.id == o.id
    &&& n.title == o.title
    &&& n.body == o.body
    &&& n.tags.scope == o.tags.scope
    &&& n.tags.status == o.tags.status
    &&& n.tags.custom == o.tags.custom
    &&& ids_filtered(o.tags.characters@, char_keys, n.tags.characters@)
    &&& n.priority == o.priority
    &&& n.is_checked == o.is_checked
    &&& opt_pruned(o.origin_draft_tab_id, tab_keys, n.origin_draft_tab_id)
    &&& n.created_at == o.created_at
    &&& n.last_used_in_prompt == o.last_used_in_prompt
}

pub open spec fn tab_repaired(
    step_keys: Seq<Seq<char>>,
    star_keys: Seq<Seq<char>>,
    o: DraftTab,
    n: DraftTab,
) -> bool {
    &&& n.id == o.id
    &&& n.scene_id == o.scene_id
    &&& n.index == o.index
    &&& n.timeline == o.timeline
    &&& n.summary == o.summary
    &&& n.created_at == o.created_at
    &&& n.updated_at == o.updated_at
    &&& n.descriptions@.len() == o.descriptions@.len()
    &&& forall|i: int|
        0 <= i < o.descriptions@.len() ==> {
            let od = o.descriptions@[i];
            let nd = #[trigger] n.descriptions@[i];
            nd.id == od.id && nd.text == od.text && nd.is_important == od.is_important
                && opt_pruned(od.origin_star_id, star_keys, nd.origin_star_id)
        }
    &&& ids_filtered(o.fulfilled_plan_steps@, step_keys, n.fulfilled_plan_steps@)
    &&& ids_filtered(o.suggested_plan_steps@, step_keys, n.suggested_plan_steps@)
}

fn contains_id(keys: &Vec<String>, id: &String) -> (r: bool)
    ensures
        r == str_views(keys@).contains(id@),
{
    let n = keys.len();
    let mut i: usize = 0;
    while i < n
        invariant
            i <= n,
            n == keys@.len(),
            forall|j: int| 0 <= j < i ==> (#[trigger] keys@[j])@ != id@,
        decreases n - i,
    {
        if keys[i].eq(id) {
            proof {
                assert(str_views(keys@)[i as int] == id@);
            }
            return true;
        }
        i = i + 1;
    }
    proof {
        assert forall|j: int| 0 <= j < keys@.len() implies str_views(keys@)[j] != id@ by {
            assert(str_views(keys@)[j] == keys@[j]@);
        }
    }
    false
}

/// The ids of an association list, copied out in order.
fn ids_of<V>(m: &Vec<(String, V)>) -> (r: Vec<String>)
    ensures
        str_views(r@) == key_views(m@),
{
    let mut r: Vec<String> = Vec::new();
    let n = m.len();
    let mut i: usize = 0;
    while i < n
        invariant
            i <= n,
            n == m@.len(),
            str_views(r@) == key_views(m@).take(i as int),
        decreases n - i,
    {
        let p = &m[i];
        let s = p.0.clone();
        let ghost sval = s;
        let ghost prev = r@;
        r.push(s);
        i = i + 1;
        proof {
            let km = key_views(m@);
            assert(str_views(prev).len() == prev.len());
            assert(prev.len() == i as int - 1);
            assert(r@ == prev.push(sval));
            assert(sval@ == m@[i as int - 1].0@);
            assert forall|j: int| 0 <= j < i as int implies str_views(r@)[j] == km.take(
                i as int,
            )[j] by {
                assert(str_views(r@)[j] == r@[j]@);
                assert(km[j] == m@[j].0@);
                if j < i as int - 1 {
                    assert(r@[j] == prev[j]);
                    assert(str_views(prev)[j] == prev[j]@);
                }
            }
            assert(str_views(r@) =~= km.take(i as int));
        }
    }
    proof {
        assert(key_views(m@).take(n as int) =~= key_views(m@));
    }
    r
}

/// Keeps, in order, the ids of `ids` that occur among `keys`.
fn filter_known(ids: &Vec<String>, keys: &Vec<String>) -> (r: Vec<String>)
    ensures
        ids_filtered(ids@, str_views(keys@), r@),
{
    let mut r: Vec<String> = Vec::new();
    let n = ids.len();
    let mut i: usize = 0;
    proof {
        reveal(Seq::filter);
    }
    while i < n
        invariant
            i <= n,
            n == ids@.len(),
            str_views(r@) == str_views(ids@).take(i as int).filter(known_pred(str_views(keys@))),
        decreases n - i,
    {
        let id = &ids[i];
        let keep = contains_id(keys, id);
        if keep {
            r.push(id.clone());
        }
        i = i + 1;
        proof {
            reveal(Seq::filter);
            let pre = str_views(ids@).take(i as int - 1);
            let full = str_views(ids@).take(i as int);
            assert(full.drop_last() =~= pre);
            assert(full.last() == ids@[i as int - 1]@);
            if keep {
                assert(str_views(r@) =~= pre.filter(known_pred(str_views(keys@))).push(
                    ids@[i as int - 1]@,
                ));
            }
            assert(str_views(r@) =~= full.filter(known_pred(str_views(keys@))));
        }
    }
    proof {
        assert(str_views(ids@).take(n as int) =~= str_views(ids@));
    }
    r
}

fn prune_opt_id(o: Option<String>, keys: &Vec<String>) -> (r: Option<String>)
    ensures
        opt_pruned(o, str_views(keys@), r),
{
    match o {
        Some(id) => {
            if contains_id(keys, &id) {
                Some(id)
            } else {
                None
            }
        },
        None => None,
    }
}

fn repair_step(step: PlanStep, tab_keys: &Vec<String>, star_keys: &Vec<String>) -> (r: PlanStep)
    ensures
        step_repaired(str_views(tab_keys@), str_views(star_keys@), step, r),
{
    let fulfilled_by = filter_known(&step.fulfilled_by, tab_keys);
    let linked_stars = filter_known(&step.linked_stars, star_keys);
    PlanStep { id: step.id, text: step.text, fulfilled_by, linked_stars }
}

fn repair_steps(steps: Vec<PlanStep>, tab_keys: &Vec<String>, star_keys: &Vec<String>) -> (r: Vec<
    PlanStep,
>)
    ensures
        r@.len() == steps@.len(),
        forall|i: int|
            0 <= i < steps@.len() ==> step_repaired(
                str_views(tab_keys@),
                str_views(star_keys@),
                steps@[i],
                #[trigger] r@[i],
            ),
{
    let ghost orig = steps@;
    let mut src = steps;
    let mut out: Vec<PlanStep> = Vec::new();
    while src.len() > 0
        invariant
            out@.len() + src@.len() == orig.len(),
            src@ == orig.subrange(out@.len() as int, orig.len() as int),
            forall|i: int|
                0 <= i < out@.len() ==> step_repaired(
                    str_views(tab_keys@),
                    str_views(star_keys@),
                    orig[i],
                    #[trigger] out@[i],
                ),
        decreases src@.len(),
    {
        let step = src.remove(0);
        proof {
            assert(step == orig[out@.len() as int]);
        }
        let repaired = repair_step(step, tab_keys, star_keys);
        out.push(repaired);
        proof {
            assert(src@ =~= orig.subrange(out@.len() as int, orig.len() as int));
        }
    }
    out
}

fn repair_scene(scene: Scene, tab_keys: &Vec<String>, star_keys: &Vec<String>) -> (r: Scene)
    ensures
        scene_repaired(str_views(tab_keys@), str_views(star_keys@), scene, r),
{
    let draft_tab_ids = filter_known(&scene.draft_tab_ids, tab_keys);
    let parsed_steps = repair_steps(scene.plan.parsed_steps, tab_keys, star_keys);
    Scene {
        id: scene.id,
        name: scene.name,
        setting: scene.setting,
        backstory: scene.backstory,
        plan: ScenePlan { raw_text: scene.plan.raw_text, parsed_steps },
        draft_tab_ids,
        created_at: scene.created_at,
        updated_at: scene.updated_at,
    }
}

fn repair_star(star: Star, char_keys: &Vec<String>, tab_keys: &Vec<String>) -> (r: Star)
    ensures
        star_repaired(str_views(char_keys@), str_views(tab_keys@), star, r),
{
    let characters = filter_known(&star.tags.characters, char_keys);
    let origin_draft_tab_id = prune_opt_id(star.origin_draft_tab_id, tab_keys);
    Star {
        id: star.id,
        title: star.title,
        body: star.body,
        tags: StarTags {
            characters,
            scope: star.tags.scope,
            status: star.tags.status,
            custom: star.tags.custom,
        },
        priority: star.priority,
        is_checked: star.is_checked,
        origin_draft_tab_id,
        created_at: star.created_at,
        last_used_in_prompt: star.last_used_in_prompt,
    }
}

fn repair_descriptions(descriptions: Vec<Description>, star_keys: &Vec<String>) -> (r: Vec<
    Description,
>)
    ensures
        r@.len() == descriptions@.len(),
        forall|i: int|
            0 <= i < descriptions@.len() ==> {
                let od = descriptions@[i];
                let nd = #[trigger] r@[i];
                nd.id == od.id && nd.text == od.text && nd.is_important == od.is_important
                    && opt_pruned(od.origin_star_id, str_views(star_keys@), nd.origin_star_id)
            },
{
    let ghost orig = descriptions@;
    let mut src = descriptions;
    let mut out: Vec<Description> = Vec::new();
    while src.len() > 0
        invariant
            out@.len() + src@.len() == orig.len(),
            src@ == orig.subrange(out@.len() as int, orig.len() as int),
            forall|i: int|
                0 <= i < out@.len() ==> {
                    let od = orig[i];
                    let nd = #[trigger] out@[i];
                    nd.id == od.id && nd.text == od.text && nd.is_important == od.is_important
                        && opt_pruned(od.origin_star_id, str_views(star_keys@), nd.origin_star_id)
                },
        decreases src@.len(),
    {
        let d = src.remove(0);
        proof {
            assert(d == orig[out@.len() as int]);
        }
        let origin_star_id = prune_opt_id(d.origin_star_id, star_keys);
        out.push(
            Description { id: d.id, text: d.text, is_important: d.is_important, origin_star_id },
        );
        proof {
            assert(src@ =~= orig.subrange(out@.len() as int, orig.len() as int));
        }
    }
    out
}

fn repair_tab(tab: DraftTab, step_keys: &Vec<String>, star_keys: &Vec<String>) -> (r: DraftTab)
    ensures
        tab_repaired(str_views(step_keys@), str_views(star_keys@), tab, r),
{
    let fulfilled_plan_steps = filter_known(&tab.fulfilled_plan_steps, step_keys);
    let suggested_plan_steps = filter_known(&tab.suggested_plan_steps, step_keys);
    let descriptions = repair_descriptions(tab.descriptions, star_keys);
    DraftTab {
        id: tab.id,
        scene_id: tab.scene_id,
        index: tab.index,
        timeline: tab.timeline,
        descriptions,
        summary: tab.summary,
        fulfilled_plan_steps,
        suggested_plan_steps,
        created_at: tab.created_at,
        updated_at: tab.updated_at,
    }
}

proof fn lemma_filtered_known(old_ids: Seq<String>, keys: Seq<Seq<char>>, new_ids: Seq<String>)
    requires
        ids_filtered(old_ids, keys, new_ids),
    ensures
        all_known(new_ids, keys),
{
    assert forall|i: int| 0 <= i < new_ids.len() implies keys.contains(#[trigger] new_ids[i]@) by {
        assert(str_views(new_ids).len() == new_ids.len());
        assert(str_views(new_ids)[i] == new_ids[i]@);
        str_views(old_ids).lemma_filter_pred(known_pred(keys), i);
        assert(known_pred(keys)(str_views(new_ids)[i]));
    }
}

proof fn lemma_pruned_known(o: Option<String>, keys: Seq<Seq<char>>, n: Option<String>)
    requires
        opt_pruned(o, keys, n),
    ensures
        opt_known(n, keys),
{
}

proof fn lemma_step_closed(
    tab_keys: Seq<Seq<char>>,
    star_keys: Seq<Seq<char>>,
    o: PlanStep,
    n: PlanStep,
)
    requires
        step_repaired(tab_keys, star_keys, o, n),
    ensures
        step_closed(n, tab_keys, star_keys),
{
    lemma_filtered_known(o.fulfilled_by@, tab_keys, n.fulfilled_by@);
    lemma_filtered_known(o.linked_stars@, star_keys, n.linked_stars@);
}

proof fn lemma_scene_closed(
    tab_keys: Seq<Seq<char>>,
    star_keys: Seq<Seq<char>>,
    o: Scene,
    n: Scene,
)
    requires
        scene_repaired(tab_keys, star_keys, o, n),
    ensures
        scene_closed(n, tab_keys, star_keys),
{
    lemma_filtered_known(o.draft_tab_ids@, tab_keys, n.draft_tab_ids@);
    assert forall|i: int| 0 <= i < n.plan.parsed_steps@.len() implies step_closed(
        #[trigger] n.plan.parsed_steps@[i],
        tab_keys,
        star_keys,
    ) by {
        lemma_step_closed(tab_keys, star_keys, o.plan.parsed_steps@[i], n.plan.parsed_steps@[i]);
    }
}

proof fn lemma_star_closed(
    char_keys: Seq<Seq<char>>,
    tab_keys: Seq<Seq<char>>,
    o: Star,
    n: Star,
)
    requires
        star_repaired(char_keys, tab_keys, o, n),
    ensures
        star_closed(n, char_keys, tab_keys),
{
    lemma_filtered_known(o.tags.characters@, char_keys, n.tags.characters@);
}

proof fn lemma_tab_closed(
    step_keys: Seq<Seq<char>>,
    star_keys: Seq<Seq<char>>,
    o: DraftTab,
    n: DraftTab,
)
    requires
        tab_repaired(step_keys, star_keys, o, n),
    ensures
        tab_closed(n, step_keys, star_keys),
{
    lemma_filtered_known(o.fulfilled_plan_steps@, step_keys, n.fulfilled_plan_steps@);
    lemma_filtered_known(o.suggested_plan_steps@, step_keys, n.suggested_plan_steps@);
    assert forall|i: int| 0 <= i < n.descriptions@.len() implies opt_known(
        (#[trigger] n.descriptions@[i]).origin_star_id,
        star_keys,
    ) by {
        lemma_pruned_known(
            o.descriptions@[i].origin_star_id,
            star_keys,
            n.descriptions@[i].origin_star_id,
        );
    }
}

proof fn lemma_same_keys_unique<V, W>(a: Seq<(String, V)>, b: Seq<(String, W)>)
    requires
        key_views(a) == key_views(b),
        unique_ids(a),
    ensures
        unique_ids(b),
{
    assert(key_views(a).len() == a.len());
    assert(key_views(b).len() == b.len());
    assert forall|i: int, j: int| 0 <= i < j < b.len() implies b[i].0@ != b[j].0@ by {
        assert(key_views(b)[i] == b[i].0@);
        assert(key_views(b)[j] == b[j].0@);
        assert(key_views(a)[i] == a[i].0@);
        assert(key_views(a)[j] == a[j].0@);
    }
}

/// The validation pass run on a loaded document: every dangling reference
/// (an id with no entry in the mapping it points into) is dropped, by
/// removal and never by erroring; everything else is kept verbatim, entry
/// order and key sets included.
pub fn repair(d: ProjectData) -> (r: ProjectData)
    ensures
        r.version == d.version,
        r.metadata == d.metadata,
        r.characters == d.characters,
        key_views(r.scenes@) == key_views(d.scenes@),
        key_views(r.draft_tabs@) == key_views(d.draft_tabs@),
        key_views(r.stars@) == key_views(d.stars@),
        key_views(r.plan_steps@) == key_views(d.plan_steps@),
        r.scenes@.len() == d.scenes@.len(),
        forall|i: int|
            0 <= i < d.scenes@.len() ==> (#[trigger] r.scenes@[i]).0 == d.scenes@[i].0
                && scene_repaired(
                key_views(d.draft_tabs@),
                key_views(d.stars@),
                d.scenes@[i].1,
                r.scenes@[i].1,
            ),
        r.draft_tabs@.len() == d.draft_tabs@.len(),
        forall|i: int|
            0 <= i < d.draft_tabs@.len() ==> (#[trigger] r.draft_tabs@[i]).0 == d.draft_tabs@[i].0
                && tab_repaired(
                key_views(d.plan_steps@),
                key_views(d.stars@),
                d.draft_tabs@[i].1,
                r.draft_tabs@[i].1,
            ),
        r.stars@.len() == d.stars@.len(),
        forall|i: int|
            0 <= i < d.stars@.len() ==> (#[trigger] r.stars@[i]).0 == d.stars@[i].0
                && star_repaired(
                key_views(d.characters@),
                key_views(d.draft_tabs@),
                d.stars@[i].1,
                r.stars@[i].1,
            ),
        r.plan_steps@.len() == d.plan_steps@.len(),
        forall|i: int|
            0 <= i < d.plan_steps@.len() ==> (#[trigger] r.plan_steps@[i]).0 == d.plan_steps@[i].0
                && step_repaired(
                key_views(d.draft_tabs@),
                key_views(d.stars@),
                d.plan_steps@[i].1,
                r.plan_steps@[i].1,
            ),
        ids_filtered(
            d.idea_bank.stored_draft_tab_ids@,
            key_views(d.draft_tabs@),
            r.idea_bank.stored_draft_tab_ids@,
        ),
        opt_pruned(d.active_scene_id, key_views(d.scenes@), r.active_scene_id),
        references_closed(r),
        wf(d) ==> wf(r),
{
    let ghost d0 = d;
    let scene_keys = ids_of(&d.scenes);
    let tab_keys = ids_of(&d.draft_tabs);
    let star_keys = ids_of(&d.stars);
    let char_keys = ids_of(&d.characters);
    let step_keys = ids_of(&d.plan_steps);
    let ProjectData {
        version,
        metadata,
        scenes,
        draft_tabs,
        stars,
        characters,
        plan_steps,
        idea_bank,
        active_scene_id,
    } = d;

    let ghost orig_scenes = scenes@;
    let mut src_scenes = scenes;
    let mut new_scenes: Vec<(String, Scene)> = Vec::new();
    while src_scenes.len() > 0
        invariant
            new_scenes@.len() + src_scenes@.len() == orig_scenes.len(),
            src_scenes@ == orig_scenes.subrange(new_scenes@.len() as int, orig_scenes.len() as int),
            forall|i: int|
                0 <= i < new_scenes@.len() ==> (#[trigger] new_scenes@[i]).0 == orig_scenes[i].0
                    && scene_repaired(
                    str_views(tab_keys@),
                    str_views(star_keys@),
                    orig_scenes[i].1,
                    new_scenes@[i].1,
                ),
        decreases src_scenes@.len(),
    {
        let (id, sc) = src_scenes.remove(0);
        proof {
            assert(id == orig_scenes[new_scenes@.len() as int].0);
            assert(sc == orig_scenes[new_scenes@.len() as int].1);
        }
        let rsc = repair_scene(sc, &tab_keys, &star_keys);
        new_scenes.push((id, rsc));
        proof {
            assert(src_scenes@ =~= orig_scenes.subrange(
                new_scenes@.len() as int,
                orig_scenes.len() as int,
            ));
        }
    }

    let ghost orig_tabs = draft_tabs@;
    let mut src_tabs = draft_tabs;
    let mut new_tabs: Vec<(String, DraftTab)> = Vec::new();
    while src_tabs.len() > 0
        invariant
            new_tabs@.len() + src_tabs@.len() == orig_tabs.len(),
            src_tabs@ == orig_tabs.subrange(new_tabs@.len() as int, orig_tabs.len() as int),
            forall|i: int|
                0 <= i < new_tabs@.len() ==> (#[trigger] new_tabs@[i]).0 == orig_tabs[i].0
                    && tab_repaired(
                    str_views(step_keys@),
                    str_views(star_keys@),
                    orig_tabs[i].1,
                    new_tabs@[i].1,
                ),
        decreases src_tabs@.len(),
    {
        let (id, tb) = src_tabs.remove(0);
        proof {
            assert(id == orig_tabs[new_tabs@.len() as int].0);
            assert(tb == orig_tabs[new_tabs@.len() as int].1);
        }
        let rtb = repair_tab(tb, &step_keys, &star_keys);
        new_tabs.push((id, rtb));
        proof {
            assert(src_tabs@ =~= orig_tabs.subrange(
                new_tabs@.len() as int,
                orig_tabs.len() as int,
            ));
        }
    }

    let ghost orig_stars = stars@;
    let mut src_stars = stars;
    let mut new_stars: Vec<(String, Star)> = Vec::new();
    while src_stars.len() > 0
        invariant
            new_stars@.len() + src_stars@.len() == orig_stars.len(),
            src_stars@ == orig_stars.subrange(new_stars@.len() as int, orig_stars.len() as int),
            forall|i: int|
                0 <= i < new_stars@.len() ==> (#[trigger] new_stars@[i]).0 == orig_stars[i].0
                    && star_repaired(
                    str_views(char_keys@),
                    str_views(tab_keys@),
                    orig_stars[i].1,
                    new_stars@[i].1,
                ),
        decreases src_stars@.len(),
    {
        let (id, st) = src_stars.remove(0);
        proof {
            assert(id == orig_stars[new_stars@.len() as int].0);
            assert(st == orig_stars[new_stars@.len() as int].1);
        }
        let rst = repair_star(st, &char_keys, &tab_keys);
        new_stars.push((id, rst));
        proof {
            assert(src_stars@ =~= orig_stars.subrange(
                new_stars@.len() as int,
                orig_stars.len() as int,
            ));
        }
    }

    let ghost orig_steps = plan_steps@;
    let mut src_steps = plan_steps;
    let mut new_steps: Vec<(String, PlanStep)> = Vec::new();
    while src_steps.len() > 0
        invariant
            new_steps@.len() + src_steps@.len() == orig_steps.len(),
            src_steps@ == orig_steps.subrange(new_steps@.len() as int, orig_steps.len() as int),
            forall|i: int|
                0 <= i < new_steps@.len() ==> (#[trigger] new_steps@[i]).0 == orig_steps[i].0
                    && step_repaired(
                    str_views(tab_keys@),
                    str_views(star_keys@),
                    orig_steps[i].1,
                    new_steps@[i].1,
                ),
        decreases src_steps@.len(),
    {
        let (id, st) = src_steps.remove(0);
        proof {
            assert(id == orig_steps[new_steps@.len() as int].0);
            assert(st == orig_steps[new_steps@.len() as int].1);
        }
        let rst = repair_step(st, &tab_keys, &star_keys);
        new_steps.push((id, rst));
        proof {
            assert(src_steps@ =~= orig_steps.subrange(
                new_steps@.len() as int,
                orig_steps.len() as int,
            ));
        }
    }

    let stored = filter_known(&idea_bank.stored_draft_tab_ids, &tab_keys);
    let active = prune_opt_id(active_scene_id, &scene_keys);

    let r = ProjectData {
        version,
        metadata,
        scenes: new_scenes,
        draft_tabs: new_tabs,
        stars: new_stars,
        characters,
        plan_steps: new_steps,
        idea_bank: IdeaBank { stored_draft_tab_ids: stored },
        active_scene_id: active,
    };
    proof {
        let tkv = key_views(d0.draft_tabs@);
        let skv = key_views(d0.stars@);
        let ckv = key_views(d0.characters@);
        let pkv = key_views(d0.plan_steps@);
        let sckv = key_views(d0.scenes@);
        assert(key_views(r.scenes@) =~= sckv) by {
            assert forall|i: int| 0 <= i < r.scenes@.len() implies key_views(r.scenes@)[i]
                == sckv[i] by {
                assert(key_views(r.scenes@)[i] == r.scenes@[i].0@);
                assert(sckv[i] == d0.scenes@[i].0@);
            }
        }
        assert(key_views(r.draft_tabs@) =~= tkv) by {
            assert forall|i: int| 0 <= i < r.draft_tabs@.len() implies key_views(r.draft_tabs@)[i]
                == tkv[i] by {
                assert(key_views(r.draft_tabs@)[i] == r.draft_tabs@[i].0@);
                assert(tkv[i] == d0.draft_tabs@[i].0@);
            }
        }
        assert(key_views(r.stars@) =~= skv) by {
            assert forall|i: int| 0 <= i < r.stars@.len() implies key_views(r.stars@)[i]
                == skv[i] by {
                assert(key_views(r.stars@)[i] == r.stars@[i].0@);
                assert(skv[i] == d0.stars@[i].0@);
            }
        }
        assert(key_views(r.plan_steps@) =~= pkv) by {
            assert forall|i: int| 0 <= i < r.plan_steps@.len() implies key_views(r.plan_steps@)[i]
                == pkv[i] by {
                assert(key_views(r.plan_steps@)[i] == r.plan_steps@[i].0@);
                assert(pkv[i] == d0.plan_steps@[i].0@);
            }
        }
        assert forall|i: int| 0 <= i < r.scenes@.len() implies scene_closed(
            (#[trigger] r.scenes@[i]).1,
            key_views(r.draft_tabs@),
            key_views(r.stars@),
        ) by {
            lemma_scene_closed(tkv, skv, d0.scenes@[i].1, r.scenes@[i].1);
        }
        assert forall|i: int| 0 <= i < r.draft_tabs@.len() implies tab_closed(
            (#[trigger] r.draft_tabs@[i]).1,
            key_views(r.plan_steps@),
            key_views(r.stars@),
        ) by {
            lemma_tab_closed(pkv, skv, d0.draft_tabs@[i].1, r.draft_tabs@[i].1);
        }
        assert forall|i: int| 0 <= i < r.stars@.len() implies star_closed(
            (#[trigger] r.stars@[i]).1,
            key_views(r.characters@),
            key_views(r.draft_tabs@),
        ) by {
            lemma_star_closed(ckv, tkv, d0.stars@[i].1, r.stars@[i].1);
        }
        assert forall|i: int| 0 <= i < r.plan_steps@.len() implies step_closed(
            (#[trigger] r.plan_steps@[i]).1,
            key_views(r.draft_tabs@),
            key_views(r.stars@),
        ) by {
            lemma_step_closed(tkv, skv, d0.plan_steps@[i].1, r.plan_steps@[i].1);
        }
        lemma_filtered_known(
            d0.idea_bank.stored_draft_tab_ids@,
            tkv,
            r.idea_bank.stored_draft_tab_ids@,
        );
        lemma_pruned_known(d0.active_scene_id, sckv, r.active_scene_id);
        if wf(d0) {
            lemma_same_keys_unique(d0.scenes@, r.scenes@);
            lemma_same_keys_unique(d0.draft_tabs@, r.draft_tabs@);
            lemma_same_keys_unique(d0.stars@, r.stars@);
            lemma_same_keys_unique(d0.plan_steps@, r.plan_steps@);
        }
    }
    r
}

/// The empty, well-formed document synthesized when no file exists yet:
/// schema version constant, fresh metadata stamped with `now_ms` for both
/// timestamps, every mapping empty, the idea bank empty and no active scene.
pub fn empty_project(now_ms: u64) -> (d: ProjectData)
    ensures
        d.version@ == "1.0"@,
        d.metadata.title@ == "New Project"@,
        d.metadata.author is None,
        d.metadata.created_at == now_ms,
        d.metadata.updated_at == now_ms,
        d.scenes@.len() == 0,
        d.draft_tabs@.len() == 0,
        d.stars@.len() == 0,
        d.characters@.len() == 0,
        d.plan_steps@.len() == 0,
        d.idea_bank.stored_draft_tab_ids@.len() == 0,
        d.active_scene_id is None,
        wf(d),
        references_closed(d),
{
    ProjectData {
        version: String::from_str("1.0"),
        metadata: ProjectMetadata {
            title: String::from_str("New Project"),
            author: None,
            created_at: now_ms,
            updated_at: now_ms,
        },
        scenes: Vec::new(),
        draft_tabs: Vec::new(),
        stars: Vec::new(),
        characters: Vec::new(),
        plan_steps: Vec::new(),
        idea_bank: IdeaBank { stored_draft_tab_ids: Vec::new() },
        active_scene_id: None,
    }
}

/// The serialized form of the empty document: the exact JSON text, with the
/// timestamp written in decimal at both metadata fields.
pub open spec fn empty_project_json_text(now_ms: nat) -> Seq<char> {
    "{\"version\":\"1.0\",\"metadata\":{\"title\":\"New Project\",\"author\":null,\"created_at\":"@
        + dec_digits(now_ms) + ",\"updated_at\":"@ + dec_digits(now_ms)
        + "},\"scenes\":{},\"draft_tabs\":{},\"stars\":{},\"characters\":{},\"plan_steps\":{},\"idea_bank\":{\"stored_draft_tab_ids\":[]},\"active_scene_id\":null}"@
}

/// Frames the empty document as the JSON text that is handed back when no
/// saved project exists.
pub fn empty_project_json(now_ms: u64) -> (r: String)
    ensures
        r@ == empty_project_json_text(now_ms as nat),
{
    let mut out = String::new();
    out.append(
        "{\"version\":\"1.0\",\"metadata\":{\"title\":\"New Project\",\"author\":null,\"created_at\":",
    );
    push_decimal(&mut out, now_ms);
    out.append(",\"updated_at\":");
    push_decimal(&mut out, now_ms);
    out.append(
        "},\"scenes\":{},\"draft_tabs\":{},\"stars\":{},\"characters\":{},\"plan_steps\":{},\"idea_bank\":{\"stored_draft_tab_ids\":[]},\"active_scene_id\":null}",
    );
    proof {
        assert(out@ =~= empty_project_json_text(now_ms as nat));
    }
    out
}

/// Relies on `chrono::Utc::now` and `chrono::DateTime::timestamp_millis`:
/// the current wall-clock time in milliseconds since the epoch.  Nothing is
/// promised of the reading; whatever consumes it must hold for every value.
#[verifier::external_body]
fn now_millis() -> u64 {
    chrono::Utc::now().timestamp_millis() as u64
}

/// The document handed back when no file exists at the target path: the
/// empty document, stamped with the time of the call for both timestamps.
/// Whatever the clock read, the document is empty and well-formed.
pub fn fresh_empty_project() -> (d: ProjectData)
    ensures
        d.version@ == "1.0"@,
        d.metadata.title@ == "New Project"@,
        d.metadata.author is None,
        d.metadata.created_at == d.metadata.updated_at,
        d.scenes@.len() == 0,
        d.draft_tabs@.len() == 0,
        d.stars@.len() == 0,
        d.characters@.len() == 0,
        d.plan_steps@.len() == 0,
        d.idea_bank.stored_draft_tab_ids@.len() == 0,
        d.active_scene_id is None,
        wf(d),
        references_closed(d),
{
    let now = now_millis();
    empty_project(now)
}

/// A failure of the project store, carrying the path it concerns, or the
/// distinct non-error outcome of a file picker the user cancelled.
#[derive(Clone, Debug, PartialEq)]
pub enum StoreError {
    LoadError { path: String, detail: String },
    SaveError { path: String, detail: String },
    Cancelled,
}

/// Folds the outcome of reading the file at `path` into the store's
/// taxonomy: content passes through verbatim, a read failure becomes a load
/// error naming the path.
pub fn read_outcome(path: &str, read: Result<String, String>) -> (r: Result<String, StoreError>)
    ensures
        (match read {
            Ok(content) => r matches Ok(c) && c == content,
            Err(detail) => r matches Err(e) && (e matches StoreError::LoadError {
                path: p,
                detail: d,
            } && p@ == path@ && d == detail),
        }),
{
    match read {
        Ok(content) => Ok(content),
        Err(detail) => Err(StoreError::LoadError { path: String::from_str(path), detail }),
    }
}

/// Folds the outcome of writing the file at `path` into the store's
/// taxonomy: a write failure becomes a save error naming the path.
pub fn write_outcome(path: &str, write: Result<(), String>) -> (r: Result<(), StoreError>)
    ensures
        (match write {
            Ok(u) => r is Ok,
            Err(detail) => r matches Err(e) && (e matches StoreError::SaveError {
                path: p,
                detail: d,
            } && p@ == path@ && d == detail),
        }),
{
    match write {
        Ok(()) => Ok(()),
        Err(detail) => Err(StoreError::SaveError { path: String::from_str(path), detail }),
    }
}

/// A cancelled file picker is a distinct, non-fatal outcome, not an I/O
/// fault.
pub fn picked_save_path(choice: Option<String>) -> (r: Result<String, StoreError>)
    ensures
        (match choice {
            Option::Some(p) => r matches Ok(q) && q == p,
            Option::None => r == Err::<String, StoreError>(StoreError::Cancelled),
        }),
{
    match choice {
        Some(p) => Ok(p),
        None => Err(StoreError::Cancelled),
    }
}

/// The fixed directory for project files, under the user's document storage
/// area.
pub fn default_project_dir(home: &str) -> (r: String)
    ensures
        r@ == home@ + "/Documents/SpicaWriter"@,
{
    let mut out = String::from_str(home);
    out.append("/Documents/SpicaWriter");
    out
}

/// The fixed default path of the project document.
pub fn default_project_path(home: &str) -> (r: String)
    ensures
        r@ == home@ + "/Documents/SpicaWriter/last_project.json"@,
{
    let mut out = String::from_str(home);
    out.append("/Documents/SpicaWriter/last_project.json");
    out
}

/// An explicit choice (from the out-of-scope file picker) wins; otherwise
/// the fixed default path under the user's documents is used.
pub fn resolve_target_path(explicit: Option<String>, home: &str) -> (r: String)
    ensures
        (match explicit {
            Option::Some(p) => r == p,
            Option::None => r@ == home@ + "/Documents/SpicaWriter/last_project.json"@,
        }),
{
    match explicit {
        Some(p) => p,
        None => default_project_path(home),
    }
}

} // verus!
