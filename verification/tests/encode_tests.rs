use spica_writer::encode::project_to_json;
use spica_writer::store::{
    Description, DraftTab, IdeaBank, PlanStep, ProjectData, ProjectMetadata, Scene, ScenePlan,
    Star, StarScope, StarStatus, StarTags, empty_project, empty_project_json,
};
use spica_writer::timeline::TimelineEvent;

fn small_document() -> ProjectData {
    let scene = Scene {
        id: "s1".to_string(),
        name: "A \"quoted\" name\nwith a break".to_string(),
        setting: Some("harbor".to_string()),
        backstory: None,
        plan: ScenePlan {
            raw_text: "arrive, argue".to_string(),
            parsed_steps: vec![PlanStep {
                id: "ps".to_string(),
                text: "arrive".to_string(),
                fulfilled_by: vec!["t1".to_string()],
                linked_stars: Vec::new(),
            }],
        },
        draft_tab_ids: vec!["t1".to_string()],
        created_at: 5,
        updated_at: 6,
    };
    let tab = DraftTab {
        id: "t1".to_string(),
        scene_id: "s1".to_string(),
        index: 2,
        timeline: vec![
            TimelineEvent { text: "He waved.".to_string(), dialogue: None },
            TimelineEvent { text: "He said".to_string(), dialogue: Some("hello".to_string()) },
        ],
        descriptions: vec![Description {
            id: "d1".to_string(),
            text: "tense".to_string(),
            is_important: true,
            origin_star_id: None,
        }],
        summary: Some("a meeting".to_string()),
        fulfilled_plan_steps: vec!["p1".to_string()],
        suggested_plan_steps: Vec::new(),
        created_at: 7,
        updated_at: 8,
    };
    let star = Star {
        id: "st1".to_string(),
        title: "Twist".to_string(),
        body: "hidden motive".to_string(),
        tags: StarTags {
            characters: vec!["c1".to_string()],
            scope: StarScope::Backstory,
            status: StarStatus::Deferred,
            custom: vec!["noir".to_string()],
        },
        priority: "2.5".to_string(),
        is_checked: true,
        origin_draft_tab_id: Some("t1".to_string()),
        created_at: 9,
        last_used_in_prompt: Some(11),
    };
    let character = spica_writer::store::Character {
        id: "c1".to_string(),
        name: "Mara".to_string(),
        fields: vec![("age".to_string(), "31".to_string())],
    };
    let step = PlanStep {
        id: "p1".to_string(),
        text: "set sail".to_string(),
        fulfilled_by: vec!["t1".to_string()],
        linked_stars: vec!["st1".to_string()],
    };
    ProjectData {
        version: "1.0".to_string(),
        metadata: ProjectMetadata {
            title: "Voyage".to_string(),
            author: Some("A".to_string()),
            created_at: 10,
            updated_at: 20,
        },
        scenes: vec![("s1".to_string(), scene)],
        draft_tabs: vec![("t1".to_string(), tab)],
        stars: vec![("st1".to_string(), star)],
        characters: vec![("c1".to_string(), character)],
        plan_steps: vec![("p1".to_string(), step)],
        idea_bank: IdeaBank { stored_draft_tab_ids: vec!["t1".to_string()] },
        active_scene_id: Some("s1".to_string()),
    }
}

#[test]
fn document_json_is_valid_and_faithful() {
    let doc = small_document();
    let text = project_to_json(&doc);
    let v: serde_json::Value = serde_json::from_str(&text).unwrap();
    assert_eq!(v.get("version").unwrap().as_str().unwrap(), "1.0");
    assert_eq!(v.get("metadata").unwrap().get("title").unwrap().as_str().unwrap(), "Voyage");
    assert_eq!(v.get("metadata").unwrap().get("author").unwrap().as_str().unwrap(), "A");
    let scene = v.get("scenes").unwrap().get("s1").unwrap();
    assert_eq!(scene.get("name").unwrap().as_str().unwrap(), "A \"quoted\" name\nwith a break");
    assert_eq!(scene.get("setting").unwrap().as_str().unwrap(), "harbor");
    assert!(scene.get("backstory").unwrap().is_null());
    assert_eq!(
        scene.get("plan").unwrap().get("parsed_steps").unwrap().as_array().unwrap().len(),
        1
    );
    let tab = v.get("draft_tabs").unwrap().get("t1").unwrap();
    assert_eq!(tab.get("index").unwrap().as_u64().unwrap(), 2);
    let timeline = tab.get("timeline").unwrap().as_array().unwrap();
    assert_eq!(timeline.len(), 2);
    assert!(timeline[0].get("dialogue").unwrap().is_null());
    assert_eq!(timeline[1].get("dialogue").unwrap().as_str().unwrap(), "hello");
    let star = v.get("stars").unwrap().get("st1").unwrap();
    assert_eq!(star.get("priority").unwrap().as_f64().unwrap(), 2.5);
    assert_eq!(star.get("is_checked").unwrap().as_bool().unwrap(), true);
    assert_eq!(star.get("tags").unwrap().get("scope").unwrap().as_str().unwrap(), "Backstory");
    assert_eq!(star.get("tags").unwrap().get("status").unwrap().as_str().unwrap(), "Deferred");
    assert_eq!(star.get("last_used_in_prompt").unwrap().as_u64().unwrap(), 11);
    let character = v.get("characters").unwrap().get("c1").unwrap();
    assert_eq!(character.get("fields").unwrap().get("age").unwrap().as_str().unwrap(), "31");
    assert_eq!(
        v.get("idea_bank").unwrap().get("stored_draft_tab_ids").unwrap().as_array().unwrap().len(),
        1
    );
    assert_eq!(v.get("active_scene_id").unwrap().as_str().unwrap(), "s1");
}

#[test]
fn malformed_priority_text_is_written_as_zero() {
    let mut doc = small_document();
    doc.stars[0].1.priority = "not a number".to_string();
    let text = project_to_json(&doc);
    let v: serde_json::Value = serde_json::from_str(&text).unwrap();
    let star = v.get("stars").unwrap().get("st1").unwrap();
    assert_eq!(star.get("priority").unwrap().as_f64().unwrap(), 0.0);
}

#[test]
fn negative_and_integer_priorities_survive() {
    let mut doc = small_document();
    doc.stars[0].1.priority = "-3.25".to_string();
    let v: serde_json::Value = serde_json::from_str(&project_to_json(&doc)).unwrap();
    assert_eq!(
        v.get("stars").unwrap().get("st1").unwrap().get("priority").unwrap().as_f64().unwrap(),
        -3.25
    );
    doc.stars[0].1.priority = "7".to_string();
    let v: serde_json::Value = serde_json::from_str(&project_to_json(&doc)).unwrap();
    assert_eq!(
        v.get("stars").unwrap().get("st1").unwrap().get("priority").unwrap().as_u64().unwrap(),
        7
    );
}

#[test]
fn document_text_value_round_trips() {
    let text = project_to_json(&small_document());
    let v: serde_json::Value = serde_json::from_str(&text).unwrap();
    let again: serde_json::Value =
        serde_json::from_str(&serde_json::to_string(&v).unwrap()).unwrap();
    assert_eq!(v, again);
}

#[test]
fn empty_document_serializations_agree() {
    assert_eq!(empty_project_json(42), project_to_json(&empty_project(42)));
    assert_eq!(
        empty_project_json(18446744073709551615),
        project_to_json(&empty_project(18446744073709551615))
    );
}
