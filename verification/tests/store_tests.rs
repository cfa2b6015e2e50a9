use spica_writer::store::{
    Description, DraftTab, IdeaBank, PlanStep, ProjectData, Scene, ScenePlan, Star, StarScope,
    StarStatus, StarTags, StoreError, default_project_dir, default_project_path, empty_project,
    empty_project_json, fresh_empty_project, picked_save_path, read_outcome, repair,
    resolve_target_path, write_outcome,
};

#[test]
fn empty_project_has_everything_empty() {
    let d = empty_project(123);
    assert_eq!(d.version, "1.0");
    assert_eq!(d.metadata.title, "New Project");
    assert!(d.metadata.author.is_none());
    assert_eq!(d.metadata.created_at, 123);
    assert_eq!(d.metadata.updated_at, 123);
    assert!(d.scenes.is_empty());
    assert!(d.draft_tabs.is_empty());
    assert!(d.stars.is_empty());
    assert!(d.characters.is_empty());
    assert!(d.plan_steps.is_empty());
    assert!(d.idea_bank.stored_draft_tab_ids.is_empty());
    assert!(d.active_scene_id.is_none());
}

#[test]
fn empty_project_json_is_valid_and_matches() {
    let s = empty_project_json(1734567890123);
    let v: serde_json::Value = serde_json::from_str(&s).unwrap();
    assert_eq!(v.get("version").unwrap().as_str().unwrap(), "1.0");
    let meta = v.get("metadata").unwrap();
    assert_eq!(meta.get("title").unwrap().as_str().unwrap(), "New Project");
    assert!(meta.get("author").unwrap().is_null());
    assert_eq!(meta.get("created_at").unwrap().as_u64().unwrap(), 1734567890123);
    assert_eq!(meta.get("updated_at").unwrap().as_u64().unwrap(), 1734567890123);
    for field in ["scenes", "draft_tabs", "stars", "characters", "plan_steps"] {
        let m = v.get(field).unwrap().as_object().unwrap();
        assert!(m.is_empty());
    }
    let bank = v.get("idea_bank").unwrap().get("stored_draft_tab_ids").unwrap();
    assert!(bank.as_array().unwrap().is_empty());
    assert!(v.get("active_scene_id").unwrap().is_null());
    // The text survives a decode / re-encode round trip unchanged in value.
    let again: serde_json::Value = serde_json::from_str(&serde_json::to_string(&v).unwrap()).unwrap();
    assert_eq!(v, again);
}

#[test]
fn empty_project_json_zero_timestamp() {
    let s = empty_project_json(0);
    assert!(s.contains("\"created_at\":0,"));
    let v: serde_json::Value = serde_json::from_str(&s).unwrap();
    assert_eq!(v.get("metadata").unwrap().get("created_at").unwrap().as_u64().unwrap(), 0);
}

#[test]
fn default_paths() {
    assert_eq!(default_project_dir("/home/u"), "/home/u/Documents/SpicaWriter");
    assert_eq!(
        default_project_path("/home/u"),
        "/home/u/Documents/SpicaWriter/last_project.json"
    );
}

#[test]
fn resolve_target_path_prefers_explicit_choice() {
    assert_eq!(
        resolve_target_path(None, "/home/u"),
        "/home/u/Documents/SpicaWriter/last_project.json"
    );
    assert_eq!(
        resolve_target_path(Some("/tmp/other.json".to_string()), "/home/u"),
        "/tmp/other.json"
    );
}

#[test]
fn read_failure_is_load_error_naming_the_path() {
    match read_outcome("/p/q.json", Err("permission denied".to_string())) {
        Err(StoreError::LoadError { path, detail }) => {
            assert_eq!(path, "/p/q.json");
            assert_eq!(detail, "permission denied");
        }
        other => panic!("expected a load error, got {:?}", other),
    }
    assert_eq!(read_outcome("/p/q.json", Ok("{}".to_string())).unwrap(), "{}");
}

#[test]
fn write_failure_is_save_error_naming_the_path() {
    match write_outcome("/readonly/out.json", Err("read-only file system".to_string())) {
        Err(StoreError::SaveError { path, detail }) => {
            assert_eq!(path, "/readonly/out.json");
            assert_eq!(detail, "read-only file system");
        }
        other => panic!("expected a save error, got {:?}", other),
    }
    assert!(write_outcome("/ok.json", Ok(())).is_ok());
}

#[test]
fn cancelled_picker_is_distinct_outcome() {
    assert_eq!(picked_save_path(None), Err(StoreError::Cancelled));
    assert_eq!(picked_save_path(Some("/a.json".to_string())).unwrap(), "/a.json");
}

#[test]
fn fresh_document_is_empty_and_stamped_once() {
    let d = fresh_empty_project();
    assert_eq!(d.version, "1.0");
    assert_eq!(d.metadata.created_at, d.metadata.updated_at);
    assert!(d.scenes.is_empty());
    assert!(d.active_scene_id.is_none());
}

fn sample_tab(id: &str, scene: &str) -> DraftTab {
    DraftTab {
        id: id.to_string(),
        scene_id: scene.to_string(),
        index: 0,
        timeline: Vec::new(),
        descriptions: vec![Description {
            id: "d1".to_string(),
            text: "a note".to_string(),
            is_important: false,
            origin_star_id: Some("missing-star".to_string()),
        }],
        summary: None,
        fulfilled_plan_steps: vec!["p1".to_string(), "missing-step".to_string()],
        suggested_plan_steps: vec!["missing-step".to_string()],
        created_at: 1,
        updated_at: 2,
    }
}

fn dangling_document() -> ProjectData {
    let scene = Scene {
        id: "s1".to_string(),
        name: "Opening".to_string(),
        setting: Some("a harbor".to_string()),
        backstory: None,
        plan: ScenePlan {
            raw_text: "beats".to_string(),
            parsed_steps: vec![PlanStep {
                id: "p-embedded".to_string(),
                text: "arrive".to_string(),
                fulfilled_by: vec!["t1".to_string(), "missing-tab".to_string()],
                linked_stars: vec!["missing-star".to_string()],
            }],
        },
        draft_tab_ids: vec!["t1".to_string(), "missing-tab".to_string()],
        created_at: 1,
        updated_at: 2,
    };
    let star = Star {
        id: "st1".to_string(),
        title: "Twist".to_string(),
        body: "the captain lied".to_string(),
        tags: StarTags {
            characters: vec!["c1".to_string(), "missing-character".to_string()],
            scope: StarScope::FuturePlot,
            status: StarStatus::Active,
            custom: vec!["mystery".to_string()],
        },
        priority: "2.5".to_string(),
        is_checked: false,
        origin_draft_tab_id: Some("missing-tab".to_string()),
        created_at: 3,
        last_used_in_prompt: None,
    };
    let character = spica_writer::store::Character {
        id: "c1".to_string(),
        name: "Mara".to_string(),
        fields: vec![("age".to_string(), "31".to_string())],
    };
    let step = PlanStep {
        id: "p1".to_string(),
        text: "set sail".to_string(),
        fulfilled_by: vec!["missing-tab".to_string(), "t1".to_string()],
        linked_stars: vec!["st1".to_string(), "missing-star".to_string()],
    };
    ProjectData {
        version: "1.0".to_string(),
        metadata: spica_writer::store::ProjectMetadata {
            title: "Voyage".to_string(),
            author: Some("A".to_string()),
            created_at: 10,
            updated_at: 20,
        },
        scenes: vec![("s1".to_string(), scene)],
        draft_tabs: vec![("t1".to_string(), sample_tab("t1", "s1"))],
        stars: vec![("st1".to_string(), star)],
        characters: vec![("c1".to_string(), character)],
        plan_steps: vec![("p1".to_string(), step)],
        idea_bank: IdeaBank {
            stored_draft_tab_ids: vec!["missing-tab".to_string(), "t1".to_string()],
        },
        active_scene_id: Some("missing-scene".to_string()),
    }
}

#[test]
fn repair_drops_dangling_references_and_keeps_the_rest() {
    let r = repair(dangling_document());
    assert_eq!(r.version, "1.0");
    assert_eq!(r.metadata.title, "Voyage");
    let scene = &r.scenes[0].1;
    assert_eq!(scene.draft_tab_ids, vec!["t1".to_string()]);
    assert_eq!(scene.plan.parsed_steps[0].fulfilled_by, vec!["t1".to_string()]);
    assert!(scene.plan.parsed_steps[0].linked_stars.is_empty());
    assert_eq!(scene.name, "Opening");
    let tab = &r.draft_tabs[0].1;
    assert_eq!(tab.fulfilled_plan_steps, vec!["p1".to_string()]);
    assert!(tab.suggested_plan_steps.is_empty());
    assert!(tab.descriptions[0].origin_star_id.is_none());
    assert_eq!(tab.descriptions[0].text, "a note");
    let star = &r.stars[0].1;
    assert_eq!(star.tags.characters, vec!["c1".to_string()]);
    assert!(star.origin_draft_tab_id.is_none());
    assert_eq!(star.priority, "2.5");
    assert_eq!(star.tags.custom, vec!["mystery".to_string()]);
    let step = &r.plan_steps[0].1;
    assert_eq!(step.fulfilled_by, vec!["t1".to_string()]);
    assert_eq!(step.linked_stars, vec!["st1".to_string()]);
    assert_eq!(r.characters[0].1.name, "Mara");
    assert_eq!(r.idea_bank.stored_draft_tab_ids, vec!["t1".to_string()]);
    assert!(r.active_scene_id.is_none());
}

#[test]
fn repair_keeps_a_closed_document_unchanged() {
    let mut d = dangling_document();
    d = repair(d);
    let again = repair(d.clone());
    assert_eq!(d, again);
}
