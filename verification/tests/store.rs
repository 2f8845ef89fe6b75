use mongodb::bson::Bson;
use quest_tasks::completion::CompletionRecord;
use quest_tasks::error::QuestError;
use quest_tasks::get_tasks::{GetTasksQuery, TaskListing};
use quest_tasks::store::{RecordOutcome, TaskStore};
use quest_tasks::task::{next_id_after, twitter_rw_task, CreateTwitterRw, Task, TaskPatch};
use quest_tasks::update_doc::set_document;

fn draft(quest_id: u32, name: &str) -> Task {
    Task {
        id: 0,
        quest_id,
        name: name.to_string(),
        desc: "d".to_string(),
        cta: "c".to_string(),
        href: "h".to_string(),
        verify_endpoint: "e".to_string(),
        verify_endpoint_type: "default".to_string(),
        verify_redirect: Some("r".to_string()),
        task_type: None,
        discord_guild_id: Some("guild".to_string()),
        quiz_name: None,
    }
}

#[test]
fn created_ids_start_at_one_and_increase() {
    let mut store = TaskStore::new();
    assert_eq!(store.next_task_id(), Some(1));
    let a = store.create_task(draft(7, "a")).unwrap();
    let b = store.create_task(draft(7, "b")).unwrap();
    let c = store.create_task(draft(8, "c")).unwrap();
    assert_eq!((a, b, c), (1, 2, 3));
    assert_eq!(store.next_task_id(), Some(4));
    assert_eq!(store.task_count(), 3);
    assert_eq!(store.find_task(2).unwrap().name, "b");
}

#[test]
fn create_ignores_the_id_of_the_draft() {
    let mut store = TaskStore::new();
    let mut d = draft(7, "a");
    d.id = 40;
    assert_eq!(store.create_task(d).unwrap(), 1);
    assert!(store.find_task(40).is_none());
    assert_eq!(store.find_task(1).unwrap().id, 1);
}

#[test]
fn next_id_follows_the_greatest_id() {
    assert_eq!(next_id_after(None), Some(1));
    assert_eq!(next_id_after(Some(4)), Some(5));
    assert_eq!(next_id_after(Some(u32::MAX - 1)), Some(u32::MAX));
    assert_eq!(next_id_after(Some(u32::MAX)), None);
}

#[test]
fn create_fails_when_ids_are_exhausted() {
    let mut last = draft(7, "last");
    last.id = u32::MAX;
    let mut store = TaskStore::from_parts(vec![last], Vec::new()).unwrap();
    assert_eq!(store.next_task_id(), None);
    let out = store.create_task(draft(7, "more"));
    assert!(matches!(out, Err(QuestError::IdSpaceExhausted)));
    assert_eq!(store.task_count(), 1);
}

#[test]
fn from_parts_checks_the_invariant() {
    let mut a = draft(1, "a");
    a.id = 2;
    let mut b = draft(1, "b");
    b.id = 2;
    assert!(TaskStore::from_parts(vec![a, b], Vec::new()).is_none());
    let mut z = draft(1, "z");
    z.id = 0;
    assert!(TaskStore::from_parts(vec![z], Vec::new()).is_none());
    let twice = vec![
        CompletionRecord { task_id: 1, address: "abc".to_string() },
        CompletionRecord { task_id: 2, address: "abc".to_string() },
        CompletionRecord { task_id: 1, address: "abc".to_string() },
    ];
    assert!(TaskStore::from_parts(Vec::new(), twice).is_none());
    let mut c = draft(1, "c");
    c.id = 3;
    let mut d = draft(1, "d");
    d.id = 9;
    let ok = TaskStore::from_parts(
        vec![c, d],
        vec![
            CompletionRecord { task_id: 1, address: "abc".to_string() },
            CompletionRecord { task_id: 1, address: "abd".to_string() },
        ],
    )
    .unwrap();
    assert_eq!(ok.task_count(), 2);
    assert_eq!(ok.record_count(), 2);
    assert_eq!(ok.next_task_id(), Some(10));
}

#[test]
fn recording_twice_leaves_one_record() {
    let mut store = TaskStore::new();
    assert!(!store.has_completion(3, "abc"));
    assert_eq!(store.record_completion(3, "abc"), RecordOutcome::Recorded);
    assert_eq!(store.record_completion(3, "abc"), RecordOutcome::AlreadyRecorded);
    assert_eq!(store.record_count(), 1);
    assert!(store.has_completion(3, "abc"));
    assert!(!store.has_completion(3, "abd"));
    assert!(!store.has_completion(4, "abc"));
    assert_eq!(store.record_completion(4, "abc"), RecordOutcome::Recorded);
    assert_eq!(store.record_count(), 2);
}

#[test]
fn update_name_round_trip() {
    let mut store = TaskStore::new();
    store.create_task(draft(7, "a")).unwrap();
    let id = store.create_task(draft(7, "b")).unwrap();
    let before = store.find_task(id).unwrap();
    let mut patch = TaskPatch::new(id);
    patch.name = Some("X".to_string());
    assert!(store.update_task(&patch).is_ok());
    let after = store.find_task(id).unwrap();
    assert_eq!(after.name, "X");
    assert_eq!(after.id, before.id);
    assert_eq!(after.quest_id, before.quest_id);
    assert_eq!(after.desc, before.desc);
    assert_eq!(after.cta, before.cta);
    assert_eq!(after.href, before.href);
    assert_eq!(after.verify_endpoint, before.verify_endpoint);
    assert_eq!(after.verify_endpoint_type, before.verify_endpoint_type);
    assert_eq!(after.verify_redirect, before.verify_redirect);
    assert_eq!(after.task_type, before.task_type);
    assert_eq!(after.discord_guild_id, before.discord_guild_id);
    assert_eq!(after.quiz_name, before.quiz_name);
    assert_eq!(store.find_task(1).unwrap().name, "a");
}

#[test]
fn update_replaces_every_given_field() {
    let mut store = TaskStore::new();
    let id = store.create_task(draft(7, "a")).unwrap();
    let patch = TaskPatch {
        id,
        name: Some("n".to_string()),
        desc: Some("dd".to_string()),
        cta: Some("cc".to_string()),
        verify_endpoint: Some("ee".to_string()),
        verify_endpoint_type: Some("tt".to_string()),
        verify_redirect: Some("rr".to_string()),
        href: Some("hh".to_string()),
    };
    store.update_task(&patch).unwrap();
    let t = store.find_task(id).unwrap();
    assert_eq!(t.name, "n");
    assert_eq!(t.desc, "dd");
    assert_eq!(t.cta, "cc");
    assert_eq!(t.verify_endpoint, "ee");
    assert_eq!(t.verify_endpoint_type, "tt");
    assert_eq!(t.verify_redirect, Some("rr".to_string()));
    assert_eq!(t.href, "hh");
    assert_eq!(t.quest_id, 7);
}

#[test]
fn update_of_unknown_task_is_not_found() {
    let mut store = TaskStore::new();
    store.create_task(draft(7, "a")).unwrap();
    let mut patch = TaskPatch::new(5);
    patch.name = Some("X".to_string());
    assert!(matches!(store.update_task(&patch), Err(QuestError::NotFound)));
    assert_eq!(store.find_task(1).unwrap().name, "a");
}

#[test]
fn apply_leaves_absent_fields() {
    let mut t = draft(7, "a");
    t.apply(&TaskPatch::new(0));
    assert_eq!(t.name, "a");
    assert_eq!(t.verify_redirect, Some("r".to_string()));
}

#[test]
fn tasks_by_quest_come_in_id_order() {
    let mut store = TaskStore::new();
    store.create_task(draft(7, "a")).unwrap();
    store.create_task(draft(8, "b")).unwrap();
    store.create_task(draft(7, "c")).unwrap();
    let found = store.find_tasks_by_quest(7);
    let ids: Vec<u32> = found.iter().map(|t| t.id).collect();
    assert_eq!(ids, vec![1, 3]);
    assert!(store.find_tasks_by_quest(9).is_empty());
}

#[test]
fn store_lists_with_completion_state() {
    let mut store = TaskStore::new();
    store.create_task(draft(7, "a")).unwrap();
    store.create_task(draft(7, "b")).unwrap();
    store.record_completion(2, "abc");
    let q = GetTasksQuery { quest_id: 7, addr: "abc".to_string() };
    match store.list(&q) {
        TaskListing::Tasks(rows) => {
            assert_eq!(rows.len(), 2);
            assert!(!rows[0].completed);
            assert!(rows[1].completed);
        }
        other => panic!("expected tasks, got {:?}", other),
    }
    let none = GetTasksQuery { quest_id: 1, addr: "abc".to_string() };
    assert!(matches!(store.list(&none), TaskListing::NoTasks(_)));
}

#[test]
fn assignments_follow_the_patch() {
    let mut patch = TaskPatch::new(3);
    assert!(patch.assignments().is_empty());
    patch.verify_endpoint_type = Some("default".to_string());
    patch.name = Some("X".to_string());
    patch.href = Some("H".to_string());
    let got = patch.assignments();
    let want = vec![
        ("name".to_string(), "X".to_string()),
        ("href".to_string(), "H".to_string()),
        ("verify_endpoint_type".to_string(), "default".to_string()),
    ];
    assert_eq!(got, want);
    let full = TaskPatch {
        id: 1,
        name: Some("1".to_string()),
        desc: Some("2".to_string()),
        cta: Some("4".to_string()),
        verify_endpoint: Some("6".to_string()),
        verify_endpoint_type: Some("7".to_string()),
        verify_redirect: Some("5".to_string()),
        href: Some("3".to_string()),
    };
    let fields: Vec<String> = full.assignments().into_iter().map(|p| p.0).collect();
    assert_eq!(
        fields,
        vec!["name", "desc", "href", "cta", "verify_redirect", "verify_endpoint", "verify_endpoint_type"]
    );
    let values: Vec<String> = full.assignments().into_iter().map(|p| p.1).collect();
    assert_eq!(values, vec!["1", "2", "3", "4", "5", "6", "7"]);
}

#[test]
fn set_document_holds_the_given_fields_only() {
    let mut patch = TaskPatch::new(3);
    assert!(set_document(&patch).is_empty());
    patch.name = Some("X".to_string());
    patch.cta = Some("Go".to_string());
    let doc = set_document(&patch);
    assert_eq!(doc.len(), 2);
    assert_eq!(doc.get_str("name"), Ok("X"));
    assert_eq!(doc.get("cta"), Some(&Bson::String("Go".to_string())));
    assert!(doc.get("desc").is_none());
    assert!(doc.get("id").is_none());
}

#[test]
fn twitter_task_has_its_defaults() {
    let body = CreateTwitterRw {
        name: "Retweet us".to_string(),
        desc: "Retweet the post".to_string(),
        post_link: "https://x.example/post/1".to_string(),
        quest_id: 12,
    };
    let t = twitter_rw_task(&body, 5);
    assert_eq!(t.id, 5);
    assert_eq!(t.quest_id, 12);
    assert_eq!(t.name, "Retweet us");
    assert_eq!(t.desc, "Retweet the post");
    assert_eq!(t.href, "https://x.example/post/1");
    assert_eq!(t.verify_redirect, Some("https://x.example/post/1".to_string()));
    assert_eq!(t.verify_endpoint, "quests/verify_twitter_rw");
    assert_eq!(t.verify_endpoint_type, "default");
    assert_eq!(t.task_type, Some("twitter_rw".to_string()));
    assert_eq!(t.cta, "Retweet");
    assert_eq!(t.discord_guild_id, None);
    assert_eq!(t.quiz_name, None);
}
