use devnotes::backend::{Note, Project};
use devnotes::error::RepoError;
use devnotes::store::{
    apply_filter, Initable, MemRepository, NoteRepository, ProjectRepository,
};
use devnotes::timestamp::Timestamp;

fn ts(day: u8) -> Timestamp {
    Timestamp::new(2024, 1, day, 10, 20, 30).expect("a real calendar instant")
}

fn note(id: &str, project: &str, name: &str, content: &str, t: Timestamp) -> Note {
    Note::new(
        String::from(id),
        String::from(project),
        String::from(name),
        String::from(content),
        t,
    )
}

#[test]
fn init_marks_the_repository_ready() {
    let mut repo = MemRepository::new();
    assert!(!repo.initialized());
    repo.init().expect("init never fails in memory");
    assert!(repo.initialized());
}

#[test]
fn create_tables_do_nothing_in_memory() {
    let mut repo = MemRepository::new();
    repo.create_proj_table().expect("no table to create");
    repo.create_note_table().expect("no table to create");
    assert_eq!(repo.list_note().expect("listable").len(), 0);
    assert_eq!(repo.list_project().expect("listable").len(), 0);
}

#[test]
fn insert_note_appends_a_fresh_guid() {
    let mut repo = MemRepository::new();
    repo.insert_note(note("a", "p", "one", "first", ts(1))).expect("stored");
    repo.insert_note(note("b", "p", "two", "second", ts(2))).expect("stored");
    let all = repo.list_note().expect("listable");
    assert_eq!(all.len(), 2);
    assert_eq!(all[0].guid(), "a");
    assert_eq!(all[1].guid(), "b");
}

#[test]
fn insert_note_upserts_an_existing_guid() {
    let mut repo = MemRepository::new();
    repo.insert_note(note("a", "p", "one", "first", ts(1))).expect("stored");
    repo.insert_note(note("b", "p", "two", "second", ts(2))).expect("stored");
    repo.insert_note(note("a", "other", "renamed", "rewritten", ts(3))).expect("stored");
    let all = repo.list_note().expect("listable");
    assert_eq!(all.len(), 2);
    // content and timestamp change in place; project, name and order stay
    assert_eq!(all[0].guid(), "a");
    assert_eq!(all[0].project_id(), "p");
    assert_eq!(all[0].name(), "one");
    assert_eq!(all[0].content(), "rewritten");
    assert_eq!(all[0].ts(), ts(3));
    assert_eq!(all[1].content(), "second");
}

#[test]
fn remove_note_reports_how_many_rows_went() {
    let mut repo = MemRepository::new();
    repo.insert_note(note("a", "p", "", "first", ts(1))).expect("stored");
    assert_eq!(repo.remove_note(String::from("a")).expect("counted"), 1);
    assert_eq!(repo.remove_note(String::from("a")).expect("counted"), 0);
    assert_eq!(repo.list_note().expect("listable").len(), 0);
}

#[test]
fn get_note_finds_exactly_the_stored_key() {
    let mut repo = MemRepository::new();
    repo.insert_note(note("a", "p", "one", "first", ts(1))).expect("stored");
    let n = repo.get_note(String::from("a")).expect("present");
    assert_eq!(n.content(), "first");
    assert_eq!(repo.get_note(String::from("b")).unwrap_err(), RepoError::NotFound);
}

#[test]
fn update_note_rewrites_text_and_project() {
    let mut repo = MemRepository::new();
    repo.insert_note(note("a", "p", "one", "first", ts(1))).expect("stored");
    let count = repo
        .update_note(String::from("a"), String::from("new text"), String::from("q"))
        .expect("counted");
    assert_eq!(count, 1);
    let n = repo.get_note(String::from("a")).expect("present");
    assert_eq!(n.content(), "new text");
    assert_eq!(n.project_id(), "q");
    assert_eq!(n.name(), "one");
    assert_eq!(n.ts(), ts(1));
    let missed = repo
        .update_note(String::from("zz"), String::from("x"), String::from("q"))
        .expect("counted");
    assert_eq!(missed, 0);
}

#[test]
fn list_note_with_filter_keeps_order() {
    let mut repo = MemRepository::new();
    repo.insert_note(note("a1", "p", "", "x", ts(1))).expect("stored");
    repo.insert_note(note("b1", "q", "", "y", ts(2))).expect("stored");
    repo.insert_note(note("a2", "p", "", "z", ts(3))).expect("stored");
    let kept = repo
        .list_note_with_filter(|n: &Note| n.project_id() == "p")
        .expect("listable");
    assert_eq!(kept.len(), 2);
    assert_eq!(kept[0].guid(), "a1");
    assert_eq!(kept[1].guid(), "a2");
}

#[test]
fn insert_project_refuses_a_taken_name_or_guid() {
    let mut repo = MemRepository::new();
    repo.insert_project(Project::new(String::from("g1"), String::from("work"), ts(1)))
        .expect("stored");
    let dup_name = repo.insert_project(Project::new(String::from("g2"), String::from("work"), ts(2)));
    assert_eq!(dup_name.unwrap_err(), RepoError::Conflict);
    let dup_id = repo.insert_project(Project::new(String::from("g1"), String::from("other"), ts(2)));
    assert_eq!(dup_id.unwrap_err(), RepoError::Conflict);
    assert_eq!(repo.list_project().expect("listable").len(), 1);
}

#[test]
fn remove_and_get_project_mirror_the_note_calls() {
    let mut repo = MemRepository::new();
    repo.insert_project(Project::new(String::from("g1"), String::from("work"), ts(1)))
        .expect("stored");
    let p = repo.get_project(String::from("g1")).expect("present");
    assert_eq!(p.name(), "work");
    assert_eq!(repo.get_project(String::from("g2")).unwrap_err(), RepoError::NotFound);
    assert_eq!(repo.remove_project(String::from("g1")).expect("counted"), 1);
    assert_eq!(repo.remove_project(String::from("g1")).expect("counted"), 0);
}

#[test]
fn list_project_with_filter_applies_the_predicate() {
    let mut repo = MemRepository::new();
    repo.insert_project(Project::new(String::from("g1"), String::from("work"), ts(1)))
        .expect("stored");
    repo.insert_project(Project::new(String::from("g2"), String::from("home"), ts(2)))
        .expect("stored");
    let kept = repo
        .list_project_with_filter(|p: &Project| p.name() == "home")
        .expect("listable");
    assert_eq!(kept.len(), 1);
    assert_eq!(kept[0].guid(), "g2");
}

#[test]
fn apply_filter_keeps_matching_items_in_order() {
    let items = vec![
        note("a", "p", "", "1", ts(1)),
        note("b", "q", "", "2", ts(2)),
        note("c", "p", "", "3", ts(3)),
    ];
    let kept = apply_filter(|n: &Note| n.project_id() == "p", items);
    assert_eq!(kept.len(), 2);
    assert_eq!(kept[0].guid(), "a");
    assert_eq!(kept[1].guid(), "c");
}
