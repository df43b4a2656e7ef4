use devnotes::backend::{Note, Project};
use devnotes::config::Config;
use devnotes::timestamp::Timestamp;

fn ts(year: u16, month: u8, day: u8, hour: u8, minute: u8, second: u8) -> Timestamp {
    Timestamp::new(year, month, day, hour, minute, second).expect("a real calendar instant")
}

fn note(id: &str, project: &str, name: &str, content: &str, t: Timestamp) -> Note {
    Note::new(
        String::from(id),
        String::from(project),
        String::from(name),
        String::from(content),
        t,
    )
}

#[test]
fn project_getters_hand_the_fields_back() {
    let t = ts(2024, 5, 6, 7, 8, 9);
    let p = Project::new(String::from("g-1"), String::from("work"), t);
    assert_eq!(p.guid(), "g-1");
    assert_eq!(p.name(), "work");
    assert_eq!(p.ts(), t);
}

#[test]
fn note_getters_hand_the_fields_back() {
    let t = ts(2024, 5, 6, 7, 8, 9);
    let n = note("n-1", "g-1", "todo", "buy milk", t);
    assert_eq!(n.guid(), "n-1");
    assert_eq!(n.project_id(), "g-1");
    assert_eq!(n.name(), "todo");
    assert_eq!(n.content(), "buy milk");
    assert_eq!(n.ts(), t);
}

#[test]
fn print_shows_name_date_and_content() {
    let t = ts(2024, 5, 6, 7, 8, 9);
    let n = note("n-1", "g-1", "todo", "buy milk", t);
    let cfg = Config::new(String::new(), String::new(), false, false, false);
    assert_eq!(
        n.get_print(&cfg, false),
        "todo|2024-05-06\nbuy milk\n====================================="
    );
}

#[test]
fn print_with_time_and_guid_line() {
    let t = ts(2024, 5, 6, 7, 8, 9);
    let n = note("n-1", "g-1", "todo", "buy milk", t);
    let cfg = Config::new(String::new(), String::new(), true, false, false);
    assert_eq!(
        n.get_print(&cfg, true),
        "n-1\ntodo|2024-05-06 07:08:09\nbuy milk\n====================================="
    );
}

#[test]
fn print_of_a_nameless_empty_note() {
    let t = ts(2024, 5, 6, 7, 8, 9);
    let n = note("n-1", "g-1", "", "", t);
    let cfg = Config::new(String::new(), String::new(), false, false, false);
    assert_eq!(
        n.get_print(&cfg, false),
        "2024-05-06\n<EMPTY>\n====================================="
    );
}

#[test]
fn note_header_carries_no_mark_without_a_name() {
    let t = ts(2024, 5, 6, 7, 8, 9);
    let n = note("n-1", "g-1", "", "x", t);
    assert_eq!(n.note_header(false), "2024-05-06");
    let m = note("n-2", "g-1", "todo", "x", t);
    assert_eq!(m.note_header(true), "todo|2024-05-06 07:08:09");
}
