use devnotes::backend::Note;
use devnotes::display::{group_notes, note_body};
use devnotes::timestamp::Timestamp;

fn ts(day: u8, hour: u8) -> Timestamp {
    Timestamp::new(2024, 1, day, hour, 0, 0).expect("a real calendar instant")
}

fn note(id: &str, name: &str, content: &str, t: Timestamp) -> Note {
    Note::new(
        String::from(id),
        String::from("p"),
        String::from(name),
        String::from(content),
        t,
    )
}

#[test]
fn body_holds_the_guid_line_only_when_asked() {
    let n = note("n-1", "todo", "text", ts(1, 0));
    assert_eq!(note_body(&n, false), "text");
    assert_eq!(note_body(&n, true), "n-1\ntext");
}

#[test]
fn grouping_gathers_bodies_under_a_shared_header() {
    let notes = vec![
        note("a", "todo", "first", ts(1, 8)),
        note("b", "todo", "second", ts(1, 9)),
        note("c", "other", "third", ts(1, 10)),
    ];
    // without the time of day, the first two share a header
    let groups = group_notes(&notes, false, false);
    assert_eq!(groups.len(), 2);
    assert_eq!(groups[0].0, "todo|2024-01-01");
    assert_eq!(groups[0].1, vec![String::from("first"), String::from("second")]);
    assert_eq!(groups[1].0, "other|2024-01-01");
    assert_eq!(groups[1].1, vec![String::from("third")]);
}

#[test]
fn grouping_with_time_separates_the_stamps() {
    let notes = vec![
        note("a", "todo", "first", ts(1, 8)),
        note("b", "todo", "second", ts(1, 9)),
    ];
    let groups = group_notes(&notes, true, false);
    assert_eq!(groups.len(), 2);
    assert_eq!(groups[0].0, "todo|2024-01-01 08:00:00");
    assert_eq!(groups[1].0, "todo|2024-01-01 09:00:00");
}

#[test]
fn grouping_keeps_first_appearance_order_and_guid_lines() {
    let notes = vec![
        note("a", "x", "1", ts(1, 0)),
        note("b", "y", "2", ts(2, 0)),
        note("c", "x", "3", ts(1, 0)),
    ];
    let groups = group_notes(&notes, false, true);
    assert_eq!(groups.len(), 2);
    assert_eq!(groups[0].0, "x|2024-01-01");
    assert_eq!(groups[0].1, vec![String::from("a\n1"), String::from("c\n3")]);
    assert_eq!(groups[1].0, "y|2024-01-02");
    assert_eq!(groups[1].1, vec![String::from("b\n2")]);
}
