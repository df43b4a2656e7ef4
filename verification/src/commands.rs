//! What the subcommands compute: guid-prefix lookup, the predicates the
//! listings filter with, the choice of editor, and the text either
//! editor exchanges with its caller.

use vstd::prelude::*;
use vstd::string::StrSliceExecFns;
use vstd::string::StringExecFns;

use crate::backend::{Note, Project};
use crate::config::{string_optional, Config};
use crate::error::RepoError;
use crate::store::{apply_filter, mask_filter};
use crate::timestamp::{datetime_chars, format_datetime, Timestamp};
use std::path::PathBuf;

verus! {

/// Relies on std::path::PathBuf only as an opaque value: the library
/// stores and hands back paths, never reads them.
#[verifier::external_type_specification]
#[verifier::external_body]
pub struct ExPathBuf(PathBuf);

/// Relies on std::path::PathBuf's Clone: the duplicate is the same path.
pub assume_specification[ <PathBuf as Clone>::clone ](path: &PathBuf) -> (r: PathBuf)
    ensures
        r == *path,
;

/// Whether `p` is a prefix of `s`, character by character.
pub fn str_starts_with(s: &str, p: &str) -> (r: bool)
    ensures
        r == p@.is_prefix_of(s@),
{
    let p_len = p.unicode_len();
    let s_len = s.unicode_len();
    if p_len > s_len {
        return false;
    }
    let mut i: usize = 0;
    while i < p_len
        invariant
            i <= p_len,
            p_len == p@.len(),
            p_len <= s@.len(),
            forall|k: int| 0 <= k < i ==> s@[k] == p@[k],
        decreases p_len - i,
    {
        if s.get_char(i) != p.get_char(i) {
            proof {
                assert(s@.subrange(0, p@.len() as int)[i as int] != p@[i as int]);
            }
            return false;
        }
        i = i + 1;
    }
    proof {
        assert(s@.subrange(0, p@.len() as int) =~= p@);
    }
    true
}

/// Accepts exactly one match: none means the prefix names nothing, and
/// several mean it does not pin a note down.
pub fn check_guid_prefix_match(notes: &Vec<Note>) -> (r: Result<(), RepoError>)
    ensures
        notes@.len() == 0 ==> r == Err::<(), RepoError>(RepoError::NotFound),
        notes@.len() == 1 ==> r is Ok,
        notes@.len() > 1 ==> r == Err::<(), RepoError>(RepoError::AmbiguousPrefix),
{
    if notes.len() == 0 {
        Err(RepoError::NotFound)
    } else if notes.len() == 1 {
        Ok(())
    } else {
        Err(RepoError::AmbiguousPrefix)
    }
}

/// Whether the guid of `it` begins with `name`.
pub fn match_guid_prefix(name: &String, it: &Note) -> (r: bool)
    ensures
        r == name@.is_prefix_of(it@.id),
{
    str_starts_with(it.guid().as_str(), name.as_str())
}

/// Whether the project `it` is named exactly `name`.
pub fn match_name(name: &String, it: &Project) -> (r: bool)
    ensures
        r == (it@.name == name@),
{
    *it.name() == *name
}

/// Whether the note `it` belongs to the project `proj_id`.
pub fn match_project_id(proj_id: &String, it: &Note) -> (r: bool)
    ensures
        r == (it@.project_id == proj_id@),
{
    *it.project_id() == *proj_id
}

/// The notes whose guid begins with `name`, in their given order.
pub fn filter_notes_by_guid_prefix(items: Vec<Note>, name: &String) -> (r: Vec<Note>)
    ensures
        r@ == items@.filter(|n: Note| name@.is_prefix_of(n@.id)),
{
    let ghost items_snapshot = items@;
    let f = |it: &Note| -> (r: bool)
        ensures
            r == name@.is_prefix_of(it@.id),
        { match_guid_prefix(name, it) };
    let out = apply_filter(f, items);
    proof {
        let keep = choose|keep: Seq<bool>|
            {
                &&& keep.len() == items_snapshot.len()
                &&& (forall|i: int|
                    0 <= i < keep.len() ==> call_ensures(f, (&items_snapshot[i],), #[trigger] keep[i]))
                &&& out@ == mask_filter(items_snapshot, keep)
            };
        assert(forall|i: int|
            0 <= i < keep.len() ==> #[trigger] keep[i] == name@.is_prefix_of(
                items_snapshot[i]@.id,
            ));
        crate::store::lemma_mask_filter_matches(
            items_snapshot,
            keep,
            |n: Note| name@.is_prefix_of(n@.id),
        );
    }
    out
}

/// The projects named exactly `name`, in their given order.
pub fn filter_projects_by_name(items: Vec<Project>, name: &String) -> (r: Vec<Project>)
    ensures
        r@ == items@.filter(|p: Project| p@.name == name@),
{
    let ghost items_snapshot = items@;
    let f = |it: &Project| -> (r: bool)
        ensures
            r == (it@.name == name@),
        { match_name(name, it) };
    let out = apply_filter(f, items);
    proof {
        let keep = choose|keep: Seq<bool>|
            {
                &&& keep.len() == items_snapshot.len()
                &&& (forall|i: int|
                    0 <= i < keep.len() ==> call_ensures(f, (&items_snapshot[i],), #[trigger] keep[i]))
                &&& out@ == mask_filter(items_snapshot, keep)
            };
        assert(forall|i: int|
            0 <= i < keep.len() ==> #[trigger] keep[i] == (items_snapshot[i]@.name == name@));
        crate::store::lemma_mask_filter_matches(
            items_snapshot,
            keep,
            |p: Project| p@.name == name@,
        );
    }
    out
}

/// The notes that belong to the project `proj_id`, in their given order.
pub fn filter_notes_by_project_id(items: Vec<Note>, proj_id: &String) -> (r: Vec<Note>)
    ensures
        r@ == items@.filter(|n: Note| n@.project_id == proj_id@),
{
    let ghost items_snapshot = items@;
    let f = |it: &Note| -> (r: bool)
        ensures
            r == (it@.project_id == proj_id@),
        { match_project_id(proj_id, it) };
    let out = apply_filter(f, items);
    proof {
        let keep = choose|keep: Seq<bool>|
            {
                &&& keep.len() == items_snapshot.len()
                &&& (forall|i: int|
                    0 <= i < keep.len() ==> call_ensures(f, (&items_snapshot[i],), #[trigger] keep[i]))
                &&& out@ == mask_filter(items_snapshot, keep)
            };
        assert(forall|i: int|
            0 <= i < keep.len() ==> #[trigger] keep[i] == (items_snapshot[i]@.project_id
                == proj_id@));
        crate::store::lemma_mask_filter_matches(
            items_snapshot,
            keep,
            |n: Note| n@.project_id == proj_id@,
        );
    }
    out
}

/// A prefix as long as a note's whole guid matches only by equality.
proof fn lemma_full_length_prefix_is_equality(id: Seq<char>, other: Seq<char>)
    requires
        other.len() == id.len(),
    ensures
        id.is_prefix_of(other) <==> other == id,
{
    if id.is_prefix_of(other) {
        assert(other.subrange(0, id.len() as int) =~= other);
    } else if other == id {
        assert(id.subrange(0, id.len() as int) =~= id);
    }
}

/// A whole guid pins one note down: among notes with unique guids of one
/// length, filtering by a guid that one of them carries keeps exactly
/// that note, and filtering by one that none carries keeps nothing.
pub proof fn lemma_full_guid_pins_one_note(notes: Seq<Note>, id: Seq<char>)
    requires
        crate::store::unique_note_ids(notes),
        forall|i: int| 0 <= i < notes.len() ==> (#[trigger] notes[i])@.id.len() == id.len(),
    ensures
        !crate::store::contains_note_id(notes, id) ==> notes.filter(
            |n: Note| id.is_prefix_of(n@.id),
        ).len() == 0,
        crate::store::contains_note_id(notes, id) ==> {
            let kept = notes.filter(|n: Note| id.is_prefix_of(n@.id));
            kept.len() == 1 && kept[0]@.id == id
        },
    decreases notes.len(),
{
    reveal(Seq::filter);
    if notes.len() > 0 {
        let head = notes.drop_last();
        let lastn = notes.last();
        assert(forall|i: int| 0 <= i < head.len() ==> head[i] == notes[i]);
        lemma_full_guid_pins_one_note(head, id);
        lemma_full_length_prefix_is_equality(id, lastn@.id);
        if lastn@.id == id {
            assert forall|j: int|
                0 <= j < head.len() implies (#[trigger] head[j])@.id != id by {
                assert(notes[j]@.id != notes[notes.len() - 1]@.id);
            }
            assert(!crate::store::contains_note_id(head, id));
            assert(crate::store::contains_note_id(notes, id));
        } else {
            if crate::store::contains_note_id(notes, id) {
                let j = choose|j: int| 0 <= j < notes.len() && notes[j]@.id == id;
                assert(head[j]@.id == id);
                assert(crate::store::contains_note_id(head, id));
            }
            if crate::store::contains_note_id(head, id) {
                let j = choose|j: int| 0 <= j < head.len() && head[j]@.id == id;
                assert(notes[j]@.id == id);
                assert(crate::store::contains_note_id(notes, id));
            }
        }
    }
}

/// Hands back `text` when it holds something, and `value` in its place
/// when it is empty.
pub fn empty_or_value(text: String, value: String) -> (r: String)
    ensures
        text@.len() == 0 ==> r@ == value@,
        text@.len() != 0 ==> r@ == text@,
{
    if text.as_str().is_empty() {
        value
    } else {
        text
    }
}

/// The built-in full-screen editor; the binary runs its event loop and
/// asks the library what each keystroke means.
pub struct InternalEditor {}

/// A keystroke as the built-in editor's loop sees it.
#[derive(Clone, Copy, Debug, PartialEq, Eq, Structural)]
pub enum EditorKeyCode {
    /// The escape key.
    Escape,
    /// A printable character.
    Character(char),
    /// Anything else.
    Other,
}

/// A key event: which key, whether it was pressed (rather than released
/// or repeated), and whether control alone was held.
#[derive(Clone, Copy, Debug, PartialEq, Eq, Structural)]
pub struct EditorKeyEvent {
    pub code: EditorKeyCode,
    pub is_press: bool,
    pub control_only: bool,
}

/// Whether a keystroke ends the built-in editor: escape always does, and
/// a pressed control-q does.
pub fn editor_should_quit(key: &EditorKeyEvent) -> (r: bool)
    ensures
        r == (key.code is Escape || (key.is_press && key.control_only && key.code
            == EditorKeyCode::Character('q'))),
{
    match key.code {
        EditorKeyCode::Escape => true,
        EditorKeyCode::Character(c) => key.is_press && key.control_only && c == 'q',
        EditorKeyCode::Other => false,
    }
}

/// The `name|` tag shown before the date in the built-in editor's title.
pub fn title_tag(name: &String) -> (r: String)
    ensures
        r@ == name@ + "|"@,
{
    let mut s = name.clone();
    s.append("|");
    s
}

/// An editor that runs as a separate program on a temporary file.
#[derive(Debug, Clone)]
pub struct ExternalEditor {
    command: String,
    exe_path: PathBuf,
}

impl ExternalEditor {
    /// The editor command, as contracts see it.
    pub closed spec fn spec_command(&self) -> Seq<char> {
        self.command@
    }

    /// The directory the temporary file lives in, as contracts see it.
    pub closed spec fn spec_exe_path(&self) -> PathBuf {
        self.exe_path
    }

    /// Builds the editor description from its command and directory.
    pub fn new(command: String, exe_path: PathBuf) -> (r: Self)
        ensures
            r.spec_command() == command@,
            r.spec_exe_path() == exe_path,
    {
        Self { command, exe_path }
    }

    /// The command to run.
    pub fn command(&self) -> (r: &str)
        ensures
            r@ == self.spec_command(),
    {
        &self.command
    }

    /// The directory the temporary file lives in.
    pub fn exe_path(&self) -> (r: &PathBuf)
        ensures
            *r == self.spec_exe_path(),
    {
        &self.exe_path
    }
}

/// Which editor the configuration asks for.
pub enum EditorChoice {
    /// The built-in editor: the command is empty or names it.
    Internal(InternalEditor),
    /// A separate program.
    External(ExternalEditor),
}

/// Picks the editor: an empty command or the built-in editor's own name
/// means the built-in one, anything else an external program.
pub fn create_editor(config: &Config, exe_path: PathBuf) -> (r: EditorChoice)
    ensures
        (config.spec_edit_app().len() == 0 || config.spec_edit_app() == "interna"@) <==> r
            is Internal,
        r matches EditorChoice::External(e) ==> e.spec_command() == config.spec_edit_app()
            && e.spec_exe_path() == exe_path,
{
    let command = config.edit_app().clone();
    match string_optional(command) {
        None => EditorChoice::Internal(InternalEditor {  }),
        Some(editor_command) => {
            let marker = String::from_str("interna");
            if editor_command == marker {
                EditorChoice::Internal(InternalEditor {  })
            } else {
                EditorChoice::External(ExternalEditor::new(editor_command, exe_path))
            }
        },
    }
}

/// The guid of a fresh record, rendered in its usual hyphenated form.
/// Relies on uuid::Uuid::new_v4 and its Display form: a random
/// identifier always rendered as 36 characters.
#[verifier::external_body]
fn fresh_guid() -> (r: String)
    ensures
        r@.len() == 36,
{
    uuid::Uuid::new_v4().to_string()
}

/// A new note under a fresh guid, belonging to `project_id`.
pub fn fresh_note(project_id: String, name: String, content: String, ts: Timestamp) -> (r: Note)
    ensures
        r@.id.len() == 36,
        r@.project_id == project_id@,
        r@.name == name@,
        r@.content == content@,
        r@.ts == ts,
{
    Note::new(fresh_guid(), project_id, name, content, ts)
}

/// A new project under a fresh guid.
pub fn fresh_project(name: String, ts: Timestamp) -> (r: Project)
    ensures
        r@.id.len() == 36,
        r@.name == name@,
        r@.ts == ts,
{
    Project::new(fresh_guid(), name, ts)
}

/// The name of the temporary file the external editor works on: a fresh
/// guid with a text-file ending.
pub fn fresh_note_file_name() -> (r: String)
    ensures
        r@.len() == 40,
        r@.skip(36) == ".txt"@,
{
    let mut s = fresh_guid();
    s.append(".txt");
    proof {
        reveal_strlit(".txt");
        assert(s@.skip(36) =~= ".txt"@);
    }
    s
}

/// The characters of an optional string; none counts as empty.
pub open spec fn opt_str_chars(o: Option<String>) -> Seq<char> {
    match o {
        Some(s) => s@,
        None => Seq::<char>::empty(),
    }
}

/// An optional string as an optional character sequence.
pub open spec fn opt_str_view(o: Option<String>) -> Option<Seq<char>> {
    match o {
        Some(s) => Some(s@),
        None => None,
    }
}

/// What the external editor's temporary file starts out as: a `name|`
/// tag when there is a name, the stamp, any earlier text, then the
/// warning line and the separator bar.
pub open spec fn editor_file_chars(name: Seq<char>, ts: Timestamp, text: Option<Seq<char>>) -> Seq<
    char,
> {
    (if name.len() == 0 {
        Seq::<char>::empty()
    } else {
        name + "|"@
    }) + datetime_chars(ts) + (match text {
        Some(t) => "\n"@ + t,
        None => Seq::<char>::empty(),
    }) + "\nDO NOT EDIT ABOVE THE LINE, CAUSE IT WILL NOT BE RECORDED(===)"@
        + "\n====================\n"@
}

/// Assembles the text the external editor's temporary file starts with.
pub fn editor_file_contents(name: Option<String>, date: Timestamp, text: Option<String>) -> (r:
    String)
    requires
        date.valid(),
    ensures
        r@ == editor_file_chars(opt_str_chars(name), date, opt_str_view(text)),
{
    let mut b = String::new();
    match &name {
        Some(n) => {
            if !n.as_str().is_empty() {
                b.append(n.as_str());
                b.append("|");
            }
        },
        None => {},
    }
    let stamp = format_datetime(&date);
    b.append(stamp.as_str());
    match &text {
        Some(t) => {
            b.append("\n");
            b.append(t.as_str());
        },
        None => {},
    }
    b.append("\nDO NOT EDIT ABOVE THE LINE, CAUSE IT WILL NOT BE RECORDED(===)");
    b.append("\n====================\n");
    proof {
        assert(b@ =~= editor_file_chars(opt_str_chars(name), date, opt_str_view(text)));
    }
    b
}

/// How many line breaks `s` holds.
pub open spec fn newline_count(s: Seq<char>) -> nat
    decreases s.len(),
{
    if s.len() == 0 {
        0
    } else {
        (if s[0] == '\n' {
            1nat
        } else {
            0nat
        }) + newline_count(s.skip(1))
    }
}

/// What stands after the `k`-th line break of `s`; empty when `s` has
/// fewer than `k` of them.
pub open spec fn skip_lines(s: Seq<char>, k: nat) -> Seq<char>
    decreases s.len(),
{
    if k == 0 {
        s
    } else if s.len() == 0 {
        s
    } else if s[0] == '\n' {
        skip_lines(s.skip(1), (k - 1) as nat)
    } else {
        skip_lines(s.skip(1), k)
    }
}

/// Takes the text the user wrote back out of the external editor's file:
/// everything below the three header lines.
pub fn strip_editor_header(s: &str) -> (r: String)
    requires
        newline_count(s@) >= 2,
    ensures
        r@ == skip_lines(s@, 3),
{
    let len = s.unicode_len();
    let mut i: usize = 0;
    let mut remaining: u8 = 3;
    proof {
        assert(s@.skip(0) =~= s@);
    }
    while i < len && remaining > 0
        invariant
            i <= len,
            len == s@.len(),
            remaining <= 3,
            skip_lines(s@, 3) == skip_lines(s@.skip(i as int), remaining as nat),
        decreases len - i,
    {
        let ghost i0 = i as int;
        if s.get_char(i) == '\n' {
            remaining = remaining - 1;
        }
        i = i + 1;
        proof {
            assert(s@.skip(i0)[0] == s@[i0]);
            assert(s@.skip(i0).skip(1) =~= s@.skip(i0 + 1));
        }
    }
    if remaining > 0 {
        proof {
            assert(s@.skip(len as int) =~= Seq::<char>::empty());
        }
        String::new()
    } else {
        let out = s.substring_char(i, len);
        proof {
            assert(s@.skip(i as int) =~= s@.subrange(i as int, len as int));
        }
        out.to_owned()
    }
}

/// The pieces laid end to end with `sep` between each two.
pub open spec fn join_chars(parts: Seq<Seq<char>>, sep: Seq<char>) -> Seq<char>
    decreases parts.len(),
{
    if parts.len() == 0 {
        Seq::<char>::empty()
    } else if parts.len() == 1 {
        parts[0]
    } else {
        join_chars(parts.drop_last(), sep) + sep + parts.last()
    }
}

/// Joins the pieces with `sep` between each two.
pub fn join_lines(parts: &Vec<String>, sep: &str) -> (r: String)
    ensures
        r@ == join_chars(parts@.map_values(|p: String| p@), sep@),
{
    let ghost mapped = parts@.map_values(|p: String| p@);
    let mut out = String::new();
    let mut i: usize = 0;
    while i < parts.len()
        invariant
            i <= parts@.len(),
            mapped == parts@.map_values(|p: String| p@),
            out@ == join_chars(mapped.take(i as int), sep@),
        decreases parts@.len() - i,
    {
        if i > 0 {
            out.append(sep);
        }
        out.append(parts[i].as_str());
        i = i + 1;
        proof {
            assert(mapped.take(i as int).drop_last() =~= mapped.take(i as int - 1));
            assert(mapped.take(i as int).last() == mapped[i as int - 1]);
            if i == 1 {
                assert(out@ =~= mapped[0]);
                assert(mapped.take(1)[0] == mapped[0]);
            }
            assert(out@ == join_chars(mapped.take(i as int), sep@));
        }
    }
    proof {
        assert(mapped.take(parts@.len() as int) =~= mapped);
    }
    out
}

} // verus!
