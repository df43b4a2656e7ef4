//! The two record kinds the repository stores: projects, and notes
//! scoped to a project, together with the text block a listed note is
//! shown as.

use vstd::prelude::*;
use vstd::string::StringExecFns;

use crate::config::Config;
use crate::timestamp::{date_chars, datetime_chars, format_date, format_datetime, Timestamp};

verus! {

/// What a project is in contracts: its fields as mathematical values.
pub ghost struct ProjectView {
    pub id: Seq<char>,
    pub name: Seq<char>,
    pub ts: Timestamp,
}

/// A named container for notes.
#[derive(Debug)]
pub struct Project {
    id: String,
    name: String,
    ts: Timestamp,
}

impl View for Project {
    type V = ProjectView;

    closed spec fn view(&self) -> ProjectView {
        ProjectView { id: self.id@, name: self.name@, ts: self.ts }
    }
}

impl Project {
    /// The project's unique identifier.
    pub fn guid(&self) -> (r: &String)
        ensures
            r@ == self@.id,
    {
        &self.id
    }

    /// The project's unique name.
    pub fn name(&self) -> (r: &String)
        ensures
            r@ == self@.name,
    {
        &self.name
    }

    /// When the project was created.
    pub fn ts(&self) -> (r: Timestamp)
        ensures
            r == self@.ts,
    {
        self.ts
    }

    /// Builds a project record from its fields.
    pub fn new(guid: String, name: String, ts: Timestamp) -> (r: Project)
        ensures
            r@ == (ProjectView { id: guid@, name: name@, ts }),
    {
        Project { id: guid, name, ts }
    }
}

impl Clone for Project {
    /// An equal record.
    fn clone(&self) -> (r: Project)
        ensures
            r == *self,
    {
        Project { id: self.id.clone(), name: self.name.clone(), ts: self.ts }
    }
}

/// What a note is in contracts: its fields as mathematical values.
pub ghost struct NoteView {
    pub id: Seq<char>,
    pub project_id: Seq<char>,
    pub name: Seq<char>,
    pub content: Seq<char>,
    pub ts: Timestamp,
}

/// A timestamped text entry belonging to a project.
#[derive(Debug)]
pub struct Note {
    id: String,
    project_id: String,
    name: String,
    content: String,
    ts: Timestamp,
}

impl View for Note {
    type V = NoteView;

    closed spec fn view(&self) -> NoteView {
        NoteView {
            id: self.id@,
            project_id: self.project_id@,
            name: self.name@,
            content: self.content@,
            ts: self.ts,
        }
    }
}

impl Note {
    /// The note's unique identifier.
    pub fn guid(&self) -> (r: &String)
        ensures
            r@ == self@.id,
    {
        &self.id
    }

    /// The identifier of the project the note belongs to.
    pub fn project_id(&self) -> (r: &String)
        ensures
            r@ == self@.project_id,
    {
        &self.project_id
    }

    /// The note's name; empty when none was given.
    pub fn name(&self) -> (r: &str)
        ensures
            r@ == self@.name,
    {
        &self.name
    }

    /// The note's text.
    pub fn content(&self) -> (r: &str)
        ensures
            r@ == self@.content,
    {
        &self.content
    }

    /// When the note was written.
    pub fn ts(&self) -> (r: Timestamp)
        ensures
            r == self@.ts,
    {
        self.ts
    }

    /// Builds a note record from its fields.
    pub fn new(guid: String, project_id: String, name: String, content: String, ts: Timestamp) -> (r:
        Note)
        ensures
            r@ == (NoteView { id: guid@, project_id: project_id@, name: name@, content: content@, ts }),
    {
        Note { id: guid, project_id, name, content, ts }
    }
}

impl Clone for Note {
    /// An equal record.
    fn clone(&self) -> (r: Note)
        ensures
            r == *self,
    {
        Note {
            id: self.id.clone(),
            project_id: self.project_id.clone(),
            name: self.name.clone(),
            content: self.content.clone(),
            ts: self.ts,
        }
    }
}

/// The header line a note is shown under: its name, a separating mark
/// when there is one, and its date, with the time of day when asked for.
pub open spec fn header_chars(n: NoteView, include_time: bool) -> Seq<char> {
    n.name + (if n.name.len() == 0 {
        Seq::<char>::empty()
    } else {
        "|"@
    }) + (if include_time {
        datetime_chars(n.ts)
    } else {
        date_chars(n.ts)
    })
}

/// The block a note is listed as: an optional guid line, the name and
/// date header, the content (or a placeholder when empty), and a bar.
pub open spec fn print_chars(n: NoteView, include_time: bool, no_guid: bool) -> Seq<char> {
    (if no_guid {
        n.id + "\n"@
    } else {
        Seq::<char>::empty()
    }) + header_chars(n, include_time) + "\n"@ + (if n.content.len() == 0 {
        "<EMPTY>"@
    } else {
        n.content
    }) + "\n"@ + "====================================="@
}

impl Note {
    /// Renders the note's header line: name, mark, and date.
    pub fn note_header(&self, include_time: bool) -> (r: String)
        requires
            self@.ts.valid(),
        ensures
            r@ == header_chars(self@, include_time),
    {
        let mut b = String::new();
        b.append(self.name.as_str());
        if !self.name.as_str().is_empty() {
            b.append("|");
        }
        let stamp = if include_time {
            format_datetime(&self.ts)
        } else {
            format_date(&self.ts)
        };
        b.append(stamp.as_str());
        proof {
            assert(b@ =~= header_chars(self@, include_time));
        }
        b
    }
}

impl Note {
    /// Renders the note as the block a listing shows, guid line included
    /// exactly when `no_guid` is set.
    pub fn get_print(&self, config: &Config, no_guid: bool) -> (r: String)
        requires
            self@.ts.valid(),
        ensures
            r@ == print_chars(self@, config.spec_include_time(), no_guid),
    {
        let mut builder = String::new();
        if no_guid {
            builder.append(self.id.as_str());
            builder.append("\n");
        }
        let header = self.note_header(config.include_time());
        builder.append(header.as_str());
        builder.append("\n");
        if self.content.as_str().is_empty() {
            builder.append("<EMPTY>");
        } else {
            builder.append(self.content.as_str());
        }
        builder.append("\n");
        builder.append("=====================================");
        proof {
            assert(builder@ =~= print_chars(self@, config.spec_include_time(), no_guid));
        }
        builder
    }
}

} // verus!
