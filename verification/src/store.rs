//! The repository abstraction: what any backing store promises of its
//! two tables, the generic filter that the listing calls share, and a
//! verified in-memory repository that realises those promises.

use vstd::prelude::*;

use crate::backend::{Note, NoteView, Project};
use crate::error::RepoError;

verus! {

/// Some record in `s` carries the note id `id`.
pub open spec fn contains_note_id(s: Seq<Note>, id: Seq<char>) -> bool {
    exists|j: int| 0 <= j < s.len() && s[j]@.id == id
}

/// Some record in `s` carries the project id `id`.
pub open spec fn contains_project_id(s: Seq<Project>, id: Seq<char>) -> bool {
    exists|j: int| 0 <= j < s.len() && s[j]@.id == id
}

/// Some record in `s` carries the project name `name`.
pub open spec fn contains_project_name(s: Seq<Project>, name: Seq<char>) -> bool {
    exists|j: int| 0 <= j < s.len() && s[j]@.name == name
}

/// No two records in `s` share a note id.
pub open spec fn unique_note_ids(s: Seq<Note>) -> bool {
    forall|i: int, j: int| 0 <= i < j < s.len() ==> s[i]@.id != s[j]@.id
}

/// No two records in `s` share a project id.
pub open spec fn unique_project_ids(s: Seq<Project>) -> bool {
    forall|i: int, j: int| 0 <= i < j < s.len() ==> s[i]@.id != s[j]@.id
}

/// No two records in `s` share a project name.
pub open spec fn unique_project_names(s: Seq<Project>) -> bool {
    forall|i: int, j: int| 0 <= i < j < s.len() ==> s[i]@.name != s[j]@.name
}

/// The row `prev` after an upsert brought it the text and stamp of `n`:
/// content and timestamp change, identity and name stay.
pub open spec fn upserted_view(prev: NoteView, n: NoteView) -> NoteView {
    NoteView { content: n.content, ts: n.ts, ..prev }
}

/// The row `prev` after an update moved it to `project_id` and gave it
/// `content`: everything else stays.
pub open spec fn updated_view(prev: NoteView, project_id: Seq<char>, content: Seq<char>) -> NoteView {
    NoteView { project_id, content, ..prev }
}

/// What storing `entity` leaves behind: the row with its id rewritten in
/// place when one exists, the row appended otherwise.
pub open spec fn upsert_note_post(old_ns: Seq<Note>, new_ns: Seq<Note>, entity: Note) -> bool {
    if contains_note_id(old_ns, entity@.id) {
        exists|j: int|
            {
                &&& 0 <= j < old_ns.len()
                &&& old_ns[j]@.id == entity@.id
                &&& new_ns.len() == old_ns.len()
                &&& (forall|i: int| 0 <= i < old_ns.len() && i != j ==> new_ns[i] == old_ns[i])
                &&& new_ns[j]@ == upserted_view(old_ns[j]@, entity@)
            }
    } else {
        new_ns == old_ns.push(entity)
    }
}

/// What updating the note keyed `key` leaves behind, and how many rows
/// that touched.
pub open spec fn update_note_post(
    old_ns: Seq<Note>,
    new_ns: Seq<Note>,
    key: Seq<char>,
    content: Seq<char>,
    project_id: Seq<char>,
    count: u64,
) -> bool {
    if contains_note_id(old_ns, key) {
        count == 1 && exists|j: int|
            {
                &&& 0 <= j < old_ns.len()
                &&& old_ns[j]@.id == key
                &&& new_ns.len() == old_ns.len()
                &&& (forall|i: int| 0 <= i < old_ns.len() && i != j ==> new_ns[i] == old_ns[i])
                &&& new_ns[j]@ == updated_view(old_ns[j]@, project_id, content)
            }
    } else {
        count == 0 && new_ns == old_ns
    }
}

/// A store that knows whether its tables were set up.
pub trait Initable {
    /// The store's internal consistency; every operation keeps it.
    spec fn inv(&self) -> bool;

    /// Whether `init` has completed.
    spec fn spec_initialized(&self) -> bool;

    /// Reports whether the tables were set up.
    fn initialized(&self) -> (r: bool)
        ensures
            r == self.spec_initialized(),
    ;

    /// Sets the tables up when that has not happened yet.
    fn init(&mut self) -> (r: Result<(), RepoError>)
        requires
            old(self).inv(),
        ensures
            final(self).inv(),
            r is Ok ==> final(self).spec_initialized(),
    ;
}

/// A store of project records, keyed by guid, with unique names.
pub trait ProjectRepository: Initable {
    /// The project rows the store holds, in insertion order.
    spec fn projects(&self) -> Seq<Project>;

    /// Makes the project table exist; an existing table is kept.
    fn create_proj_table(&mut self) -> (r: Result<(), RepoError>)
        requires
            old(self).inv(),
        ensures
            final(self).inv(),
            final(self).spec_initialized() == old(self).spec_initialized(),
            r is Ok ==> final(self).projects() == old(self).projects(),
    ;

    /// Appends a project; succeeds only when its guid and name are fresh.
    fn insert_project(&mut self, entity: Project) -> (r: Result<(), RepoError>)
        requires
            old(self).inv(),
        ensures
            final(self).inv(),
            final(self).spec_initialized() == old(self).spec_initialized(),
            r is Ok ==> {
                &&& !contains_project_id(old(self).projects(), entity@.id)
                &&& !contains_project_name(old(self).projects(), entity@.name)
                &&& final(self).projects() == old(self).projects().push(entity)
            },
    ;

    /// Deletes the project whose guid is `key`, reporting how many rows
    /// that removed.
    fn remove_project(&mut self, key: String) -> (r: Result<u32, RepoError>)
        requires
            old(self).inv(),
        ensures
            final(self).inv(),
            final(self).spec_initialized() == old(self).spec_initialized(),
            r matches Ok(count) ==> if contains_project_id(old(self).projects(), key@) {
                count == 1 && exists|j: int|
                    0 <= j < old(self).projects().len() && old(self).projects()[j]@.id == key@
                        && final(self).projects() == old(self).projects().remove(j)
            } else {
                count == 0 && final(self).projects() == old(self).projects()
            },
    ;

    /// Hands out the project whose guid is `key`.
    fn get_project(&mut self, key: String) -> (r: Result<Project, RepoError>)
        requires
            old(self).inv(),
        ensures
            final(self).inv(),
            final(self).spec_initialized() == old(self).spec_initialized(),
            final(self).projects() == old(self).projects(),
            r matches Ok(p) ==> exists|j: int|
                0 <= j < old(self).projects().len() && old(self).projects()[j] == p && p@.id == key@,
    ;

    /// Hands out every project row.
    fn list_project(&mut self) -> (r: Result<Vec<Project>, RepoError>)
        requires
            old(self).inv(),
        ensures
            final(self).inv(),
            final(self).spec_initialized() == old(self).spec_initialized(),
            final(self).projects() == old(self).projects(),
            r matches Ok(v) ==> v@ == old(self).projects(),
    ;

    /// Hands out the project rows that `pred` keeps, in table order.
    fn list_project_with_filter<T: Fn(&Project) -> bool + Send + Sync>(&mut self, pred: T) -> (r:
        Result<Vec<Project>, RepoError>)
        requires
            old(self).inv(),
            forall|p: Project| call_requires(pred, (&p,)),
        ensures
            final(self).inv(),
            final(self).spec_initialized() == old(self).spec_initialized(),
            final(self).projects() == old(self).projects(),
            r matches Ok(v) ==> exists|keep: Seq<bool>|
                {
                    &&& keep.len() == old(self).projects().len()
                    &&& (forall|i: int|
                        0 <= i < keep.len() ==> call_ensures(
                            pred,
                            (&old(self).projects()[i],),
                            #[trigger] keep[i],
                        ))
                    &&& v@ == mask_filter(old(self).projects(), keep)
                },
    ;
}

/// A store of note records, keyed by guid, supporting upsert and update.
pub trait NoteRepository: Initable {
    /// The note rows the store holds, in insertion order.
    spec fn notes(&self) -> Seq<Note>;

    /// Makes the note table exist; an existing table is kept.
    fn create_note_table(&mut self) -> (r: Result<(), RepoError>)
        requires
            old(self).inv(),
        ensures
            final(self).inv(),
            final(self).spec_initialized() == old(self).spec_initialized(),
            r is Ok ==> final(self).notes() == old(self).notes(),
    ;

    /// Stores a note: a row with the same guid takes over the content and
    /// timestamp, and a fresh guid is appended whole.
    fn insert_note(&mut self, entity: Note) -> (r: Result<(), RepoError>)
        requires
            old(self).inv(),
        ensures
            final(self).inv(),
            final(self).spec_initialized() == old(self).spec_initialized(),
            r is Ok ==> upsert_note_post(old(self).notes(), final(self).notes(), entity),
    ;

    /// Deletes the note whose guid is `key`, reporting how many rows that
    /// removed.
    fn remove_note(&mut self, key: String) -> (r: Result<u32, RepoError>)
        requires
            old(self).inv(),
        ensures
            final(self).inv(),
            final(self).spec_initialized() == old(self).spec_initialized(),
            r matches Ok(count) ==> if contains_note_id(old(self).notes(), key@) {
                count == 1 && exists|j: int|
                    0 <= j < old(self).notes().len() && old(self).notes()[j]@.id == key@
                        && final(self).notes() == old(self).notes().remove(j)
            } else {
                count == 0 && final(self).notes() == old(self).notes()
            },
    ;

    /// Hands out the note whose guid is `key`.
    fn get_note(&mut self, key: String) -> (r: Result<Note, RepoError>)
        requires
            old(self).inv(),
        ensures
            final(self).inv(),
            final(self).spec_initialized() == old(self).spec_initialized(),
            final(self).notes() == old(self).notes(),
            r matches Ok(n) ==> exists|j: int|
                0 <= j < old(self).notes().len() && old(self).notes()[j] == n && n@.id == key@,
    ;

    /// Hands out every note row.
    fn list_note(&mut self) -> (r: Result<Vec<Note>, RepoError>)
        requires
            old(self).inv(),
        ensures
            final(self).inv(),
            final(self).spec_initialized() == old(self).spec_initialized(),
            final(self).notes() == old(self).notes(),
            r matches Ok(v) ==> v@ == old(self).notes(),
    ;

    /// Hands out the note rows that `pred` keeps, in table order.
    fn list_note_with_filter<T: Fn(&Note) -> bool + Send + Sync>(&mut self, pred: T) -> (r: Result<
        Vec<Note>,
        RepoError,
    >)
        requires
            old(self).inv(),
            forall|n: Note| call_requires(pred, (&n,)),
        ensures
            final(self).inv(),
            final(self).spec_initialized() == old(self).spec_initialized(),
            final(self).notes() == old(self).notes(),
            r matches Ok(v) ==> exists|keep: Seq<bool>|
                {
                    &&& keep.len() == old(self).notes().len()
                    &&& (forall|i: int|
                        0 <= i < keep.len() ==> call_ensures(
                            pred,
                            (&old(self).notes()[i],),
                            #[trigger] keep[i],
                        ))
                    &&& v@ == mask_filter(old(self).notes(), keep)
                },
    ;

    /// Rewrites the note whose guid is `key` with `text`, moving it to
    /// `project_id`, and reports how many rows that touched.
    fn update_note(&mut self, key: String, text: String, project_id: String) -> (r: Result<
        u64,
        RepoError,
    >)
        requires
            old(self).inv(),
        ensures
            final(self).inv(),
            final(self).spec_initialized() == old(self).spec_initialized(),
            r matches Ok(count) ==> update_note_post(
                old(self).notes(),
                final(self).notes(),
                key@,
                text@,
                project_id@,
                count,
            ),
    ;
}

/// Storing a note leaves its text readable under its guid: in any table
/// with unique guids, every row carrying the stored guid now holds the
/// stored content and stamp, and guids stay unique.
pub proof fn lemma_upsert_then_lookup(old_ns: Seq<Note>, new_ns: Seq<Note>, entity: Note)
    requires
        unique_note_ids(old_ns),
        upsert_note_post(old_ns, new_ns, entity),
    ensures
        contains_note_id(new_ns, entity@.id),
        forall|l: int|
            0 <= l < new_ns.len() && (#[trigger] new_ns[l])@.id == entity@.id ==> new_ns[l]@.content
                == entity@.content && new_ns[l]@.ts == entity@.ts,
        unique_note_ids(new_ns),
{
    if contains_note_id(old_ns, entity@.id) {
        let j = choose|j: int|
            {
                &&& 0 <= j < old_ns.len()
                &&& old_ns[j]@.id == entity@.id
                &&& new_ns.len() == old_ns.len()
                &&& (forall|i: int| 0 <= i < old_ns.len() && i != j ==> new_ns[i] == old_ns[i])
                &&& new_ns[j]@ == upserted_view(old_ns[j]@, entity@)
            };
        assert(new_ns[j]@.id == entity@.id);
        assert(forall|l: int|
            0 <= l < new_ns.len() ==> (#[trigger] new_ns[l])@.id == old_ns[l]@.id);
        assert forall|l: int|
            0 <= l < new_ns.len() && (#[trigger] new_ns[l])@.id == entity@.id implies l == j by {
            if l != j {
                assert(old_ns[l]@.id == entity@.id);
                assert(old_ns[j]@.id == entity@.id);
            }
        }
    } else {
        assert(new_ns == old_ns.push(entity));
        assert(new_ns[old_ns.len() as int] == entity);
        assert forall|l: int|
            0 <= l < new_ns.len() && (#[trigger] new_ns[l])@.id == entity@.id implies l
            == old_ns.len() by {
            if l < old_ns.len() {
                assert(old_ns[l]@.id == entity@.id);
            }
        }
    }
}

/// Deleting by guid leaves no row under that guid, in any table whose
/// guids are unique, and guids stay unique.
pub proof fn lemma_remove_then_gone(old_ns: Seq<Note>, new_ns: Seq<Note>, key: Seq<char>, j: int)
    requires
        unique_note_ids(old_ns),
        0 <= j < old_ns.len(),
        old_ns[j]@.id == key,
        new_ns == old_ns.remove(j),
    ensures
        !contains_note_id(new_ns, key),
        unique_note_ids(new_ns),
{
    assert(forall|l: int|
        0 <= l < new_ns.len() ==> #[trigger] new_ns[l] == (if l < j {
            old_ns[l]
        } else {
            old_ns[l + 1]
        }));
    assert forall|l: int| 0 <= l < new_ns.len() implies (#[trigger] new_ns[l])@.id != key by {
        if l < j {
            assert(old_ns[l]@.id != old_ns[j]@.id);
        } else {
            assert(old_ns[l + 1]@.id != old_ns[j]@.id);
        }
    }
}

/// The items of `s` whose mask bit is set, in order.
pub open spec fn mask_filter<T>(s: Seq<T>, keep: Seq<bool>) -> Seq<T>
    decreases s.len(),
{
    if s.len() == 0 || keep.len() == 0 {
        Seq::empty()
    } else {
        let rest = mask_filter(s.drop_last(), keep.drop_last());
        if keep.last() {
            rest.push(s.last())
        } else {
            rest
        }
    }
}

/// When the mask agrees pointwise with a predicate, the mask filter is
/// the predicate's filter.
pub proof fn lemma_mask_filter_matches<T>(s: Seq<T>, keep: Seq<bool>, p: spec_fn(T) -> bool)
    requires
        keep.len() == s.len(),
        forall|i: int| 0 <= i < s.len() ==> keep[i] == p(s[i]),
    ensures
        mask_filter(s, keep) == s.filter(p),
    decreases s.len(),
{
    reveal(Seq::filter);
    if s.len() > 0 {
        lemma_mask_filter_matches(s.drop_last(), keep.drop_last(), p);
    }
}

/// Keeps the items that `pred` accepts, in their given order.
pub fn apply_filter<T: Clone, K: Fn(&T) -> bool + Send + Sync>(pred: K, items: Vec<T>) -> (r: Vec<
    T,
>)
    requires
        forall|i: int| 0 <= i < items@.len() ==> call_requires(pred, (&items@[i],)),
    ensures
        exists|keep: Seq<bool>|
            {
                &&& keep.len() == items@.len()
                &&& (forall|i: int|
                    0 <= i < keep.len() ==> call_ensures(pred, (&items@[i],), #[trigger] keep[i]))
                &&& r@ == mask_filter(items@, keep)
            },
{
    let ghost orig = items@;
    let mut rest = items;
    let mut r: Vec<T> = Vec::new();
    let ghost mut keep: Seq<bool> = Seq::empty();
    while rest.len() > 0
        invariant
            keep.len() + rest@.len() == orig.len(),
            orig == orig.take(keep.len() as int) + rest@,
            forall|i: int| 0 <= i < orig.len() ==> call_requires(pred, (&orig[i],)),
            forall|i: int| 0 <= i < keep.len() ==> call_ensures(pred, (&orig[i],), #[trigger] keep[i]),
            r@ == mask_filter(orig.take(keep.len() as int), keep),
        decreases rest@.len(),
    {
        let ghost k = keep.len() as int;
        proof {
            assert(orig[k] == (orig.take(k) + rest@)[k]);
        }
        let it = rest.remove(0);
        assert(it == orig[k]);
        let b = pred(&it);
        if b {
            r.push(it);
        }
        proof {
            let kept_before = keep;
            keep = keep.push(b);
            assert(orig.take(k + 1).drop_last() =~= orig.take(k));
            assert(keep.drop_last() =~= kept_before);
            assert(orig.take(k + 1).last() == orig[k]);
            assert(r@ == mask_filter(orig.take(k + 1), keep));
            assert(orig =~= orig.take(k + 1) + rest@);
        }
    }
    proof {
        assert(orig.take(keep.len() as int) =~= orig);
        assert(keep.len() == items@.len() && (forall|i: int|
            0 <= i < keep.len() ==> call_ensures(pred, (&items@[i],), #[trigger] keep[i])) && r@
            == mask_filter(items@, keep));
    }
    r
}

/// Looks `key` up among the note guids, reporting a position that holds it.
fn find_note_index(notes: &Vec<Note>, key: &String) -> (r: Option<usize>)
    ensures
        match r {
            Some(i) => i < notes@.len() && notes@[i as int]@.id == key@,
            None => !contains_note_id(notes@, key@),
        },
{
    let mut i: usize = 0;
    while i < notes.len()
        invariant
            i <= notes@.len(),
            forall|k: int| 0 <= k < i ==> notes@[k]@.id != key@,
        decreases notes@.len() - i,
    {
        if *notes[i].guid() == *key {
            return Some(i);
        }
        i = i + 1;
    }
    None
}

/// Looks `key` up among the project guids, reporting a position that holds it.
fn find_project_index(projects: &Vec<Project>, key: &String) -> (r: Option<usize>)
    ensures
        match r {
            Some(i) => i < projects@.len() && projects@[i as int]@.id == key@,
            None => !contains_project_id(projects@, key@),
        },
{
    let mut i: usize = 0;
    while i < projects.len()
        invariant
            i <= projects@.len(),
            forall|k: int| 0 <= k < i ==> projects@[k]@.id != key@,
        decreases projects@.len() - i,
    {
        if *projects[i].guid() == *key {
            return Some(i);
        }
        i = i + 1;
    }
    None
}

/// Looks `name` up among the project names, reporting a position that holds it.
fn find_project_name_index(projects: &Vec<Project>, name: &String) -> (r: Option<usize>)
    ensures
        match r {
            Some(i) => i < projects@.len() && projects@[i as int]@.name == name@,
            None => !contains_project_name(projects@, name@),
        },
{
    let mut i: usize = 0;
    while i < projects.len()
        invariant
            i <= projects@.len(),
            forall|k: int| 0 <= k < i ==> projects@[k]@.name != name@,
        decreases projects@.len() - i,
    {
        if *projects[i].name() == *name {
            return Some(i);
        }
        i = i + 1;
    }
    None
}

/// A repository holding its two tables in memory, in insertion order.
pub struct MemRepository {
    projects: Vec<Project>,
    notes: Vec<Note>,
    initialized: bool,
}

impl MemRepository {
    /// The note table, for contracts that live outside the note trait.
    pub closed spec fn mem_notes(&self) -> Seq<Note> {
        self.notes@
    }

    /// The project table, for contracts that live outside the project trait.
    pub closed spec fn mem_projects(&self) -> Seq<Project> {
        self.projects@
    }

    /// An empty repository whose tables are not yet set up.
    pub fn new() -> (r: MemRepository)
        ensures
            r.inv(),
            !r.spec_initialized(),
            r.notes() == Seq::<Note>::empty(),
            r.projects() == Seq::<Project>::empty(),
    {
        MemRepository { projects: Vec::new(), notes: Vec::new(), initialized: false }
    }
}

impl Initable for MemRepository {
    /// Guids are unique in both tables, and project names are unique.
    closed spec fn inv(&self) -> bool {
        unique_note_ids(self.notes@) && unique_project_ids(self.projects@)
            && unique_project_names(self.projects@)
    }

    closed spec fn spec_initialized(&self) -> bool {
        self.initialized
    }

    fn initialized(&self) -> (r: bool) {
        self.initialized
    }

    fn init(&mut self) -> (r: Result<(), RepoError>)
        ensures
            r is Ok,
            final(self).mem_notes() == old(self).mem_notes(),
            final(self).mem_projects() == old(self).mem_projects(),
    {
        if !self.initialized() {
            let _ = self.create_proj_table();
            let _ = self.create_note_table();
        }
        self.initialized = true;
        Ok(())
    }
}

impl NoteRepository for MemRepository {
    open spec fn notes(&self) -> Seq<Note> {
        self.mem_notes()
    }

    /// The in-memory table always exists, so there is nothing to create.
    fn create_note_table(&mut self) -> (r: Result<(), RepoError>)
        ensures
            r is Ok,
            *final(self) == *old(self),
    {
        Ok(())
    }

    fn insert_note(&mut self, entity: Note) -> (r: Result<(), RepoError>)
        ensures
            r is Ok,
            final(self).mem_projects() == old(self).mem_projects(),
    {
        match find_note_index(&self.notes, entity.guid()) {
            Some(i) => {
                let prev = self.notes.remove(i);
                let updated = Note::new(
                    prev.guid().clone(),
                    prev.project_id().clone(),
                    prev.name().to_owned(),
                    entity.content().to_owned(),
                    entity.ts(),
                );
                self.notes.insert(i, updated);
                proof {
                    assert(self.notes@ =~= old(self).notes@.update(i as int, self.notes@[i as int]));
                    assert(forall|l: int|
                        0 <= l < self.notes@.len() ==> self.notes@[l]@.id == old(
                            self,
                        ).notes@[l]@.id);
                }
                Ok(())
            },
            None => {
                self.notes.push(entity);
                Ok(())
            },
        }
    }

    fn remove_note(&mut self, key: String) -> (r: Result<u32, RepoError>)
        ensures
            r is Ok,
            final(self).mem_projects() == old(self).mem_projects(),
    {
        match find_note_index(&self.notes, &key) {
            Some(i) => {
                let gone = self.notes.remove(i);
                proof {
                    assert(forall|a: int, b: int|
                        0 <= a < b < self.notes@.len() ==> self.notes@[a]@.id
                            != self.notes@[b]@.id);
                }
                Ok(1)
            },
            None => Ok(0),
        }
    }

    fn get_note(&mut self, key: String) -> (r: Result<Note, RepoError>)
        ensures
            *final(self) == *old(self),
            contains_note_id(old(self).notes(), key@) ==> r is Ok,
            !contains_note_id(old(self).notes(), key@) ==> r == Err::<Note, RepoError>(
                RepoError::NotFound,
            ),
    {
        match find_note_index(&self.notes, &key) {
            Some(i) => {
                let n = self.notes[i].clone();
                proof {
                    assert(0 <= i < old(self).notes().len() && old(self).notes()[i as int] == n);
                }
                Ok(n)
            },
            None => Err(RepoError::NotFound),
        }
    }

    fn list_note(&mut self) -> (r: Result<Vec<Note>, RepoError>)
        ensures
            r is Ok,
            *final(self) == *old(self),
    {
        let v = self.notes.clone();
        proof {
            assert forall|i: int| 0 <= i < v@.len() implies v@[i] == self.notes@[i] by {
                assert(cloned::<Note>(self.notes@[i], v@[i]));
            }
            assert(v@ =~= self.notes@);
        }
        Ok(v)
    }

    fn list_note_with_filter<T: Fn(&Note) -> bool + Send + Sync>(&mut self, pred: T) -> (r: Result<
        Vec<Note>,
        RepoError,
    >)
        ensures
            r is Ok,
            *final(self) == *old(self),
    {
        let items = match self.list_note() {
            Ok(v) => v,
            Err(e) => {
                return Err(e);
            },
        };
        Ok(apply_filter(pred, items))
    }

    fn update_note(&mut self, key: String, text: String, project_id: String) -> (r: Result<
        u64,
        RepoError,
    >)
        ensures
            r is Ok,
            final(self).mem_projects() == old(self).mem_projects(),
    {
        match find_note_index(&self.notes, &key) {
            Some(i) => {
                let prev = self.notes.remove(i);
                let updated = Note::new(
                    prev.guid().clone(),
                    project_id,
                    prev.name().to_owned(),
                    text,
                    prev.ts(),
                );
                self.notes.insert(i, updated);
                proof {
                    assert(self.notes@ =~= old(self).notes@.update(i as int, self.notes@[i as int]));
                    assert(forall|l: int|
                        0 <= l < self.notes@.len() ==> self.notes@[l]@.id == old(
                            self,
                        ).notes@[l]@.id);
                }
                Ok(1)
            },
            None => Ok(0),
        }
    }
}

impl ProjectRepository for MemRepository {
    open spec fn projects(&self) -> Seq<Project> {
        self.mem_projects()
    }

    /// The in-memory table always exists, so there is nothing to create.
    fn create_proj_table(&mut self) -> (r: Result<(), RepoError>)
        ensures
            r is Ok,
            *final(self) == *old(self),
    {
        Ok(())
    }

    fn insert_project(&mut self, entity: Project) -> (r: Result<(), RepoError>)
        ensures
            final(self).mem_notes() == old(self).mem_notes(),
            r is Err ==> r == Err::<(), RepoError>(RepoError::Conflict) && *final(self) == *old(
                self,
            ),
            r is Ok <==> !contains_project_id(old(self).projects(), entity@.id)
                && !contains_project_name(old(self).projects(), entity@.name),
    {
        let id_taken = find_project_index(&self.projects, entity.guid());
        let name_taken = find_project_name_index(&self.projects, entity.name());
        if id_taken.is_some() || name_taken.is_some() {
            Err(RepoError::Conflict)
        } else {
            self.projects.push(entity);
            Ok(())
        }
    }

    fn remove_project(&mut self, key: String) -> (r: Result<u32, RepoError>)
        ensures
            r is Ok,
            final(self).mem_notes() == old(self).mem_notes(),
    {
        match find_project_index(&self.projects, &key) {
            Some(i) => {
                let gone = self.projects.remove(i);
                proof {
                    assert(forall|a: int, b: int|
                        0 <= a < b < self.projects@.len() ==> self.projects@[a]@.id
                            != self.projects@[b]@.id);
                    assert(forall|a: int, b: int|
                        0 <= a < b < self.projects@.len() ==> self.projects@[a]@.name
                            != self.projects@[b]@.name);
                }
                Ok(1)
            },
            None => Ok(0),
        }
    }

    fn get_project(&mut self, key: String) -> (r: Result<Project, RepoError>)
        ensures
            *final(self) == *old(self),
            contains_project_id(old(self).projects(), key@) ==> r is Ok,
            !contains_project_id(old(self).projects(), key@) ==> r == Err::<Project, RepoError>(
                RepoError::NotFound,
            ),
    {
        match find_project_index(&self.projects, &key) {
            Some(i) => {
                let p = self.projects[i].clone();
                proof {
                    assert(0 <= i < old(self).projects().len() && old(self).projects()[i as int]
                        == p);
                }
                Ok(p)
            },
            None => Err(RepoError::NotFound),
        }
    }

    fn list_project(&mut self) -> (r: Result<Vec<Project>, RepoError>)
        ensures
            r is Ok,
            *final(self) == *old(self),
    {
        let v = self.projects.clone();
        proof {
            assert forall|i: int| 0 <= i < v@.len() implies v@[i] == self.projects@[i] by {
                assert(cloned::<Project>(self.projects@[i], v@[i]));
            }
            assert(v@ =~= self.projects@);
        }
        Ok(v)
    }

    fn list_project_with_filter<T: Fn(&Project) -> bool + Send + Sync>(&mut self, pred: T) -> (r:
        Result<Vec<Project>, RepoError>)
        ensures
            r is Ok,
            *final(self) == *old(self),
    {
        let items = match self.list_project() {
            Ok(v) => v,
            Err(e) => {
                return Err(e);
            },
        };
        Ok(apply_filter(pred, items))
    }
}

} // verus!
