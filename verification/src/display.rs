//! The grouped listing: each note becomes a header and a body, and
//! bodies that share a header are gathered under it, headers in the
//! order they first appear.

use vstd::prelude::*;
use vstd::string::StringExecFns;

use crate::backend::{header_chars, Note, NoteView};

verus! {

/// The body a grouped listing shows for a note: its guid on a line of
/// its own when asked for, then its content.
pub open spec fn body_chars(n: NoteView, no_guid: bool) -> Seq<char> {
    (if no_guid {
        n.id + "\n"@
    } else {
        Seq::<char>::empty()
    }) + n.content
}

/// The header and body a note contributes to the grouped listing.
pub open spec fn pair_chars(n: NoteView, include_time: bool, no_guid: bool) -> (Seq<char>, Seq<
    char,
>) {
    (header_chars(n, include_time), body_chars(n, no_guid))
}

/// Renders the body a grouped listing shows for this note.
pub fn note_body(n: &Note, no_guid: bool) -> (r: String)
    ensures
        r@ == body_chars(n@, no_guid),
{
    let mut b = String::new();
    if no_guid {
        b.append(n.guid().as_str());
        b.append("\n");
    }
    b.append(n.content());
    proof {
        assert(b@ =~= body_chars(n@, no_guid));
    }
    b
}

/// The first position in `groups` whose header is `key`; negative when
/// no group carries it.
pub open spec fn find_group(groups: Seq<(Seq<char>, Seq<Seq<char>>)>, key: Seq<char>) -> int
    decreases groups.len(),
{
    if groups.len() == 0 {
        -1
    } else if groups[0].0 == key {
        0
    } else {
        let rest = find_group(groups.skip(1), key);
        if rest < 0 {
            -1
        } else {
            rest + 1
        }
    }
}

/// What `find_group` finds: a negative answer means no group carries the
/// header, and a position is the first that does.
pub proof fn lemma_find_group(groups: Seq<(Seq<char>, Seq<Seq<char>>)>, key: Seq<char>)
    ensures
        find_group(groups, key) < 0 ==> forall|k: int|
            0 <= k < groups.len() ==> groups[k].0 != key,
        find_group(groups, key) >= 0 ==> {
            let j = find_group(groups, key);
            &&& j < groups.len()
            &&& groups[j].0 == key
            &&& forall|k: int| 0 <= k < j ==> groups[k].0 != key
        },
    decreases groups.len(),
{
    if groups.len() == 0 {
    } else if groups[0].0 == key {
    } else {
        lemma_find_group(groups.skip(1), key);
        let rest = find_group(groups.skip(1), key);
        if rest < 0 {
            assert forall|k: int| 0 <= k < groups.len() implies groups[k].0 != key by {
                if k > 0 {
                    assert(groups.skip(1)[k - 1] == groups[k]);
                }
            }
        } else {
            assert(groups.skip(1)[rest] == groups[rest + 1]);
            assert forall|k: int| 0 <= k < rest + 1 implies groups[k].0 != key by {
                if k > 0 {
                    assert(groups.skip(1)[k - 1] == groups[k]);
                }
            }
        }
    }
}

/// The pairs gathered into groups: bodies that share a header stand
/// under it, headers in the order they first appear.
pub open spec fn group_pairs(pairs: Seq<(Seq<char>, Seq<char>)>) -> Seq<
    (Seq<char>, Seq<Seq<char>>),
>
    decreases pairs.len(),
{
    if pairs.len() == 0 {
        Seq::empty()
    } else {
        let rest = group_pairs(pairs.drop_last());
        let key = pairs.last().0;
        let val = pairs.last().1;
        let j = find_group(rest, key);
        if j < 0 {
            rest.push((key, seq![val]))
        } else {
            rest.update(j, (key, rest[j].1.push(val)))
        }
    }
}

/// The groups a listing builds, as mathematical values.
pub open spec fn group_views(gs: Seq<(String, Vec<String>)>) -> Seq<(Seq<char>, Seq<Seq<char>>)> {
    gs.map_values(|g: (String, Vec<String>)| (g.0@, g.1@.map_values(|s: String| s@)))
}

/// Looks `key` up among the group headers, reporting the first position
/// that carries it.
fn find_group_index(groups: &Vec<(String, Vec<String>)>, key: &String) -> (r: Option<usize>)
    ensures
        match r {
            Some(j) => j < groups@.len() && group_views(groups@)[j as int].0 == key@ && (forall|
                k: int,
            |
                0 <= k < j ==> group_views(groups@)[k].0 != key@),
            None => forall|k: int| 0 <= k < groups@.len() ==> group_views(groups@)[k].0 != key@,
        },
{
    let mut i: usize = 0;
    while i < groups.len()
        invariant
            i <= groups@.len(),
            forall|k: int| 0 <= k < i ==> group_views(groups@)[k].0 != key@,
        decreases groups@.len() - i,
    {
        if groups[i].0 == *key {
            return Some(i);
        }
        i = i + 1;
    }
    None
}

/// Gathers the notes into groups: each note is shown as a header and a
/// body, and bodies under one header stand together, headers in the
/// order a note first brought them up.
pub fn group_notes(notes: &Vec<Note>, include_time: bool, no_guid: bool) -> (r: Vec<
    (String, Vec<String>),
>)
    requires
        forall|i: int| 0 <= i < notes@.len() ==> (#[trigger] notes@[i])@.ts.valid(),
    ensures
        group_views(r@) == group_pairs(
            notes@.map_values(|n: Note| pair_chars(n@, include_time, no_guid)),
        ),
{
    let ghost pairs = notes@.map_values(|n: Note| pair_chars(n@, include_time, no_guid));
    let mut r: Vec<(String, Vec<String>)> = Vec::new();
    let mut i: usize = 0;
    proof {
        assert(pairs.take(0) =~= Seq::<(Seq<char>, Seq<char>)>::empty());
        assert(group_views(r@) =~= Seq::<(Seq<char>, Seq<Seq<char>>)>::empty());
    }
    while i < notes.len()
        invariant
            i <= notes@.len(),
            pairs == notes@.map_values(|n: Note| pair_chars(n@, include_time, no_guid)),
            forall|k: int| 0 <= k < notes@.len() ==> (#[trigger] notes@[k])@.ts.valid(),
            group_views(r@) == group_pairs(pairs.take(i as int)),
        decreases notes@.len() - i,
    {
        let header = notes[i].note_header(include_time);
        let body = note_body(&notes[i], no_guid);
        let ghost gv = group_views(r@);
        proof {
            assert(pairs.take(i as int + 1).drop_last() =~= pairs.take(i as int));
            assert(pairs.take(i as int + 1).last() == pairs[i as int]);
            lemma_find_group(gv, header@);
        }
        match find_group_index(&r, &header) {
            Some(j) => {
                proof {
                    assert(find_group(gv, header@) == j);
                }
                let (key, mut vals) = r.remove(j);
                vals.push(body);
                proof {
                    assert(vals@.map_values(|s: String| s@) =~= gv[j as int].1.push(body@));
                }
                r.insert(j, (key, vals));
                proof {
                    assert(group_views(r@) =~= gv.update(
                        j as int,
                        (gv[j as int].0, gv[j as int].1.push(body@)),
                    ));
                    assert(gv[j as int].0 == header@);
                }
            },
            None => {
                proof {
                    assert(find_group(gv, header@) < 0);
                }
                let single: Vec<String> = vec![body];
                r.push((header, single));
                proof {
                    assert(single@.map_values(|s: String| s@) =~= seq![body@]);
                    assert(group_views(r@) =~= gv.push((header@, seq![body@])));
                }
            },
        }
        i = i + 1;
    }
    proof {
        assert(pairs.take(notes@.len() as int) =~= pairs);
    }
    r
}

} // verus!
