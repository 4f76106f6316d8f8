//! The watch registry: a table from OS-issued watch identifiers to the
//! absolute directory paths they stand for, together with the event-loop
//! dispatch rule that keeps the table in sync with a mutating directory tree.
//! Paths are byte sequences, as the operating system hands them out: a name
//! that is not valid text is watched and resolved like any other.

use vstd::prelude::*;
use std::collections::HashMap;

verus! {

broadcast use vstd::std_specs::hash::group_hash_axioms;

/// The byte that separates a directory path from a child name: `/`.
pub const PATH_SEPARATOR: u8 = 47;

/// A directory path joined with a child name: a separator goes between them
/// unless the directory already ends with one.
pub open spec fn path_joined(dir: Seq<u8>, name: Seq<u8>) -> Seq<u8> {
    if dir.len() > 0 && dir[dir.len() - 1] == PATH_SEPARATOR {
        dir + name
    } else {
        dir + seq![PATH_SEPARATOR] + name
    }
}

/// A live table of watch registrations. Each entry pairs the opaque
/// identifier handed out by the notification primitive with the directory
/// path the watch was placed on. At most one entry exists per identifier.
pub struct WatchTree {
    table: HashMap<u64, Vec<u8>>,
}

impl View for WatchTree {
    type V = Map<u64, Vec<u8>>;

    closed spec fn view(&self) -> Map<u64, Vec<u8>> {
        self.table@
    }
}

impl WatchTree {
    /// An empty registry: no directory is watched yet.
    pub fn new() -> (t: WatchTree)
        ensures
            t@ == Map::<u64, Vec<u8>>::empty(),
    {
        WatchTree { table: HashMap::new() }
    }

    /// How many directories currently have a live watch.
    pub fn len(&self) -> (n: usize)
        ensures
            n == self@.len(),
    {
        self.table.len()
    }

    /// Whether `wd` currently identifies a watched directory.
    pub fn contains(&self, wd: u64) -> (r: bool)
        ensures
            r == self@.contains_key(wd),
    {
        self.table.contains_key(&wd)
    }

    /// Record that the notification primitive issued identifier `wd` for a
    /// watch on directory `dir`. A re-issued identifier replaces the old
    /// entry; a fresh one grows the table by exactly one entry.
    pub fn insert(&mut self, wd: u64, dir: Vec<u8>)
        ensures
            final(self)@ == old(self)@.insert(wd, dir),
            !old(self)@.contains_key(wd) ==> final(self)@.len() == old(self)@.len() + 1,
            old(self)@.contains_key(wd) ==> final(self)@.len() == old(self)@.len(),
    {
        let ghost m = self@;
        self.table.insert(wd, dir);
        proof {
            broadcast use vstd::set::axiom_set_insert_len;

            assert(m.insert(wd, dir).dom() =~= m.dom().insert(wd));
        }
    }

    /// Turn identifier `wd` plus a child name into the child's full path,
    /// or report that the identifier is unknown (the event is then dropped).
    pub fn resolve(&self, wd: u64, name: &[u8]) -> (r: Option<Vec<u8>>)
        ensures
            r is Some <==> self@.contains_key(wd),
            r is Some ==> r->Some_0@ == path_joined(self@[wd]@, name@),
    {
        match self.table.get(&wd) {
            Some(dir) => {
                let mut path = dir.clone();
                proof {
                    assert(path@ =~= dir@);
                }
                if path.len() == 0 || path[path.len() - 1] != PATH_SEPARATOR {
                    path.push(PATH_SEPARATOR);
                }
                path.extend_from_slice(name);
                proof {
                    assert(path@ =~= path_joined(self@[wd]@, name@));
                }
                Some(path)
            },
            None => None,
        }
    }

    /// Drop the entry for `wd` once the watched directory itself has been
    /// deleted. Returns the path that was being watched, if any.
    pub fn retire(&mut self, wd: u64) -> (r: Option<Vec<u8>>)
        ensures
            final(self)@ == old(self)@.remove(wd),
            r is Some <==> old(self)@.contains_key(wd),
            r is Some ==> r->Some_0 == old(self)@[wd],
            old(self)@.contains_key(wd) ==> final(self)@.len() == old(self)@.len() - 1,
            !old(self)@.contains_key(wd) ==> final(self)@.len() == old(self)@.len(),
    {
        let ghost m = self@;
        let r = self.table.remove(&wd);
        proof {
            if m.contains_key(wd) {
                m.lemma_remove_key_len(wd);
            } else {
                assert(m.remove(wd) =~= m);
            }
        }
        r
    }
}

/// The table as it stands after a recursive walk has registered its
/// directories one by one, in walk order.
pub open spec fn register_all(
    m: Map<u64, Vec<u8>>,
    wds: Seq<u64>,
    dirs: Seq<Vec<u8>>,
) -> Map<u64, Vec<u8>>
    recommends
        wds.len() == dirs.len(),
    decreases wds.len(),
{
    if wds.len() == 0 {
        m
    } else {
        register_all(m.insert(wds[0], dirs[0]), wds.skip(1), dirs.skip(1))
    }
}

/// Law: a recursive registration walk that reaches N directories (a root and
/// its nested subdirectories, none skipped) and is issued pairwise-distinct,
/// previously unseen identifiers grows the table by exactly N entries — over
/// an empty table, the walk of a root with N nested subdirectories leaves
/// exactly N + 1 entries.
pub proof fn lemma_walk_count(m: Map<u64, Vec<u8>>, wds: Seq<u64>, dirs: Seq<Vec<u8>>)
    requires
        m.dom().finite(),
        wds.no_duplicates(),
        dirs.len() == wds.len(),
        forall|k: int| 0 <= k < wds.len() ==> !m.contains_key(#[trigger] wds[k]),
    ensures
        register_all(m, wds, dirs).dom().finite(),
        register_all(m, wds, dirs).len() == m.len() + wds.len(),
    decreases wds.len(),
{
    broadcast use vstd::set::axiom_set_insert_len;

    if wds.len() > 0 {
        let m1 = m.insert(wds[0], dirs[0]);
        assert(m1.dom() =~= m.dom().insert(wds[0]));
        assert forall|k: int| 0 <= k < wds.skip(1).len() implies !m1.contains_key(
            #[trigger] wds.skip(1)[k],
        ) by {
            assert(wds.skip(1)[k] == wds[k + 1]);
        }
        lemma_walk_count(m1, wds.skip(1), dirs.skip(1));
    }
}

/// One notification pulled from the primitive, reduced to the fields the
/// dispatch rule reads: the issuing watch identifier, the kind bits that
/// matter, whether the subject is a directory, and the child name relative
/// to the watched directory.
pub struct WatchEvent {
    pub wd: u64,
    pub created: bool,
    pub self_deleted: bool,
    pub modified: bool,
    pub write_closed: bool,
    pub is_dir: bool,
    pub name: Vec<u8>,
}

/// What the loop must do with one event.
pub enum EventAction {
    /// A directory appeared under a watched directory: register it and its
    /// descendants, then hand the path to the callback.
    GrowAndNotify { path: Vec<u8> },
    /// A file-level change on a resolvable path: hand it to the callback,
    /// which skips directories.
    Notify { path: Vec<u8>, is_dir: bool },
    /// The watched directory itself is gone; its entry was retired.
    Retired { path: Vec<u8> },
    /// Unknown identifier or an event kind the loop does not act on.
    Ignore,
}

/// The full path an event's watch identifier and child name resolve to.
pub open spec fn resolved_path(tree: Map<u64, Vec<u8>>, e: &WatchEvent) -> Seq<u8> {
    path_joined(tree[e.wd]@, e.name@)
}

/// The event-loop dispatch rule. Creation events grow the watch tree when
/// the new child is itself a directory and reach the callback either way;
/// self-deletion retires the entry; modification and write-close reach the
/// callback; everything else, and any event whose identifier is unknown,
/// is dropped silently.
pub fn handle_event(tree: &mut WatchTree, e: &WatchEvent) -> (a: EventAction)
    ensures
        e.created && old(tree)@.contains_key(e.wd) ==> {
            &&& final(tree)@ == old(tree)@
            &&& if e.is_dir {
                a matches EventAction::GrowAndNotify { path } && path@ == resolved_path(
                    old(tree)@,
                    e,
                )
            } else {
                a matches EventAction::Notify { path, is_dir } && path@ == resolved_path(
                    old(tree)@,
                    e,
                ) && is_dir == e.is_dir
            }
        },
        !e.created && e.self_deleted ==> {
            &&& final(tree)@ == old(tree)@.remove(e.wd)
            &&& if old(tree)@.contains_key(e.wd) {
                a matches EventAction::Retired { path } && path == old(tree)@[e.wd]
            } else {
                a is Ignore
            }
        },
        !e.created && !e.self_deleted && (e.modified || e.write_closed) ==> {
            &&& final(tree)@ == old(tree)@
            &&& if old(tree)@.contains_key(e.wd) {
                a matches EventAction::Notify { path, is_dir } && path@ == resolved_path(
                    old(tree)@,
                    e,
                ) && is_dir == e.is_dir
            } else {
                a is Ignore
            }
        },
        !old(tree)@.contains_key(e.wd) && !e.self_deleted ==> a is Ignore
            && final(tree)@ == old(tree)@,
        !e.created && !e.self_deleted && !e.modified && !e.write_closed ==> a is Ignore
            && final(tree)@ == old(tree)@,
{
    if e.created {
        match tree.resolve(e.wd, e.name.as_slice()) {
            Some(path) => {
                if e.is_dir {
                    EventAction::GrowAndNotify { path }
                } else {
                    EventAction::Notify { path, is_dir: e.is_dir }
                }
            },
            None => EventAction::Ignore,
        }
    } else if e.self_deleted {
        match tree.retire(e.wd) {
            Some(path) => EventAction::Retired { path },
            None => EventAction::Ignore,
        }
    } else if e.modified || e.write_closed {
        match tree.resolve(e.wd, e.name.as_slice()) {
            Some(path) => EventAction::Notify { path, is_dir: e.is_dir },
            None => EventAction::Ignore,
        }
    } else {
        EventAction::Ignore
    }
}

} // verus!
