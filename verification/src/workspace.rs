//! Workspaces: named directories, one of which may be active, and the order in which a
//! workspace's files are listed. Touching the files themselves happens outside the
//! library.

use vstd::prelude::*;
use crate::clock::{new_uuid, now_timestamp, MAX_TIMESTAMP};
use crate::error::AppError;
use crate::rbac::lists_map;
use crate::store::{record_entries, update_fn, Record, RecordUpdate, Store};
use crate::text::{
    concat3, lemma_seq_lt_total, lemma_seq_lt_transitive, remove_char, seq_lt, str_lt, str_to_string, without_char,
};

verus! {

broadcast use vstd::seq_lib::to_multiset_insert;

/// A workspace.
#[derive(Debug)]
pub struct Workspace {
    pub id: String,
    pub name: String,
    pub root_path: String,
    pub active: bool,
    pub created_at: i64,
}

/// The value of a workspace.
pub struct WorkspaceView {
    pub id: Seq<char>,
    pub name: Seq<char>,
    pub root_path: Seq<char>,
    pub active: bool,
    pub created_at: i64,
}

impl View for Workspace {
    type V = WorkspaceView;

    open spec fn view(&self) -> WorkspaceView {
        WorkspaceView {
            id: self.id@,
            name: self.name@,
            root_path: self.root_path@,
            active: self.active,
            created_at: self.created_at,
        }
    }
}

impl Record for Workspace {
    open spec fn key_of(v: WorkspaceView) -> Seq<char> {
        v.id
    }

    fn key(&self) -> (r: &str) {
        self.id.as_str()
    }

    fn duplicate(&self) -> (r: Self) {
        Workspace {
            id: self.id.clone(),
            name: self.name.clone(),
            root_path: self.root_path.clone(),
            active: self.active,
            created_at: self.created_at,
        }
    }
}

/// An entry of a workspace directory.
#[derive(Debug)]
pub struct FileEntry {
    pub name: String,
    pub path: String,
    pub is_dir: bool,
    pub size: u64,
    pub modified: i64,
}

/// The value of a directory entry.
pub struct FileEntryView {
    pub name: Seq<char>,
    pub path: Seq<char>,
    pub is_dir: bool,
    pub size: u64,
    pub modified: i64,
}

impl View for FileEntry {
    type V = FileEntryView;

    open spec fn view(&self) -> FileEntryView {
        FileEntryView { name: self.name@, path: self.path@, is_dir: self.is_dir, size: self.size, modified: self.modified }
    }
}

/// The views of some directory entries.
pub open spec fn entry_views(v: Seq<FileEntry>) -> Seq<FileEntryView> {
    v.map_values(|e: FileEntry| e@)
}

/// Whether entry `a` is listed before entry `b`: directories first, then by name.
pub open spec fn entry_before(a: FileEntryView, b: FileEntryView) -> bool {
    (a.is_dir && !b.is_dir) || (a.is_dir == b.is_dir && seq_lt(a.name, b.name))
}

/// Entries in listing order.
pub open spec fn listing_order(v: Seq<FileEntryView>) -> bool {
    forall|a: int, b: int| 0 <= a < b < v.len() ==> !entry_before(#[trigger] v[b], #[trigger] v[a])
}

proof fn lemma_entry_before_transitive(a: FileEntryView, b: FileEntryView, c: FileEntryView)
    requires
        entry_before(a, b),
        entry_before(b, c),
    ensures
        entry_before(a, c),
{
    if a.is_dir == b.is_dir && b.is_dir == c.is_dir {
        lemma_seq_lt_transitive(a.name, b.name, c.name);
    }
}

fn before(a: &FileEntry, b: &FileEntry) -> (r: bool)
    ensures
        r == entry_before(a@, b@),
{
    (a.is_dir && !b.is_dir) || (a.is_dir == b.is_dir && str_lt(a.name.as_str(), b.name.as_str()))
}

/// The entries in listing order: directories first, then by name.
pub fn sort_file_entries(entries: Vec<FileEntry>) -> (r: Vec<FileEntry>)
    ensures
        listing_order(entry_views(r@)),
        entry_views(r@).to_multiset() == entry_views(entries@).to_multiset(),
        r@.len() == entries@.len(),
{
    let ghost ev = entry_views(entries@);
    let mut rest = entries;
    let mut out: Vec<FileEntry> = Vec::new();
    let ghost n = ev.len();
    proof {
        assert(entry_views(rest@) =~= ev.skip(0));
        assert(ev.take(0) =~= Seq::<FileEntryView>::empty());
        assert(entry_views(out@) =~= Seq::<FileEntryView>::empty());
    }
    while rest.len() > 0
        invariant
            n == ev.len(),
            out@.len() + rest@.len() == n,
            entry_views(rest@) == ev.skip(out@.len() as int),
            listing_order(entry_views(out@)),
            entry_views(out@).to_multiset() == ev.take(out@.len() as int).to_multiset(),
        decreases rest.len(),
    {
        let ghost i = out@.len() as int;
        let ghost ov = entry_views(out@);
        let ghost before_rest = rest@;
        let x = rest.remove(0);
        let ghost xv = x@;
        proof {
            assert(entry_views(before_rest)[0] == ev.skip(i)[0]);
            assert(xv == ev[i]);
            assert forall|k: int| 0 <= k < rest@.len() implies #[trigger] entry_views(rest@)[k] == ev.skip(i + 1)[k] by {
                assert(rest@[k] == before_rest[k + 1]);
                assert(entry_views(before_rest)[k + 1] == ev.skip(i)[k + 1]);
            }
            assert(entry_views(rest@) =~= ev.skip(i + 1));
        }
        let mut p: usize = 0;
        while p < out.len() && !before(&x, &out[p])
            invariant
                p <= out@.len(),
                ov == entry_views(out@),
                xv == x@,
                forall|k: int| 0 <= k < p ==> !entry_before(xv, #[trigger] ov[k]),
            decreases out.len() - p,
        {
            assert(ov[p as int] == out@[p as int]@);
            p = p + 1;
        }
        proof {
            assert forall|k: int| p < k < ov.len() implies !entry_before(#[trigger] ov[k], xv) by {
                assert(ov[p as int] == out@[p as int]@);
                assert(entry_before(xv, ov[p as int]));
                if entry_before(ov[k], xv) {
                    lemma_entry_before_transitive(ov[k], xv, ov[p as int]);
                }
            }
            if p < ov.len() {
                assert(ov[p as int] == out@[p as int]@);
                assert(entry_before(xv, ov[p as int]));
                lemma_seq_lt_total(xv.name, ov[p as int].name);
            }
        }
        out.insert(p, x);
        proof {
            let nv = entry_views(out@);
            assert(nv =~= ov.insert(p as int, xv));
            assert forall|a: int, b: int| 0 <= a < b < nv.len() implies !entry_before(#[trigger] nv[b], #[trigger] nv[a]) by {
                if a < p && b < p {
                    assert(nv[a] == ov[a] && nv[b] == ov[b]);
                } else if a < p && b == p {
                    assert(nv[a] == ov[a]);
                    if entry_before(xv, ov[a]) {
                    }
                } else if a < p {
                    assert(nv[a] == ov[a] && nv[b] == ov[b - 1]);
                } else if a == p {
                    assert(nv[b] == ov[b - 1]);
                    if b - 1 == p {
                        assert(entry_before(xv, ov[p as int]));
                        lemma_seq_lt_total(xv.name, ov[p as int].name);
                    }
                } else {
                    assert(nv[a] == ov[a - 1] && nv[b] == ov[b - 1]);
                }
            }
            assert(ev.take(i + 1) =~= ev.take(i).push(xv));
            assert(ev.take(i).push(xv) =~= ev.take(i).insert(i, xv));
        }
    }
    proof {
        assert(ev.take(n as int) =~= ev);
    }
    out
}

/// Switching a workspace off.
pub struct Deactivate;

impl RecordUpdate<Workspace> for Deactivate {
    open spec fn apply(&self, v: WorkspaceView) -> WorkspaceView {
        WorkspaceView { active: false, ..v }
    }

    fn run(&self, r: Workspace) -> (out: Workspace) {
        let mut r = r;
        r.active = false;
        r
    }
}

/// Every workspace switched off.
pub open spec fn all_inactive(m: Map<Seq<char>, WorkspaceView>) -> Map<Seq<char>, WorkspaceView> {
    m.map_values(|v: WorkspaceView| WorkspaceView { active: false, ..v })
}

/// The id a workspace gets from a random UUID: `ws_` and the UUID without its dashes.
pub open spec fn workspace_id(uuid: Seq<char>) -> Seq<char> {
    "ws_"@ + remove_char(uuid, '-')
}

/// Workspaces by id, and the one that is active, if any.
pub struct WorkspaceManager {
    workspaces: Store<Workspace>,
    active_workspace: Option<String>,
}

impl WorkspaceManager {
    /// The workspaces, by id.
    pub closed spec fn workspaces_view(&self) -> Map<Seq<char>, WorkspaceView> {
        self.workspaces.view_map()
    }

    /// The id of the active workspace, if one was made active.
    pub closed spec fn active_view(&self) -> Option<Seq<char>> {
        match self.active_workspace {
            Some(s) => Some(s@),
            None => None,
        }
    }

    /// The manager's invariant: each id is held once.
    pub closed spec fn wf(&self) -> bool {
        self.workspaces.wf()
    }

    /// No workspaces, none active.
    pub fn new() -> (r: Self)
        ensures
            r.wf(),
            r.workspaces_view() == Map::<Seq<char>, WorkspaceView>::empty(),
            r.active_view() is None,
    {
        WorkspaceManager { workspaces: Store::new(), active_workspace: None }
    }

    /// Registers the workspace `name` rooted at `root_path` (whose directory exists), with
    /// the id made from `uuid`, at `now`, inactive, and returns it.
    pub fn create_workspace_at(&mut self, name: &str, root_path: &str, uuid: &str, now: i64) -> (r: Result<Workspace, AppError>)
        requires
            old(self).wf(),
        ensures
            final(self).wf(),
            final(self).active_view() == old(self).active_view(),
            r is Ok,
            match r {
                Ok(w) => w@ == (WorkspaceView { id: workspace_id(uuid@), name: name@, root_path: root_path@, active: false, created_at: now })
                    && final(self).workspaces_view() == old(self).workspaces_view().insert(w@.id, w@),
                Err(_) => false,
            },
    {
        let tail = without_char(uuid, '-');
        let id = concat3("ws_", tail.as_str(), "");
        proof {
            reveal_strlit("");
            assert(id@ =~= workspace_id(uuid@));
        }
        let w = Workspace {
            id,
            name: str_to_string(name),
            root_path: str_to_string(root_path),
            active: false,
            created_at: now,
        };
        let copy = w.duplicate();
        self.workspaces.insert(w);
        Ok(copy)
    }

    /// Registers the workspace `name` rooted at `root_path` (whose directory exists), with
    /// an id made from a fresh random UUID, now, inactive, and returns it.
    pub fn create_workspace(&mut self, name: &str, root_path: &str) -> (r: Result<Workspace, AppError>)
        requires
            old(self).wf(),
        ensures
            final(self).wf(),
            final(self).active_view() == old(self).active_view(),
            r is Ok,
            match r {
                Ok(w) => w@.created_at < MAX_TIMESTAMP && w@.name == name@ && w@.root_path == root_path@ && !w@.active
                    && final(self).workspaces_view() == old(self).workspaces_view().insert(w@.id, w@),
                Err(_) => false,
            },
    {
        let uuid = new_uuid();
        let now = now_timestamp();
        self.create_workspace_at(name, root_path, uuid.as_str(), now)
    }

    /// Makes the workspace `workspace_id` the only active one and returns it; `NotFound`
    /// when there is none, in which case every workspace has still been switched off.
    pub fn set_active(&mut self, workspace_id: &str) -> (r: Result<Workspace, AppError>)
        requires
            old(self).wf(),
        ensures
            final(self).wf(),
            r is Ok <==> old(self).workspaces_view().dom().contains(workspace_id@),
            match r {
                Ok(w) => w@ == (WorkspaceView { active: true, ..old(self).workspaces_view()[workspace_id@] })
                    && final(self).workspaces_view() == all_inactive(old(self).workspaces_view()).insert(workspace_id@, w@)
                    && final(self).active_view() == Some(workspace_id@),
                Err(e) => e is NotFound && e.message() == "Workspace "@ + workspace_id@ + " not found"@
                    && final(self).workspaces_view() == all_inactive(old(self).workspaces_view())
                    && final(self).active_view() == old(self).active_view(),
            },
    {
        let d = Deactivate;
        self.workspaces.update_each(&d);
        assert(self.workspaces_view() =~= all_inactive(old(self).workspaces_view())) by {
            assert(update_fn::<Workspace, Deactivate>(&d) =~= (|v: WorkspaceView| WorkspaceView { active: false, ..v }));
        }
        match self.workspaces.get_copy(workspace_id) {
            Some(mut w) => {
                w.active = true;
                let copy = w.duplicate();
                self.workspaces.insert(w);
                self.active_workspace = Some(str_to_string(workspace_id));
                Ok(copy)
            },
            None => Err(AppError::NotFound(concat3("Workspace ", workspace_id, " not found"))),
        }
    }

    /// The active workspace, if one was made active and is still there.
    pub fn get_active(&self) -> (r: Option<Workspace>)
        requires
            self.wf(),
        ensures
            match self.active_view() {
                Some(id) => match r {
                    Some(w) => self.workspaces_view().dom().contains(id) && w@ == self.workspaces_view()[id],
                    None => !self.workspaces_view().dom().contains(id),
                },
                None => r is None,
            },
    {
        match &self.active_workspace {
            Some(id) => self.workspaces.get_copy(id.as_str()),
            None => None,
        }
    }

    /// The workspace `workspace_id`, if there is one.
    pub fn get_workspace(&self, workspace_id: &str) -> (r: Option<Workspace>)
        requires
            self.wf(),
        ensures
            match r {
                Some(w) => self.workspaces_view().dom().contains(workspace_id@) && w@ == self.workspaces_view()[workspace_id@],
                None => !self.workspaces_view().dom().contains(workspace_id@),
            },
    {
        self.workspaces.get_copy(workspace_id)
    }

    /// The root directory of the workspace `workspace_id`; `NotFound` when there is none.
    pub fn root_of(&self, workspace_id: &str) -> (r: Result<String, AppError>)
        requires
            self.wf(),
        ensures
            r is Ok <==> self.workspaces_view().dom().contains(workspace_id@),
            match r {
                Ok(p) => p@ == self.workspaces_view()[workspace_id@].root_path,
                Err(e) => e is NotFound && e.message() == "Workspace "@ + workspace_id@ + " not found"@,
            },
    {
        match self.workspaces.get(workspace_id) {
            Some(w) => Ok(w.root_path.clone()),
            None => Err(AppError::NotFound(concat3("Workspace ", workspace_id, " not found"))),
        }
    }

    /// Every workspace, once each.
    pub fn list_workspaces(&self) -> (r: Vec<Workspace>)
        requires
            self.wf(),
        ensures
            lists_map(record_entries(r@).map_values(|e: (Seq<char>, WorkspaceView)| e.0), r@.map_values(|x: Workspace| x@), self.workspaces_view()),
    {
        self.workspaces.values()
    }

    /// Removes the workspace `workspace_id`; whether there was one. When it was active,
    /// no workspace is active any more.
    pub fn delete_workspace(&mut self, workspace_id: &str) -> (r: Result<bool, AppError>)
        requires
            old(self).wf(),
        ensures
            final(self).wf(),
            r == Ok::<bool, AppError>(old(self).workspaces_view().dom().contains(workspace_id@)),
            final(self).workspaces_view() == old(self).workspaces_view().remove(workspace_id@),
            final(self).active_view() == if old(self).workspaces_view().dom().contains(workspace_id@)
                && old(self).workspaces_view()[workspace_id@].active {
                None
            } else {
                old(self).active_view()
            },
    {
        let was_active = match self.workspaces.get(workspace_id) {
            Some(w) => w.active,
            None => false,
        };
        if was_active {
            self.active_workspace = None;
        }
        let removed = self.workspaces.remove(workspace_id);
        Ok(removed.is_some())
    }
}

/// After a workspace is made active it is the only active one: every other workspace is
/// inactive.
pub proof fn law_one_active_workspace(m: Map<Seq<char>, WorkspaceView>, id: Seq<char>, w: WorkspaceView, other: Seq<char>)
    requires
        w.active,
        other != id,
    ensures
        all_inactive(m).insert(id, w)[id].active,
        all_inactive(m).insert(id, w).dom().contains(other) ==> !all_inactive(m).insert(id, w)[other].active,
{
}

} // verus!
