//! Uploaded files: the record of each upload and where it is stored. Writing, reading
//! and removing the stored bytes happen outside the library.

use vstd::prelude::*;
use crate::clock::{new_uuid, now_timestamp, MAX_TIMESTAMP};
use crate::constants::{join, join_path};
use crate::rbac::lists_map;
use crate::store::{record_entries, Record, Store};
use crate::text::{concat3, push_str, str_to_string};

verus! {

/// An uploaded file.
#[derive(Debug)]
pub struct UploadFile {
    pub id: String,
    pub original_name: String,
    pub stored_name: String,
    pub mime_type: String,
    pub size: u64,
    pub created_at: i64,
}

/// The value of an uploaded file.
pub struct UploadView {
    pub id: Seq<char>,
    pub original_name: Seq<char>,
    pub stored_name: Seq<char>,
    pub mime_type: Seq<char>,
    pub size: u64,
    pub created_at: i64,
}

impl View for UploadFile {
    type V = UploadView;

    open spec fn view(&self) -> UploadView {
        UploadView {
            id: self.id@,
            original_name: self.original_name@,
            stored_name: self.stored_name@,
            mime_type: self.mime_type@,
            size: self.size,
            created_at: self.created_at,
        }
    }
}

impl Record for UploadFile {
    open spec fn key_of(v: UploadView) -> Seq<char> {
        v.id
    }

    fn key(&self) -> (r: &str) {
        self.id.as_str()
    }

    fn duplicate(&self) -> (r: Self) {
        UploadFile {
            id: self.id.clone(),
            original_name: self.original_name.clone(),
            stored_name: self.stored_name.clone(),
            mime_type: self.mime_type.clone(),
            size: self.size,
            created_at: self.created_at,
        }
    }
}

/// The extension std's `Path::extension` finds in a file name or path (what follows the
/// last `.` of its last component, under the rules that page of std's documentation
/// gives).
pub uninterp spec fn path_extension(name: Seq<char>) -> Option<Seq<char>>;

/// std's `Path::new(name).extension()`, as text. Its result is named `path_extension` of
/// the name; nothing more is claimed of it.
#[verifier::external_body]
fn extension_of(name: &str) -> (r: Option<String>)
    ensures
        match r {
            Some(e) => path_extension(name@) == Some(e@),
            None => path_extension(name@) is None,
        },
{
    std::path::Path::new(name).extension().and_then(|e| e.to_str()).map(|e| e.to_string())
}

/// The name a file is stored under: its id, `. ` and its extension (`bin` when it has
/// none).
pub open spec fn stored_name_of(id: Seq<char>, original_name: Seq<char>) -> Seq<char> {
    id + ". "@ + match path_extension(original_name) { Some(e) => e, None => "bin"@ }
}

/// The name the file `original_name` uploaded under `id` is stored under.
pub fn stored_name_for(id: &str, original_name: &str) -> (r: String)
    ensures
        r@ == stored_name_of(id@, original_name@),
{
    let ext = extension_of(original_name);
    let mut s = concat3(id, ". ", "");
    proof {
        reveal_strlit("");
    }
    match ext {
        Some(e) => push_str(&mut s, e.as_str()),
        None => push_str(&mut s, "bin"),
    }
    s
}

/// The upload directory and the uploads in it, by id.
pub struct UploadManager {
    upload_dir: String,
    files: Store<UploadFile>,
}

impl UploadManager {
    /// The uploads, by id.
    pub closed spec fn files_view(&self) -> Map<Seq<char>, UploadView> {
        self.files.view_map()
    }

    /// The upload directory.
    pub closed spec fn dir(&self) -> Seq<char> {
        self.upload_dir@
    }

    /// The manager's invariant: each id is held once.
    pub closed spec fn wf(&self) -> bool {
        self.files.wf()
    }

    /// No uploads, in the directory `upload_dir` (which the caller has made).
    pub fn new(upload_dir: String) -> (r: Self)
        ensures
            r.wf(),
            r.files_view() == Map::<Seq<char>, UploadView>::empty(),
            r.dir() == upload_dir@,
    {
        UploadManager { upload_dir, files: Store::new() }
    }

    /// Records the upload of `original_name`, `size` bytes of `mime_type`, under `id` at
    /// `now`, and returns the record; the caller writes the bytes to its path.
    pub fn save_file_as(&mut self, original_name: &str, size: u64, mime_type: &str, id: String, now: i64) -> (r: UploadFile)
        requires
            old(self).wf(),
        ensures
            final(self).wf(),
            final(self).dir() == old(self).dir(),
            r@ == (UploadView {
                id: id@,
                original_name: original_name@,
                stored_name: stored_name_of(id@, original_name@),
                mime_type: mime_type@,
                size,
                created_at: now,
            }),
            final(self).files_view() == old(self).files_view().insert(id@, r@),
    {
        let stored = stored_name_for(id.as_str(), original_name);
        let f = UploadFile {
            id,
            original_name: str_to_string(original_name),
            stored_name: stored,
            mime_type: str_to_string(mime_type),
            size,
            created_at: now,
        };
        let copy = f.duplicate();
        self.files.insert(f);
        copy
    }

    /// Records the upload of `original_name` under a fresh random id, now; see
    /// `save_file_as`.
    pub fn save_file(&mut self, original_name: &str, size: u64, mime_type: &str) -> (r: UploadFile)
        requires
            old(self).wf(),
        ensures
            final(self).wf(),
            final(self).dir() == old(self).dir(),
            r@.created_at < MAX_TIMESTAMP,
            r@ == (UploadView {
                id: r@.id,
                original_name: original_name@,
                stored_name: stored_name_of(r@.id, original_name@),
                mime_type: mime_type@,
                size,
                created_at: r@.created_at,
            }),
            final(self).files_view() == old(self).files_view().insert(r@.id, r@),
    {
        let id = new_uuid();
        let now = now_timestamp();
        self.save_file_as(original_name, size, mime_type, id, now)
    }

    /// The upload `file_id`, if there is one.
    pub fn get_file(&self, file_id: &str) -> (r: Option<UploadFile>)
        requires
            self.wf(),
        ensures
            match r {
                Some(f) => self.files_view().dom().contains(file_id@) && f@ == self.files_view()[file_id@],
                None => !self.files_view().dom().contains(file_id@),
            },
    {
        self.files.get_copy(file_id)
    }

    /// Where the upload `file_id` is stored, if there is one.
    pub fn get_file_path(&self, file_id: &str) -> (r: Option<String>)
        requires
            self.wf(),
        ensures
            match r {
                Some(p) => self.files_view().dom().contains(file_id@)
                    && p@ == join_path(self.dir(), self.files_view()[file_id@].stored_name),
                None => !self.files_view().dom().contains(file_id@),
            },
    {
        match self.files.get(file_id) {
            Some(f) => Some(join(self.upload_dir.as_str(), f.stored_name.as_str())),
            None => None,
        }
    }

    /// Forgets the upload `file_id` (the caller removes its bytes); whether there was one.
    pub fn delete_file(&mut self, file_id: &str) -> (r: bool)
        requires
            old(self).wf(),
        ensures
            final(self).wf(),
            final(self).dir() == old(self).dir(),
            r == old(self).files_view().dom().contains(file_id@),
            final(self).files_view() == old(self).files_view().remove(file_id@),
    {
        self.files.remove(file_id).is_some()
    }

    /// Every upload, once each.
    pub fn list_files(&self) -> (r: Vec<UploadFile>)
        requires
            self.wf(),
        ensures
            lists_map(record_entries(r@).map_values(|e: (Seq<char>, UploadView)| e.0), r@.map_values(|x: UploadFile| x@), self.files_view()),
    {
        self.files.values()
    }

    /// The upload directory.
    pub fn get_upload_dir(&self) -> (r: &str)
        ensures
            r@ == self.dir(),
    {
        self.upload_dir.as_str()
    }
}

} // verus!
