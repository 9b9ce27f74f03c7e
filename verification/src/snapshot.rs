//! Snapshots of VM state: metadata and the files that hold them.
//!
//! The metadata of a snapshot is kept as JSON beside the file of the VM state.

use vstd::prelude::*;

use crate::catalog::{self, Dated, FileRead, FileWrite};
use crate::path::{self, FilePath};
use crate::protocol::VmId;
use crate::text;

verus! {

#[derive(Debug, Clone, PartialEq, Eq)]
pub enum SnapshotError {
    NotFound(String),
    SaveFailed(String),
    RestoreFailed(String),
    Io(String),
    Json(String),
}

impl SnapshotError {
    /// The message of this error.
    pub open spec fn message(self) -> Seq<char> {
        match self {
            SnapshotError::NotFound(what) => "snapshot not found: "@ + what@,
            SnapshotError::SaveFailed(what) => "save failed: "@ + what@,
            SnapshotError::RestoreFailed(what) => "restore failed: "@ + what@,
            SnapshotError::Io(what) => "IO error: "@ + what@,
            SnapshotError::Json(what) => "JSON error: "@ + what@,
        }
    }

    /// The error as text.
    pub fn to_string(&self) -> (message: String)
        ensures
            message@ == self.message(),
    {
        match self {
            SnapshotError::NotFound(what) => text::concat("snapshot not found: ", what.as_str()),
            SnapshotError::SaveFailed(what) => text::concat("save failed: ", what.as_str()),
            SnapshotError::RestoreFailed(what) => text::concat("restore failed: ", what.as_str()),
            SnapshotError::Io(what) => text::concat("IO error: ", what.as_str()),
            SnapshotError::Json(what) => text::concat("JSON error: ", what.as_str()),
        }
    }
}

/// Snapshot metadata.
#[derive(Debug, PartialEq, Eq)]
pub struct SnapshotMetadata {
    /// Snapshot name (unique identifier).
    pub name: String,
    /// VM ID this snapshot was taken from.
    pub vm_id: VmId,
    /// Image reference at time of snapshot.
    pub image: String,
    /// Creation timestamp (unix ms).
    pub created_at: u64,
    /// Size in bytes (of the .vmstate file).
    pub size: u64,
}

impl Clone for SnapshotMetadata {
    fn clone(&self) -> (metadata: SnapshotMetadata)
        ensures
            metadata == *self,
    {
        SnapshotMetadata {
            name: self.name.clone(),
            vm_id: self.vm_id.clone(),
            image: self.image.clone(),
            created_at: self.created_at,
            size: self.size,
        }
    }
}

impl Dated for SnapshotMetadata {
    open spec fn date(&self) -> u64 {
        self.created_at
    }

    fn created(&self) -> (date: u64) {
        self.created_at
    }
}

/// The file of the metadata of a snapshot.
pub open spec fn metadata_path_of(root: Seq<u8>, name: Seq<char>) -> Seq<u8> {
    path::joined(root, path::utf8(name + ".json"@))
}

/// The file of the VM state of a snapshot.
pub open spec fn vmstate_path_of(root: Seq<u8>, name: Seq<char>) -> Seq<u8> {
    path::joined(root, path::utf8(name + ".vmstate"@))
}

/// The answer to a request for the metadata of a snapshot, given what came of reading its metadata file.
pub open spec fn answers_get(
    name: Seq<char>,
    read: FileRead<SnapshotMetadata>,
    answer: Result<SnapshotMetadata, SnapshotError>,
) -> bool {
    match (read, answer) {
        (FileRead::Missing, Err(SnapshotError::NotFound(what))) => what@ == name,
        (FileRead::Unreadable(reason), Err(SnapshotError::Io(what))) => what == reason,
        (FileRead::Malformed(reason), Err(SnapshotError::Json(what))) => what == reason,
        (FileRead::Found(metadata), Ok(answer)) => answer == metadata,
        _ => false,
    }
}

/// The answer to a request to restore a snapshot: the file to restore from, where both the metadata and
/// the VM state are there.
pub open spec fn answers_restore(
    root: Seq<u8>,
    name: Seq<char>,
    read: FileRead<SnapshotMetadata>,
    vmstate_exists: bool,
    answer: Result<Seq<u8>, SnapshotError>,
) -> bool {
    match answer {
        Ok(path) => read is Found && vmstate_exists && path == vmstate_path_of(root, name),
        Err(error) => {
            ||| answers_get(name, read, Err(error))
            ||| {
                &&& read is Found
                &&& !vmstate_exists
                &&& error matches SnapshotError::RestoreFailed(what)
                &&& what@ == "vmstate file not found: "@ + text::utf8_lossy(vmstate_path_of(root, name))
                &&& vstd::utf8::valid_utf8(vmstate_path_of(root, name)) ==> what@
                    == "vmstate file not found: "@ + vstd::utf8::decode_utf8(
                    vmstate_path_of(root, name),
                )
            }
        },
    }
}

/// Snapshot storage and management.
#[derive(Debug)]
pub struct SnapshotStore {
    root: FilePath,
}

impl View for SnapshotStore {
    type V = Seq<u8>;

    /// The directory of the store.
    closed spec fn view(&self) -> Seq<u8> {
        self.root@
    }
}

impl SnapshotStore {
    pub fn new(root: FilePath) -> (store: SnapshotStore)
        ensures
            store@ == root@,
    {
        SnapshotStore { root }
    }

    pub fn root(&self) -> (root: &FilePath)
        ensures
            root@ == self@,
    {
        &self.root
    }

    pub fn metadata_path(&self, name: &str) -> (path: FilePath)
        ensures
            path@ == metadata_path_of(self@, name@),
    {
        self.root.join(text::concat(name, ".json").as_str())
    }

    pub fn vmstate_path(&self, name: &str) -> (path: FilePath)
        ensures
            path@ == vmstate_path_of(self@, name@),
    {
        self.root.join(text::concat(name, ".vmstate").as_str())
    }

    /// List all snapshots, given what came of reading the metadata files (none where the directory of the
    /// store is missing).
    pub fn list(&self, reads: Vec<Result<Option<SnapshotMetadata>, String>>) -> (listing: Result<
        Vec<SnapshotMetadata>,
        SnapshotError,
    >)
        ensures
            match listing {
                Ok(listed) => catalog::lists(reads@, Ok(listed@)),
                Err(SnapshotError::Io(reason)) => catalog::lists(reads@, Err(reason)),
                Err(_) => false,
            },
    {
        match catalog::list_by_date(reads) {
            Ok(listed) => Ok(listed),
            Err(reason) => Err(SnapshotError::Io(reason)),
        }
    }

    /// Get snapshot metadata by name, given what came of reading its metadata file.
    pub fn get(&self, name: &str, read: FileRead<SnapshotMetadata>) -> (answer: Result<
        SnapshotMetadata,
        SnapshotError,
    >)
        ensures
            answers_get(name@, read, answer),
    {
        match read {
            FileRead::Missing => Err(SnapshotError::NotFound(name.to_owned())),
            FileRead::Unreadable(reason) => Err(SnapshotError::Io(reason)),
            FileRead::Malformed(reason) => Err(SnapshotError::Json(reason)),
            FileRead::Found(metadata) => Ok(metadata),
        }
    }

    /// The metadata of a snapshot that is saved at a time, given the size of the file of the VM state:
    /// `None` where there is no such file, which counts as a size of 0, or an error where it could not be
    /// looked at. Saving the VM state itself is up to the virtualization framework.
    pub fn save(
        &self,
        vm_id: &VmId,
        name: &str,
        image: &str,
        vmstate_size: Result<Option<u64>, String>,
        now: u64,
    ) -> (saved: Result<SnapshotMetadata, SnapshotError>)
        ensures
            match saved {
                Ok(metadata) => {
                    &&& metadata.name@ == name@
                    &&& metadata.vm_id == *vm_id
                    &&& metadata.image@ == image@
                    &&& metadata.created_at == now
                    &&& match vmstate_size {
                        Ok(Some(size)) => metadata.size == size,
                        Ok(None) => metadata.size == 0,
                        Err(_) => false,
                    }
                },
                Err(SnapshotError::Io(reason)) => vmstate_size == Err::<Option<u64>, String>(reason),
                Err(_) => false,
            },
    {
        let size: u64 = match vmstate_size {
            Ok(Some(size)) => size,
            Ok(None) => 0,
            Err(reason) => {
                return Err(SnapshotError::Io(reason));
            },
        };
        Ok(
            SnapshotMetadata {
                name: name.to_owned(),
                vm_id: vm_id.clone(),
                image: image.to_owned(),
                created_at: now,
                size,
            },
        )
    }

    /// The file to write to save snapshot metadata, given its JSON text (or why it has none).
    pub fn metadata_file(&self, metadata: &SnapshotMetadata, json: Result<String, String>) -> (plan:
        Result<FileWrite, SnapshotError>)
        ensures
            match plan {
                Ok(write) => {
                    &&& json == Ok::<String, String>(write.data)
                    &&& write.path@ == metadata_path_of(self@, metadata.name@)
                },
                Err(SnapshotError::Json(reason)) => json == Err::<String, String>(reason),
                Err(_) => false,
            },
    {
        match json {
            Ok(data) => Ok(FileWrite { path: self.metadata_path(metadata.name.as_str()), data }),
            Err(reason) => Err(SnapshotError::Json(reason)),
        }
    }

    /// The file of the VM state to restore a snapshot from, given what came of reading its metadata file
    /// and whether the file of the VM state exists. Restoring the VM state itself is up to the
    /// virtualization framework.
    pub fn restore(&self, name: &str, read: FileRead<SnapshotMetadata>, vmstate_exists: bool) -> (answer:
        Result<FilePath, SnapshotError>)
        ensures
            match answer {
                Ok(path) => answers_restore(self@, name@, read, vmstate_exists, Ok(path@)),
                Err(error) => answers_restore(self@, name@, read, vmstate_exists, Err(error)),
            },
    {
        match self.get(name, read) {
            Ok(_) => {},
            Err(error) => {
                return Err(error);
            },
        }
        let path = self.vmstate_path(name);
        if !vmstate_exists {
            return Err(
                SnapshotError::RestoreFailed(
                    text::concat("vmstate file not found: ", path.display().as_str()),
                ),
            );
        }
        Ok(path)
    }

    /// The files to remove to delete a snapshot, the metadata before the VM state, given which of them
    /// exist.
    pub fn delete(&self, name: &str, metadata_exists: bool, vmstate_exists: bool) -> (removed: Vec<FilePath>)
        ensures
            removed@.map_values(|path: FilePath| path@) == (if metadata_exists {
                seq![metadata_path_of(self@, name@)]
            } else {
                Seq::empty()
            }) + (if vmstate_exists {
                seq![vmstate_path_of(self@, name@)]
            } else {
                Seq::empty()
            }),
    {
        let mut removed: Vec<FilePath> = Vec::new();
        if metadata_exists {
            removed.push(self.metadata_path(name));
        }
        if vmstate_exists {
            removed.push(self.vmstate_path(name));
        }
        assert(removed@.map_values(|path: FilePath| path@) =~= (if metadata_exists {
            seq![metadata_path_of(self@, name@)]
        } else {
            Seq::empty()
        }) + (if vmstate_exists {
            seq![vmstate_path_of(self@, name@)]
        } else {
            Seq::empty()
        }));
        removed
    }
}

/// A path ends in what the name that was joined last ends in.
proof fn lemma_joined_last(root: Seq<u8>, name: Seq<u8>)
    requires
        name.len() > 0,
    ensures
        path::joined(root, name).len() > 0,
        path::joined(root, name).last() == name.last(),
{
}

/// No file holds both metadata and VM state, of whatever snapshots.
pub proof fn lemma_paths_apart(root: Seq<u8>, name: Seq<char>, other: Seq<char>)
    ensures
        metadata_path_of(root, name) != vmstate_path_of(root, other),
{
    reveal_strlit(".json");
    reveal_strlit(".vmstate");
    let json = name + ".json"@;
    let vmstate = other + ".vmstate"@;
    assert(json.last() == 'n');
    assert(vmstate.last() == 'e');
    path::lemma_last_byte(json);
    path::lemma_last_byte(vmstate);
    lemma_joined_last(root, path::utf8(json));
    lemma_joined_last(root, path::utf8(vmstate));
}

/// Snapshots with different names have different files, where no name is an absolute path.
pub proof fn lemma_paths_injective(root: Seq<u8>, name: Seq<char>, other: Seq<char>)
    requires
        name != other,
        name.len() > 0 ==> name[0] != '/',
        other.len() > 0 ==> other[0] != '/',
    ensures
        metadata_path_of(root, name) != metadata_path_of(root, other),
        vmstate_path_of(root, name) != vmstate_path_of(root, other),
{
    reveal_strlit(".json");
    reveal_strlit(".vmstate");
    lemma_joined_injective(root, name, other, ".json"@);
    lemma_joined_injective(root, name, other, ".vmstate"@);
}

proof fn lemma_joined_injective(root: Seq<u8>, name: Seq<char>, other: Seq<char>, ending: Seq<char>)
    requires
        name != other,
        ending.len() > 0,
        ending[0] != '/',
        name.len() > 0 ==> name[0] != '/',
        other.len() > 0 ==> other[0] != '/',
    ensures
        path::joined(root, path::utf8(name + ending)) != path::joined(root, path::utf8(other + ending)),
{
    let x = path::utf8(name + ending);
    let y = path::utf8(other + ending);
    path::lemma_absolute_text(name + ending);
    path::lemma_absolute_text(other + ending);
    let a = path::joined(root, x);
    let b = path::joined(root, y);
    let head: int = if root.len() == 0 || root.last() == path::SLASH {
        root.len() as int
    } else {
        root.len() as int + 1
    };
    assert(a.skip(head) =~= x);
    assert(b.skip(head) =~= y);
    if a == b {
        path::lemma_utf8_injective(name + ending, other + ending);
        assert((name + ending).len() == (other + ending).len());
        assert(name =~= (name + ending).take(name.len() as int));
        assert(other =~= (other + ending).take(other.len() as int));
    }
}

/// The metadata files on disk, by path.
pub type MetadataFiles = Map<Seq<u8>, SnapshotMetadata>;

/// What reading a file gives.
pub open spec fn read_of(files: MetadataFiles, path: Seq<u8>) -> FileRead<SnapshotMetadata> {
    if files.dom().contains(path) {
        FileRead::Found(files[path])
    } else {
        FileRead::Missing
    }
}

/// What was saved last under a name is what a request for it is answered; after it was deleted the answer
/// is that there is no such snapshot. Saving and deleting leave the answers for names with another metadata
/// file as they were.
pub proof fn lemma_store_keeps_metadata(
    root: Seq<u8>,
    files: MetadataFiles,
    metadata: SnapshotMetadata,
    other: Seq<char>,
    answer: Result<SnapshotMetadata, SnapshotError>,
)
    ensures
        ({
            let path = metadata_path_of(root, metadata.name@);
            let saved = files.insert(path, metadata);
            let deleted = files.remove(path);
            let elsewhere = metadata_path_of(root, other);
            &&& answers_get(metadata.name@, read_of(saved, path), answer) <==> answer == Ok::<
                SnapshotMetadata,
                SnapshotError,
            >(metadata)
            &&& answers_get(metadata.name@, read_of(deleted, path), answer) ==> (answer matches Err(
                SnapshotError::NotFound(what),
            ) && what@ == metadata.name@)
            &&& elsewhere != path ==> read_of(saved, elsewhere) == read_of(files, elsewhere)
            &&& elsewhere != path ==> read_of(deleted, elsewhere) == read_of(files, elsewhere)
        }),
{
}

/// The message of an error is made of words that depend on its kind alone, followed by the reason.
pub proof fn lemma_messages_end_in_the_reason(a: String, b: String)
    ensures
        text::led_alike(SnapshotError::NotFound(a).message(), a@, SnapshotError::NotFound(b).message(), b@),
        text::led_alike(
            SnapshotError::SaveFailed(a).message(),
            a@,
            SnapshotError::SaveFailed(b).message(),
            b@,
        ),
        text::led_alike(
            SnapshotError::RestoreFailed(a).message(),
            a@,
            SnapshotError::RestoreFailed(b).message(),
            b@,
        ),
        text::led_alike(SnapshotError::Io(a).message(), a@, SnapshotError::Io(b).message(), b@),
        text::led_alike(SnapshotError::Json(a).message(), a@, SnapshotError::Json(b).message(), b@),
{
    let not_found = "snapshot not found: "@;
    assert(SnapshotError::NotFound(a).message() == not_found + a@);
    let save_failed = "save failed: "@;
    assert(SnapshotError::SaveFailed(a).message() == save_failed + a@);
    let restore_failed = "restore failed: "@;
    assert(SnapshotError::RestoreFailed(a).message() == restore_failed + a@);
    let io = "IO error: "@;
    assert(SnapshotError::Io(a).message() == io + a@);
    let json = "JSON error: "@;
    assert(SnapshotError::Json(a).message() == json + a@);
}

/// A request for a snapshot is answered with metadata exactly where its file holds some, and then with that.
/// A snapshot without a file is not found, by its name; a file that could not be read or is malformed is
/// reported as such, with the reason.
pub proof fn lemma_get_answers_what_was_read(
    store: &SnapshotStore,
    name: &str,
    read: FileRead<SnapshotMetadata>,
    answer: Result<SnapshotMetadata, SnapshotError>,
)
    requires
        call_ensures(SnapshotStore::get, (store, name, read), answer),
    ensures
        answer matches Ok(metadata) ==> read == FileRead::Found(metadata),
        read matches FileRead::Found(metadata) ==> answer == Ok::<SnapshotMetadata, SnapshotError>(metadata),
        read is Missing <==> (answer matches Err(error) && error is NotFound),
        answer matches Err(SnapshotError::NotFound(what)) ==> what@ == name@,
        read matches FileRead::Unreadable(reason) ==> answer == Err::<SnapshotMetadata, SnapshotError>(
            SnapshotError::Io(reason),
        ),
        read matches FileRead::Malformed(reason) ==> answer == Err::<SnapshotMetadata, SnapshotError>(
            SnapshotError::Json(reason),
        ),
{
}

/// A snapshot can be restored exactly where its metadata was read and the file of its VM state is there, and
/// it is that file that it is restored from. Where the metadata was not read, restoring fails as a request
/// for the metadata does; where only the VM state is missing, it fails with the path of that file.
pub proof fn lemma_restore_takes_both_files(
    store: &SnapshotStore,
    name: &str,
    read: FileRead<SnapshotMetadata>,
    vmstate_exists: bool,
    answer: Result<FilePath, SnapshotError>,
    got: Result<SnapshotMetadata, SnapshotError>,
    vmstate: FilePath,
)
    requires
        call_ensures(SnapshotStore::restore, (store, name, read, vmstate_exists), answer),
        call_ensures(SnapshotStore::get, (store, name, read), got),
        call_ensures(SnapshotStore::vmstate_path, (store, name), vmstate),
    ensures
        answer is Ok <==> got is Ok && vmstate_exists,
        answer matches Ok(path) ==> path@ == vmstate@,
        answer matches Err(error) ==> (got matches Err(reason) ==> error.message() == reason.message()),
        answer matches Err(error) ==> (got is Ok ==> (error matches SnapshotError::RestoreFailed(what) && (
        vstd::utf8::valid_utf8(vmstate@) ==> {
            let shown = vstd::utf8::decode_utf8(vmstate@);
            what@.len() >= shown.len() && what@.skip(what@.len() - shown.len()) == shown
        }))),
{
    let shown = vstd::utf8::decode_utf8(vmstate@);
    let what = "vmstate file not found: "@ + shown;
    assert(what.skip(what.len() - shown.len()) =~= shown);
}

/// What is saved of a snapshot is what was given: the VM, the name, the image and the time, and the size of
/// the file of the VM state, or zero where there is none. It fails exactly where that file could not be
/// looked at, with the reason.
pub proof fn lemma_save_records_what_was_given(
    store: &SnapshotStore,
    vm_id: VmId,
    name: &str,
    image: &str,
    vmstate_size: Result<Option<u64>, String>,
    now: u64,
    saved: Result<SnapshotMetadata, SnapshotError>,
)
    requires
        call_ensures(SnapshotStore::save, (store, &vm_id, name, image, vmstate_size, now), saved),
    ensures
        saved is Ok <==> vmstate_size is Ok,
        saved matches Ok(metadata) ==> {
            &&& metadata.vm_id@ == vm_id@
            &&& metadata.name@ == name@
            &&& metadata.image@ == image@
            &&& metadata.created_at == now
            &&& vmstate_size is Ok && metadata.size == vmstate_size->Ok_0.unwrap_or(0)
        },
        vmstate_size matches Err(reason) ==> saved == Err::<SnapshotMetadata, SnapshotError>(
            SnapshotError::Io(reason),
        ),
{
}

/// Saving metadata writes the very file that a request for the snapshot reads, with the JSON text that was
/// given; deleting the snapshot removes this file and that of the VM state, each where it is there, and no
/// other.
pub proof fn lemma_delete_removes_what_was_saved(
    store: &SnapshotStore,
    metadata: SnapshotMetadata,
    json: Result<String, String>,
    plan: Result<FileWrite, SnapshotError>,
    name: &str,
    read_path: FilePath,
    vmstate: FilePath,
    metadata_exists: bool,
    vmstate_exists: bool,
    removed: Vec<FilePath>,
)
    requires
        call_ensures(SnapshotStore::metadata_file, (store, &metadata, json), plan),
        name@ == metadata.name@,
        call_ensures(SnapshotStore::metadata_path, (store, name), read_path),
        call_ensures(SnapshotStore::vmstate_path, (store, name), vmstate),
        call_ensures(SnapshotStore::delete, (store, name, metadata_exists, vmstate_exists), removed),
    ensures
        plan is Ok <==> json is Ok,
        plan matches Ok(write) ==> write.path@ == read_path@ && json == Ok::<String, String>(write.data),
        plan matches Err(error) ==> (error matches SnapshotError::Json(reason) && json
            == Err::<String, String>(reason)),
        metadata_exists <==> exists|i: int|
            0 <= i < removed@.len() && (#[trigger] removed@[i])@ == read_path@,
        vmstate_exists <==> exists|i: int|
            0 <= i < removed@.len() && (#[trigger] removed@[i])@ == vmstate@,
        removed@.len() <= 2,
        forall|i: int|
            0 <= i < removed@.len() ==> (#[trigger] removed@[i])@ == read_path@ || removed@[i]@ == vmstate@,
{
    let paths = removed@.map_values(|path: FilePath| path@);
    lemma_paths_apart(store@, name@, name@);
    assert(paths.len() == removed@.len());
    assert forall|i: int| 0 <= i < removed@.len() implies (#[trigger] removed@[i])@ == paths[i] by {}
    if metadata_exists {
        assert(removed@[0]@ == read_path@);
    }
    if vmstate_exists {
        assert(removed@[paths.len() - 1]@ == vmstate@);
    }
}

/// The files of a snapshot stand below the store, where its name is not absolute, and that of its metadata
/// counts as one that holds metadata.
pub proof fn lemma_files_stand_in_the_store(root: Seq<u8>, name: Seq<char>)
    requires
        name.len() > 0,
        name[0] != '/',
    ensures
        root.is_prefix_of(metadata_path_of(root, name)),
        root.is_prefix_of(vmstate_path_of(root, name)),
        path::utf8(name + ".json"@).is_suffix_of(metadata_path_of(root, name)),
        path::utf8(name + ".vmstate"@).is_suffix_of(vmstate_path_of(root, name)),
        catalog::has_json_extension(path::utf8(name + ".json"@)),
{
    catalog::lemma_json_files_are_found(name);
    lemma_joined_ends(root, name + ".json"@);
    lemma_joined_ends(root, name + ".vmstate"@);
}

proof fn lemma_joined_ends(root: Seq<u8>, name: Seq<char>)
    requires
        name.len() > 0,
        name[0] != '/',
    ensures
        root.is_prefix_of(path::joined(root, path::utf8(name))),
        path::utf8(name).is_suffix_of(path::joined(root, path::utf8(name))),
{
    path::lemma_absolute_text(name);
    let bytes = path::utf8(name);
    let whole = path::joined(root, bytes);
    assert(root =~= whole.subrange(0, root.len() as int));
    assert(bytes =~= whole.subrange(whole.len() - bytes.len(), whole.len() as int));
}

/// Snapshots are listed by the time when they were made; all of them that were found, and nothing else. The
/// listing fails exactly where a file could not be read.
pub proof fn lemma_snapshots_are_listed_by_time(
    store: &SnapshotStore,
    reads: Vec<Result<Option<SnapshotMetadata>, String>>,
    listing: Result<Vec<SnapshotMetadata>, SnapshotError>,
)
    requires
        call_ensures(SnapshotStore::list, (store, reads), listing),
    ensures
        listing matches Ok(listed) ==> {
            &&& forall|i: int, j: int|
                0 <= i < j < listed@.len() ==> (#[trigger] listed@[i]).created_at <= (
                #[trigger] listed@[j]).created_at
            &&& listed@.to_multiset() == catalog::found_in(reads@).to_multiset()
        },
        listing is Ok <==> forall|i: int| 0 <= i < reads@.len() ==> #[trigger] reads@[i] is Ok,
{
    catalog::lemma_first_failure(reads@);
    if let Ok(listed) = listing {
        catalog::lemma_listing_is_complete(catalog::found_in(reads@), listed@);
        assert forall|i: int, j: int| 0 <= i < j < listed@.len() implies (#[trigger] listed@[i]).created_at
            <= (#[trigger] listed@[j]).created_at by {
            assert(listed@[i].date() <= listed@[j].date());
        }
    }
}

} // verus!
