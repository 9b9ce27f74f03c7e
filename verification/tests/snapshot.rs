use std::collections::{HashMap, HashSet};

use vm_pool::catalog::{FileRead, FileWrite};
use vm_pool::path::FilePath;
use vm_pool::protocol::VmId;
use vm_pool::snapshot::{SnapshotError, SnapshotMetadata, SnapshotStore};

/// The files of a store, in place of a disk.
struct Disk {
    store: SnapshotStore,
    metadata: HashMap<FilePath, SnapshotMetadata>,
    others: HashSet<FilePath>,
    now: u64,
}

impl Disk {
    fn new() -> Disk {
        Disk {
            store: SnapshotStore::new("/snapshots".into()),
            metadata: HashMap::new(),
            others: HashSet::new(),
            now: 100,
        }
    }

    fn read(&self, name: &str) -> FileRead<SnapshotMetadata> {
        match self.metadata.get(&self.store.metadata_path(name)) {
            Some(metadata) => FileRead::Found(metadata.clone()),
            None => FileRead::Missing,
        }
    }

    fn save(&mut self, vm_id: &VmId, name: &str, image: &str) -> SnapshotMetadata {
        self.now += 5;
        let size = self.others.get(&self.store.vmstate_path(name)).map(|_| 10);
        let saved = self.store.save(vm_id, name, image, Ok(size), self.now).unwrap();
        let write = self.store.metadata_file(&saved, Ok("{}".to_string())).unwrap();
        self.metadata.insert(write.path, saved.clone());
        saved
    }

    fn get(&self, name: &str) -> Result<SnapshotMetadata, SnapshotError> {
        self.store.get(name, self.read(name))
    }

    fn list(&self) -> Vec<SnapshotMetadata> {
        self.store.list(self.metadata.values().map(|m| Ok(Some(m.clone()))).collect()).unwrap()
    }

    fn restore(&self, name: &str) -> Result<FilePath, SnapshotError> {
        let exists = self.others.contains(&self.store.vmstate_path(name));
        self.store.restore(name, self.read(name), exists)
    }

    fn is_there(&self, name: &str) -> bool {
        self.metadata.contains_key(&self.store.metadata_path(name))
    }

    fn delete(&mut self, name: &str) {
        let vmstate = self.others.contains(&self.store.vmstate_path(name));
        for path in self.store.delete(name, self.is_there(name), vmstate) {
            assert!(self.metadata.remove(&path).is_some() || self.others.remove(&path));
        }
    }
}

#[test]
fn list_empty() {
    assert!(Disk::new().list().is_empty());
}

#[test]
fn save_and_get() {
    let mut disk = Disk::new();
    let vm_id = VmId::new("vm-1");

    let meta = disk.save(&vm_id, "clean-state", "agent:v1.0.0");
    assert_eq!(meta.name, "clean-state");
    assert_eq!(meta.vm_id, vm_id);
    assert_eq!(meta.image, "agent:v1.0.0");
    assert_eq!(meta.size, 0);
    assert_eq!(meta.created_at, 105);

    let loaded = disk.get("clean-state").unwrap();
    assert_eq!(loaded.name, "clean-state");
    assert_eq!(loaded.vm_id, vm_id);
}

#[test]
fn get_not_found() {
    let result = Disk::new().get("nonexistent");
    assert!(matches!(result, Err(SnapshotError::NotFound(_))));
    assert_eq!(result.unwrap_err().to_string(), "snapshot not found: nonexistent");
}

#[test]
fn get_unreadable_and_malformed() {
    let store = SnapshotStore::new("/snapshots".into());
    assert_eq!(
        store.get("a", FileRead::Unreadable("denied".into())),
        Err(SnapshotError::Io("denied".into()))
    );
    assert_eq!(
        store.get("a", FileRead::Malformed("eof".into())),
        Err(SnapshotError::Json("eof".into()))
    );
}

#[test]
fn list_multiple_sorted_by_time() {
    let mut disk = Disk::new();
    let vm_id = VmId::new("vm-1");
    disk.save(&vm_id, "snap-a", "agent:v1");
    disk.save(&vm_id, "snap-b", "agent:v1");

    let list = disk.list();
    assert_eq!(list.len(), 2);
    assert!(list[0].created_at <= list[1].created_at);
    assert_eq!(list[0].name, "snap-a");
}

#[test]
fn list_reports_read_errors() {
    let store = SnapshotStore::new("/snapshots".into());
    assert_eq!(
        store.list(vec![Ok(None), Err("denied".into())]),
        Err(SnapshotError::Io("denied".into()))
    );
    assert_eq!(store.list(vec![Ok(None)]), Ok(vec![]));
}

#[test]
fn delete_removes_metadata() {
    let mut disk = Disk::new();
    let vm_id = VmId::new("vm-1");
    disk.save(&vm_id, "to-delete", "agent:v1");
    disk.save(&vm_id, "to-keep", "agent:v1");
    assert!(disk.is_there("to-delete"));

    disk.delete("to-delete");
    assert!(!disk.is_there("to-delete"));
    assert!(disk.get("to-delete").is_err());
    assert!(disk.get("to-keep").is_ok());
}

#[test]
fn delete_removes_vmstate_file() {
    let mut disk = Disk::new();
    let vm_id = VmId::new("vm-1");
    disk.save(&vm_id, "snap", "agent:v1");
    let vmstate = FilePath::new("/snapshots/snap.vmstate");
    disk.others.insert(vmstate.clone());

    disk.delete("snap");
    assert!(!disk.others.contains(&vmstate));
    let store = SnapshotStore::new("/snapshots".into());
    assert_eq!(
        store.delete("snap", true, true),
        vec![FilePath::new("/snapshots/snap.json"), FilePath::new("/snapshots/snap.vmstate")]
    );
    assert!(store.delete("snap", false, false).is_empty());
}

#[test]
fn restore_requires_vmstate_file() {
    let mut disk = Disk::new();
    let vm_id = VmId::new("vm-1");
    disk.save(&vm_id, "snap", "agent:v1");

    let result = disk.restore("snap");
    assert!(matches!(result, Err(SnapshotError::RestoreFailed(_))));
    assert_eq!(
        result.unwrap_err().to_string(),
        "restore failed: vmstate file not found: /snapshots/snap.vmstate"
    );
}

#[test]
fn stores_keep_paths_that_are_not_text() {
    let root = FilePath::from_bytes(b"/home/\xff".to_vec());
    let store = SnapshotStore::new(root);
    assert_eq!(store.metadata_path("snap").as_bytes(), b"/home/\xff/snap.json");
    let saved = store.save(&VmId::new("vm-1"), "snap", "agent:v1", Ok(None), 1).unwrap();
    let result = store.restore("snap", FileRead::Found(saved), false);
    assert_eq!(
        result.unwrap_err().to_string(),
        "restore failed: vmstate file not found: /home/\u{fffd}/snap.vmstate"
    );
}

#[test]
fn restore_requires_metadata() {
    let mut disk = Disk::new();
    disk.others.insert(FilePath::new("/snapshots/snap.vmstate"));
    assert_eq!(disk.restore("snap"), Err(SnapshotError::NotFound("snap".into())));
}

#[test]
fn restore_with_vmstate_returns_path() {
    let mut disk = Disk::new();
    let vm_id = VmId::new("vm-1");
    disk.save(&vm_id, "snap", "agent:v1");
    let vmstate = FilePath::new("/snapshots/snap.vmstate");
    disk.others.insert(vmstate.clone());

    let path = disk.restore("snap").unwrap();
    assert_eq!(path, vmstate);
}

#[test]
fn save_takes_the_size_of_the_vmstate_file() {
    let mut disk = Disk::new();
    disk.others.insert(FilePath::new("/snapshots/snap.vmstate"));
    assert_eq!(disk.save(&VmId::new("vm-1"), "snap", "agent:v1").size, 10);
    let store = SnapshotStore::new("/snapshots".into());
    assert_eq!(
        store.save(&VmId::new("vm-1"), "snap", "agent:v1", Err("denied".into()), 1),
        Err(SnapshotError::Io("denied".into()))
    );
}

#[test]
fn metadata_is_written_beside_the_vmstate_file() {
    let store = SnapshotStore::new("/snapshots".into());
    assert_eq!(store.root(), &FilePath::new("/snapshots"));
    let saved = store.save(&VmId::new("vm-1"), "snap", "agent:v1", Ok(None), 1).unwrap();
    assert_eq!(
        store.metadata_file(&saved, Ok("{}".into())),
        Ok(FileWrite { path: "/snapshots/snap.json".into(), data: "{}".into() })
    );
    assert_eq!(
        store.metadata_file(&saved, Err("no".into())),
        Err(SnapshotError::Json("no".into()))
    );
    assert_ne!(store.metadata_path("a"), store.metadata_path("b"));
    // An absolute name stands for itself, so two names can share a file.
    assert_eq!(store.metadata_path("/snapshots/a"), store.metadata_path("a"));
}

#[test]
fn snapshot_error_texts() {
    assert_eq!(SnapshotError::SaveFailed("x".into()).to_string(), "save failed: x");
    assert_eq!(SnapshotError::Io("x".into()).to_string(), "IO error: x");
    assert_eq!(SnapshotError::Json("x".into()).to_string(), "JSON error: x");
}
