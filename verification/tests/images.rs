use std::collections::HashMap;

use vm_pool::catalog::{is_metadata_file, FileRead, FileWrite};
use vm_pool::images::{
    failed_build, hex_digest, BuildOutcome, ImageError, ImageMetadata, ImageRef, ImageStore, ImageType,
};
use vm_pool::path::FilePath;

/// Metadata files by path, in place of a disk.
struct Disk {
    files: HashMap<FilePath, ImageMetadata>,
    order: Vec<FilePath>,
}

impl Disk {
    fn new() -> Disk {
        Disk { files: HashMap::new(), order: Vec::new() }
    }

    fn save(&mut self, store: &ImageStore, metadata: &ImageMetadata) {
        let write = store.save_metadata(metadata, Ok("{}".to_string())).unwrap();
        if self.files.insert(write.path.clone(), metadata.clone()).is_none() {
            self.order.push(write.path);
        }
    }

    fn read(&self, path: &FilePath) -> FileRead<ImageMetadata> {
        match self.files.get(path) {
            Some(metadata) => FileRead::Found(metadata.clone()),
            None => FileRead::Missing,
        }
    }

    fn get(&self, store: &ImageStore, image_ref: &ImageRef) -> Result<ImageMetadata, ImageError> {
        store.get(image_ref, self.read(&store.metadata_path(image_ref)))
    }

    fn list(&self, store: &ImageStore) -> Result<Vec<ImageMetadata>, ImageError> {
        store.list(self.order.iter().map(|path| Ok(self.files.get(path).cloned())).collect())
    }

    fn delete(&mut self, store: &ImageStore, image_ref: &ImageRef) {
        let exists = self.files.contains_key(&store.metadata_path(image_ref));
        if let Some(path) = store.delete(image_ref, exists) {
            self.files.remove(&path);
            self.order.retain(|p| *p != path);
        }
    }
}

fn metadata(name: &str, version: &str, size: u64, created_at: u64) -> ImageMetadata {
    ImageMetadata {
        image_ref: ImageRef::new(name, version),
        image_type: ImageType::Agent,
        digest: "sha256:x".into(),
        size,
        created_at,
    }
}

#[test]
fn image_ref_parse_valid() {
    let r = ImageRef::parse("agent:v1.0.0").unwrap();
    assert_eq!(r.name, "agent");
    assert_eq!(r.version, "v1.0.0");
}

#[test]
fn image_ref_parse_no_colon() {
    assert!(ImageRef::parse("agent").is_none());
}

#[test]
fn image_ref_parse_empty_parts() {
    assert!(ImageRef::parse(":v1").is_none());
    assert!(ImageRef::parse("agent:").is_none());
}

#[test]
fn image_ref_parse_splits_at_the_first_colon() {
    let r = ImageRef::parse("registry:5000/agent:v1").unwrap();
    assert_eq!(r.name, "registry");
    assert_eq!(r.version, "5000/agent:v1");
    assert_eq!(r.to_string(), "registry:5000/agent:v1");
    assert!(ImageRef::parse(":").is_none());
    assert!(ImageRef::parse("").is_none());
    assert_eq!(ImageRef::parse("\u{e4}:\u{fc}").unwrap(), ImageRef::new("\u{e4}", "\u{fc}"));
}

#[test]
fn image_ref_text_parses_back() {
    let r = ImageRef::new("agent", "sha256:abc");
    assert_eq!(ImageRef::parse(&r.to_string()), Some(r));
}

#[test]
fn image_ref_display() {
    let r = ImageRef::new("agent", "v1.0.0");
    assert_eq!(r.to_string(), "agent:v1.0.0");
}

#[test]
fn image_ref_image_type() {
    assert_eq!(ImageRef::new("agent", "v1").image_type(), Some(ImageType::Agent));
    assert_eq!(ImageRef::new("base", "v1").image_type(), Some(ImageType::Base));
    assert_eq!(ImageRef::new("automation", "v1").image_type(), Some(ImageType::Automation));
    assert_eq!(ImageRef::new("custom", "v1").image_type(), None);
}

#[test]
fn image_type_roundtrip() {
    for ty in [ImageType::Base, ImageType::Agent, ImageType::Automation] {
        let name = ty.name();
        let parsed = ImageType::from_name(name).unwrap();
        assert_eq!(parsed, ty);
    }
    assert_eq!(ImageType::from_name("Base"), None);
    assert_eq!(ImageType::from_name(""), None);
}

#[test]
fn image_type_display() {
    assert_eq!(ImageType::Agent.to_string(), "agent");
    assert_eq!(ImageType::Base.to_string(), "base");
    assert_eq!(ImageType::Automation.to_string(), "automation");
}

#[test]
fn image_store_init_and_list_empty() {
    let store = ImageStore::new("/images".into());
    let images = Disk::new().list(&store).unwrap();
    assert!(images.is_empty());
    assert_eq!(store.root(), &FilePath::from("/images"));
    assert_eq!(store.metadata_dir(), "/images/metadata".into());
}

#[test]
fn image_store_save_and_get() {
    let store = ImageStore::new("/images".into());
    let mut disk = Disk::new();
    let meta = ImageMetadata {
        image_ref: ImageRef::new("agent", "v1.0.0"),
        image_type: ImageType::Agent,
        digest: "sha256:abc".into(),
        size: 512,
        created_at: 100,
    };
    disk.save(&store, &meta);
    let loaded = disk.get(&store, &ImageRef::new("agent", "v1.0.0")).unwrap();
    assert_eq!(loaded.image_ref, meta.image_ref);
    assert_eq!(loaded.size, 512);
}

#[test]
fn image_store_list_multiple() {
    let store = ImageStore::new("/images".into());
    let mut disk = Disk::new();
    for (name, version, ts) in [("agent", "v1", 200), ("auto", "v2", 100)] {
        disk.save(&store, &metadata(name, version, 0, ts));
    }
    let list = disk.list(&store).unwrap();
    assert_eq!(list.len(), 2);
    assert_eq!(list[0].created_at, 100);
    assert_eq!(list[1].created_at, 200);
}

#[test]
fn image_store_list_keeps_the_order_of_equal_dates() {
    let store = ImageStore::new("/images".into());
    let read = |name: &str, ts: u64| Ok(Some(metadata(name, "v1", 0, ts)));
    let list = store
        .list(vec![read("a", 2), read("b", 1), Ok(None), read("c", 2), read("d", 1), read("e", 3)])
        .unwrap();
    let names: Vec<&str> = list.iter().map(|m| m.image_ref.name.as_str()).collect();
    assert_eq!(names, vec!["b", "d", "a", "c", "e"]);
}

#[test]
fn image_store_list_reports_the_first_read_error() {
    let store = ImageStore::new("/images".into());
    let listing = store.list(vec![
        Ok(Some(metadata("a", "v1", 0, 1))),
        Err("first".to_string()),
        Err("second".to_string()),
    ]);
    assert_eq!(listing, Err(ImageError::Io("first".to_string())));
}

#[test]
fn image_store_delete() {
    let store = ImageStore::new("/images".into());
    let mut disk = Disk::new();
    let image_ref = ImageRef::new("agent", "v1");
    disk.save(&store, &metadata("agent", "v1", 0, 0));
    disk.save(&store, &metadata("agent", "v2", 0, 0));
    assert!(disk.get(&store, &image_ref).is_ok());
    disk.delete(&store, &image_ref);
    assert!(disk.get(&store, &image_ref).is_err());
    assert!(disk.get(&store, &ImageRef::new("agent", "v2")).is_ok());
    assert_eq!(store.delete(&image_ref, false), None);
}

#[test]
fn image_store_get_not_found() {
    let store = ImageStore::new("/images".into());
    let result = Disk::new().get(&store, &ImageRef::new("nope", "v1"));
    assert!(matches!(result, Err(ImageError::NotFound(_))));
    assert_eq!(result.unwrap_err().to_string(), "image not found: nope:v1");
}

#[test]
fn image_store_get_unreadable_and_malformed() {
    let store = ImageStore::new("/images".into());
    let image_ref = ImageRef::new("agent", "v1");
    assert_eq!(
        store.get(&image_ref, FileRead::Unreadable("denied".into())),
        Err(ImageError::Io("denied".into()))
    );
    assert_eq!(
        store.get(&image_ref, FileRead::Malformed("expected value".into())),
        Err(ImageError::NotFound("expected value".into()))
    );
}

#[test]
fn image_store_metadata_path() {
    let store = ImageStore::new("/images/".into());
    assert_eq!(
        store.metadata_path(&ImageRef::new("agent", "v1.0.0")),
        FilePath::new("/images/metadata/agent_v1.0.0.json")
    );
    assert_eq!(
        store.save_metadata(&metadata("agent", "v1", 0, 0), Ok("{}".into())),
        Ok(FileWrite { path: "/images/metadata/agent_v1.json".into(), data: "{}".into() })
    );
    assert_eq!(
        store.save_metadata(&metadata("agent", "v1", 0, 0), Err("no".into())),
        Err(ImageError::Io("no".into()))
    );
}

#[test]
fn metadata_files_end_in_json() {
    assert!(is_metadata_file(b"agent_v1.json"));
    assert!(is_metadata_file(b"..json"));
    assert!(is_metadata_file(b"\xff.json"));
    assert!(!is_metadata_file(b".json"));
    assert!(!is_metadata_file(b"snap.vmstate"));
    assert!(!is_metadata_file(b"json"));
    assert!(!is_metadata_file(b"agent.JSON"));
}

#[test]
fn hex_digest_is_fnv_1a() {
    assert_eq!(hex_digest(""), "cbf29ce484222325");
    assert_eq!(hex_digest("a"), "af63dc4c8601ec8c");
    assert_eq!(hex_digest("foobar"), "85944171f73967e8");
}

#[test]
fn image_build_succeeds() {
    let store = ImageStore::new("/images".into());
    assert_eq!(
        store.build_args(ImageType::Base, "v2"),
        vec!["build", "--tag", "vm-pool-base:v2", "."]
    );
    let outcome = BuildOutcome::Finished { success: true, stderr: b"warning".to_vec() };
    let built = store.build(ImageType::Base, "v2", outcome, 77).unwrap();
    assert_eq!(built.image_ref, ImageRef::new("base", "v2"));
    assert_eq!(built.image_type, ImageType::Base);
    assert_eq!(built.digest, format!("sha256:{}", hex_digest("vm-pool-base:v2")));
    assert_eq!(built.size, 0);
    assert_eq!(built.created_at, 77);
    assert_eq!(built.image_ref.image_type(), Some(ImageType::Base));
}

#[test]
fn image_build_fails() {
    let store = ImageStore::new("/images".into());
    let not_run = store.build(ImageType::Base, "v2", BuildOutcome::NotRun("no such file".into()), 1);
    assert_eq!(
        not_run,
        Err(ImageError::BuildFailed("failed to run container build: no such file".into()))
    );
    let outcome = BuildOutcome::Finished { success: false, stderr: vec![b'b', 0xff, b'd'] };
    let failed = store.build(ImageType::Base, "v2", outcome, 1).unwrap_err();
    assert_eq!(failed, failed_build("b\u{fffd}d"));
    assert_eq!(failed.to_string(), "build failed: container build failed: b\u{fffd}d");
}

#[test]
fn image_error_texts() {
    assert_eq!(ImageError::InvalidRef("x".into()).to_string(), "invalid image reference: x");
    assert_eq!(ImageError::Io("x".into()).to_string(), "IO error: x");
}
