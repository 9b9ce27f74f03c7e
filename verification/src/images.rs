//! Image management: types, versioning, metadata of local images.

use vstd::prelude::*;

use crate::catalog::{self, Dated, FileRead, FileWrite};
use crate::path::{self, FilePath};
use crate::text;

verus! {

#[derive(Debug, Clone, PartialEq, Eq)]
pub enum ImageError {
    NotFound(String),
    BuildFailed(String),
    InvalidRef(String),
    Io(String),
}

impl ImageError {
    /// The message of this error.
    pub open spec fn message(self) -> Seq<char> {
        match self {
            ImageError::NotFound(what) => "image not found: "@ + what@,
            ImageError::BuildFailed(what) => "build failed: "@ + what@,
            ImageError::InvalidRef(what) => "invalid image reference: "@ + what@,
            ImageError::Io(what) => "IO error: "@ + what@,
        }
    }

    /// The error as text.
    pub fn to_string(&self) -> (message: String)
        ensures
            message@ == self.message(),
    {
        match self {
            ImageError::NotFound(what) => text::concat("image not found: ", what.as_str()),
            ImageError::BuildFailed(what) => text::concat("build failed: ", what.as_str()),
            ImageError::InvalidRef(what) => text::concat("invalid image reference: ", what.as_str()),
            ImageError::Io(what) => text::concat("IO error: ", what.as_str()),
        }
    }
}

/// Known image types.
#[derive(Debug, Clone, Copy, PartialEq, Eq, Hash, Structural)]
pub enum ImageType {
    /// Base image with common tooling.
    Base,
    /// Agent image with dev tools.
    Agent,
    /// Automation image for headless tasks.
    Automation,
}

impl ImageType {
    /// The name of this type.
    pub open spec fn spec_name(self) -> Seq<char> {
        match self {
            ImageType::Base => "base"@,
            ImageType::Agent => "agent"@,
            ImageType::Automation => "automation"@,
        }
    }

    /// The type that has a name, if one has it.
    pub open spec fn named(name: Seq<char>) -> Option<ImageType> {
        if name == "base"@ {
            Some(ImageType::Base)
        } else if name == "agent"@ {
            Some(ImageType::Agent)
        } else if name == "automation"@ {
            Some(ImageType::Automation)
        } else {
            None
        }
    }

    pub fn name(&self) -> (name: &'static str)
        ensures
            name@ == self.spec_name(),
    {
        match self {
            ImageType::Base => "base",
            ImageType::Agent => "agent",
            ImageType::Automation => "automation",
        }
    }

    /// Try to parse an image type from a string.
    pub fn from_name(s: &str) -> (image_type: Option<ImageType>)
        ensures
            image_type == ImageType::named(s@),
    {
        if text::same_text(s, "base") {
            Some(ImageType::Base)
        } else if text::same_text(s, "agent") {
            Some(ImageType::Agent)
        } else if text::same_text(s, "automation") {
            Some(ImageType::Automation)
        } else {
            None
        }
    }

    /// The type as text.
    pub fn to_string(&self) -> (name: String)
        ensures
            name@ == self.spec_name(),
    {
        self.name().to_owned()
    }
}

/// A type is found again by its name, and by no other name.
pub proof fn lemma_image_type_roundtrip(image_type: ImageType, name: Seq<char>)
    ensures
        ImageType::named(name) == Some(image_type) <==> name == image_type.spec_name(),
{
    reveal_strlit("base");
    reveal_strlit("agent");
    reveal_strlit("automation");
    assert("base"@.len() != "agent"@.len());
    assert("agent"@.len() != "automation"@.len());
    assert("base"@.len() != "automation"@.len());
}

/// Reference to an image (name + version).
#[derive(Debug, PartialEq, Eq, Hash)]
pub struct ImageRef {
    /// Image name (e.g., "agent").
    pub name: String,
    /// Version tag (e.g., "v1.2.3") or digest.
    pub version: String,
}

impl Clone for ImageRef {
    fn clone(&self) -> (image_ref: ImageRef)
        ensures
            image_ref == *self,
    {
        ImageRef { name: self.name.clone(), version: self.version.clone() }
    }
}

impl View for ImageRef {
    type V = (Seq<char>, Seq<char>);

    /// The name and the version.
    open spec fn view(&self) -> (Seq<char>, Seq<char>) {
        (self.name@, self.version@)
    }
}

/// The text of a reference with this name and version.
pub open spec fn ref_text(name: Seq<char>, version: Seq<char>) -> Seq<char> {
    name.push(':') + version
}

/// The name and the version in the text of a reference: what stands before and behind the first colon. It
/// is no reference where there is no colon, or nothing on one of its sides.
pub open spec fn parsed_ref(s: Seq<char>) -> Option<(Seq<char>, Seq<char>)> {
    let at = text::first_of(s, ':');
    if 0 < at < s.len() - 1 {
        Some((s.take(at), s.skip(at + 1)))
    } else {
        None
    }
}

impl ImageRef {
    pub fn new(name: &str, version: &str) -> (image_ref: ImageRef)
        ensures
            image_ref@ == (name@, version@),
    {
        ImageRef { name: name.to_owned(), version: version.to_owned() }
    }

    /// Parse from "name:version" format.
    pub fn parse(s: &str) -> (image_ref: Option<ImageRef>)
        ensures
            match image_ref {
                Some(r) => parsed_ref(s@) == Some(r@),
                None => parsed_ref(s@) is None,
            },
    {
        match text::find_char(s, ':') {
            Some(at) => {
                let n = s.unicode_len();
                if at == 0 || at + 1 == n {
                    return None;
                }
                let name = s.substring_char(0, at);
                let version = s.substring_char(at + 1, n);
                assert(name@ =~= s@.take(at as int));
                assert(version@ =~= s@.skip(at + 1));
                Some(ImageRef::new(name, version))
            },
            None => None,
        }
    }

    /// Infer image type from the name, if it matches a known type.
    pub fn image_type(&self) -> (image_type: Option<ImageType>)
        ensures
            image_type == ImageType::named(self.name@),
    {
        ImageType::from_name(self.name.as_str())
    }

    /// The reference as text: the name, a colon and the version.
    pub fn to_string(&self) -> (s: String)
        ensures
            s@ == ref_text(self.name@, self.version@),
    {
        proof {
            reveal_strlit(":");
        }
        let mut s = self.name.clone();
        s.append(":");
        s.append(self.version.as_str());
        assert(s@ =~= ref_text(self.name@, self.version@));
        s
    }
}

/// Parsing the text of a reference gives its name and version, where neither is empty and the name holds
/// no colon.
pub proof fn lemma_ref_text_parses(name: Seq<char>, version: Seq<char>)
    requires
        name.len() > 0,
        version.len() > 0,
        !name.contains(':'),
    ensures
        parsed_ref(ref_text(name, version)) == Some((name, version)),
{
    let s = ref_text(name, version);
    let at = text::first_of(s, ':');
    text::lemma_first_of(s, ':');
    assert(s[name.len() as int] == ':');
    if at < name.len() {
        assert(name[at] == ':');
    }
    assert(at == name.len());
    assert(s.take(at) =~= name);
    assert(s.skip(at + 1) =~= version);
}

/// What parses is the text of the reference that it parses to.
pub proof fn lemma_parsed_ref_text(s: Seq<char>)
    ensures
        parsed_ref(s) matches Some((name, version)) ==> s == ref_text(name, version),
{
    text::lemma_first_of(s, ':');
    if let Some((name, version)) = parsed_ref(s) {
        assert(s =~= ref_text(name, version));
    }
}

/// Image metadata.
#[derive(Debug, PartialEq, Eq)]
pub struct ImageMetadata {
    pub image_ref: ImageRef,
    pub image_type: ImageType,
    /// Content digest.
    pub digest: String,
    /// Size in bytes.
    pub size: u64,
    /// Build timestamp (unix ms).
    pub created_at: u64,
}

impl Clone for ImageMetadata {
    fn clone(&self) -> (metadata: ImageMetadata)
        ensures
            metadata == *self,
    {
        ImageMetadata {
            image_ref: self.image_ref.clone(),
            image_type: self.image_type,
            digest: self.digest.clone(),
            size: self.size,
            created_at: self.created_at,
        }
    }
}

impl Dated for ImageMetadata {
    open spec fn date(&self) -> u64 {
        self.created_at
    }

    fn created(&self) -> (date: u64) {
        self.created_at
    }
}

/// What came of running `container build`.
#[derive(Debug, Clone, PartialEq, Eq)]
pub enum BuildOutcome {
    /// The program could not be run, with the reason.
    NotRun(String),
    /// The program ended: whether with success, and what it wrote to its standard error.
    Finished { success: bool, stderr: Vec<u8> },
}

/// The tag of an image that is built for a type and a version.
pub open spec fn build_tag(image_type: ImageType, version: Seq<char>) -> Seq<char> {
    ("vm-pool-"@ + image_type.spec_name()).push(':') + version
}

/// The metadata of an image that was built for a type and a version.
pub open spec fn is_built(
    metadata: ImageMetadata,
    image_type: ImageType,
    version: Seq<char>,
    created_at: u64,
) -> bool {
    &&& metadata.image_ref@ == (image_type.spec_name(), version)
    &&& metadata.image_type == image_type
    &&& metadata.digest@ == "sha256:"@ + digest_of(build_tag(image_type, version))
    &&& metadata.size == 0
    &&& metadata.created_at == created_at
}

/// The 64-bit FNV-1a hash of bytes.
pub open spec fn fnv_1a(bytes: Seq<u8>) -> u64
    decreases bytes.len(),
{
    if bytes.len() == 0 {
        0xcbf29ce484222325
    } else {
        (((fnv_1a(bytes.drop_last()) ^ (bytes.last() as u64)) as nat * 0x100000001b3)
            % 0x1_0000_0000_0000_0000) as u64
    }
}

/// The digest of a text: the hash of its UTF-8 bytes as sixteen hexadecimal digits.
pub open spec fn digest_of(input: Seq<char>) -> Seq<char> {
    text::hex_fixed(fnv_1a(vstd::utf8::encode_utf8(input)) as nat, 16)
}

/// Simple hash for tagging: not cryptographic, just for identification.
pub fn hex_digest(input: &str) -> (digest: String)
    ensures
        digest@ == digest_of(input@),
{
    let bytes = input.as_bytes();
    let mut hash: u64 = 0xcbf29ce484222325;
    let mut i: usize = 0;
    assert(bytes@.take(0) =~= Seq::<u8>::empty());
    while i < bytes.len()
        invariant
            i <= bytes@.len(),
            hash == fnv_1a(bytes@.take(i as int)),
        decreases bytes@.len() - i,
    {
        proof {
            assert(bytes@.take(i + 1).drop_last() =~= bytes@.take(i as int));
        }
        hash = (hash ^ (bytes[i] as u64)).wrapping_mul(0x100000001b3);
        i += 1;
    }
    assert(bytes@.take(i as int) =~= vstd::utf8::encode_utf8(input@));
    let mut digest = String::new();
    text::push_hex_fixed(&mut digest, hash, 16);
    assert(digest@ =~= digest_of(input@));
    digest
}

/// The answer to a request for the metadata of an image, given what came of reading its metadata file.
pub open spec fn answers_get(
    image_ref: ImageRef,
    read: FileRead<ImageMetadata>,
    answer: Result<ImageMetadata, ImageError>,
) -> bool {
    match (read, answer) {
        (FileRead::Missing, Err(ImageError::NotFound(what))) => what@ == ref_text(
            image_ref.name@,
            image_ref.version@,
        ),
        (FileRead::Unreadable(reason), Err(ImageError::Io(what))) => what == reason,
        (FileRead::Malformed(reason), Err(ImageError::NotFound(what))) => what == reason,
        (FileRead::Found(metadata), Ok(answer)) => answer == metadata,
        _ => false,
    }
}

/// Image store for managing local images.
#[derive(Debug)]
pub struct ImageStore {
    root: FilePath,
}

impl View for ImageStore {
    type V = Seq<u8>;

    /// The directory of the store.
    closed spec fn view(&self) -> Seq<u8> {
        self.root@
    }
}

/// The directory of the metadata files of a store.
pub open spec fn metadata_dir_of(root: Seq<u8>) -> Seq<u8> {
    path::joined(root, path::utf8("metadata"@))
}

/// The metadata file of an image.
pub open spec fn metadata_path_of(root: Seq<u8>, image_ref: (Seq<char>, Seq<char>)) -> Seq<u8> {
    path::joined(metadata_dir_of(root), path::utf8(image_ref.0.push('_') + image_ref.1 + ".json"@))
}

impl ImageStore {
    pub fn new(root: FilePath) -> (store: ImageStore)
        ensures
            store@ == root@,
    {
        ImageStore { root }
    }

    pub fn root(&self) -> (root: &FilePath)
        ensures
            root@ == self@,
    {
        &self.root
    }

    /// The directory that has to be there before metadata is saved.
    pub fn metadata_dir(&self) -> (path: FilePath)
        ensures
            path@ == metadata_dir_of(self@),
    {
        self.root.join("metadata")
    }

    pub fn metadata_path(&self, image_ref: &ImageRef) -> (path: FilePath)
        ensures
            path@ == metadata_path_of(self@, image_ref@),
    {
        proof {
            reveal_strlit("_");
        }
        let mut name = image_ref.name.clone();
        name.append("_");
        name.append(image_ref.version.as_str());
        name.append(".json");
        assert(name@ =~= image_ref@.0.push('_') + image_ref@.1 + ".json"@);
        self.metadata_dir().join(name.as_str())
    }

    /// List all available images, given what came of reading the metadata files (none where the metadata
    /// directory is missing).
    pub fn list(&self, reads: Vec<Result<Option<ImageMetadata>, String>>) -> (listing: Result<
        Vec<ImageMetadata>,
        ImageError,
    >)
        ensures
            match listing {
                Ok(listed) => catalog::lists(reads@, Ok(listed@)),
                Err(ImageError::Io(reason)) => catalog::lists(reads@, Err(reason)),
                Err(_) => false,
            },
    {
        match catalog::list_by_date(reads) {
            Ok(listed) => Ok(listed),
            Err(reason) => Err(ImageError::Io(reason)),
        }
    }

    /// Get image metadata by reference, given what came of reading its metadata file.
    pub fn get(&self, image_ref: &ImageRef, read: FileRead<ImageMetadata>) -> (answer: Result<
        ImageMetadata,
        ImageError,
    >)
        ensures
            answers_get(*image_ref, read, answer),
    {
        match read {
            FileRead::Missing => Err(ImageError::NotFound(image_ref.to_string())),
            FileRead::Unreadable(reason) => Err(ImageError::Io(reason)),
            FileRead::Malformed(reason) => Err(ImageError::NotFound(reason)),
            FileRead::Found(metadata) => Ok(metadata),
        }
    }

    /// The file to write to save image metadata, given its JSON text (or why it has none).
    pub fn save_metadata(&self, metadata: &ImageMetadata, json: Result<String, String>) -> (plan: Result<
        FileWrite,
        ImageError,
    >)
        ensures
            match plan {
                Ok(write) => {
                    &&& json == Ok::<String, String>(write.data)
                    &&& write.path@ == metadata_path_of(self@, metadata.image_ref@)
                },
                Err(ImageError::Io(reason)) => json == Err::<String, String>(reason),
                Err(_) => false,
            },
    {
        match json {
            Ok(data) => Ok(FileWrite { path: self.metadata_path(&metadata.image_ref), data }),
            Err(reason) => Err(ImageError::Io(reason)),
        }
    }

    /// The arguments that `container` is run with, in the directory of the Dockerfile, to build an image.
    pub fn build_args(&self, image_type: ImageType, version: &str) -> (args: Vec<String>)
        ensures
            args@.map_values(|arg: String| arg@) == seq![
                "build"@,
                "--tag"@,
                build_tag(image_type, version@),
                "."@,
            ],
    {
        let mut args: Vec<String> = Vec::new();
        args.push("build".to_owned());
        args.push("--tag".to_owned());
        args.push(tag(image_type, version));
        args.push(".".to_owned());
        assert(args@.map_values(|arg: String| arg@) =~= seq![
            "build"@,
            "--tag"@,
            build_tag(image_type, version@),
            "."@,
        ]);
        args
    }

    /// The metadata of an image that was built at a time, given what came of building it.
    pub fn build(&self, image_type: ImageType, version: &str, outcome: BuildOutcome, now: u64) -> (built:
        Result<ImageMetadata, ImageError>)
        ensures
            match (outcome, built) {
                (BuildOutcome::NotRun(reason), Err(ImageError::BuildFailed(what))) => what@
                    == "failed to run container build: "@ + reason@,
                (
                    BuildOutcome::Finished { success, stderr },
                    Err(ImageError::BuildFailed(what)),
                ) => {
                    &&& !success
                    &&& what@ == build_failure(text::utf8_lossy(stderr@))
                    &&& vstd::utf8::valid_utf8(stderr@) ==> what@ == build_failure(
                        vstd::utf8::decode_utf8(stderr@),
                    )
                },
                (BuildOutcome::Finished { success, .. }, Ok(metadata)) => success && is_built(
                    metadata,
                    image_type,
                    version@,
                    now,
                ),
                _ => false,
            },
    {
        match outcome {
            BuildOutcome::NotRun(reason) => Err(
                ImageError::BuildFailed(
                    text::concat("failed to run container build: ", reason.as_str()),
                ),
            ),
            BuildOutcome::Finished { success, stderr } => {
                if !success {
                    let stderr = text::decode_lossy(stderr.as_slice());
                    return Err(failed_build(stderr.as_str()));
                }
                Ok(built_image(image_type, version, now))
            },
        }
    }

    /// The metadata file to remove to delete an image, given whether it exists.
    pub fn delete(&self, image_ref: &ImageRef, exists: bool) -> (removed: Option<FilePath>)
        ensures
            match removed {
                Some(path) => exists && path@ == metadata_path_of(self@, image_ref@),
                None => !exists,
            },
    {
        if exists {
            Some(self.metadata_path(image_ref))
        } else {
            None
        }
    }
}

fn tag(image_type: ImageType, version: &str) -> (tag: String)
    ensures
        tag@ == build_tag(image_type, version@),
{
    proof {
        reveal_strlit(":");
    }
    let mut tag = "vm-pool-".to_owned();
    tag.append(image_type.name());
    tag.append(":");
    tag.append(version);
    assert(tag@ =~= build_tag(image_type, version@));
    tag
}

/// What is said of a build that ended without success.
pub open spec fn build_failure(stderr: Seq<char>) -> Seq<char> {
    "container build failed: "@ + stderr
}

/// The error of a build that ended without success, with what it wrote to its standard error.
pub fn failed_build(stderr: &str) -> (error: ImageError)
    ensures
        error matches ImageError::BuildFailed(what) && what@ == build_failure(stderr@),
{
    ImageError::BuildFailed(text::concat("container build failed: ", stderr))
}

/// The metadata of an image that was built.
pub fn built_image(image_type: ImageType, version: &str, created_at: u64) -> (metadata: ImageMetadata)
    ensures
        is_built(metadata, image_type, version@, created_at),
{
    let digest = hex_digest(tag(image_type, version).as_str());
    ImageMetadata {
        image_ref: ImageRef::new(image_type.name(), version),
        image_type,
        digest: text::concat("sha256:", digest.as_str()),
        size: 0,
        created_at,
    }
}

/// The image type of a built image is the one that its reference names.
pub proof fn lemma_built_type(metadata: ImageMetadata, image_type: ImageType, version: Seq<char>, at: u64)
    requires
        is_built(metadata, image_type, version, at),
    ensures
        ImageType::named(metadata.image_ref.name@) == Some(metadata.image_type),
{
    lemma_image_type_roundtrip(image_type, metadata.image_ref.name@);
}

/// The metadata files on disk, by path.
pub type MetadataFiles = Map<Seq<u8>, ImageMetadata>;

/// What reading a file gives.
pub open spec fn read_of(files: MetadataFiles, path: Seq<u8>) -> FileRead<ImageMetadata> {
    if files.dom().contains(path) {
        FileRead::Found(files[path])
    } else {
        FileRead::Missing
    }
}

/// What was saved last under a reference is what a request for it is answered; after it was deleted the
/// answer is that there is no such image. Saving and deleting leave the answers for references with
/// another metadata file as they were.
pub proof fn lemma_store_keeps_metadata(
    root: Seq<u8>,
    files: MetadataFiles,
    metadata: ImageMetadata,
    other: ImageRef,
    answer: Result<ImageMetadata, ImageError>,
)
    ensures
        ({
            let path = metadata_path_of(root, metadata.image_ref@);
            let saved = files.insert(path, metadata);
            let deleted = files.remove(path);
            let elsewhere = metadata_path_of(root, other@);
            &&& answers_get(metadata.image_ref, read_of(saved, path), answer) <==> answer
                == Ok::<ImageMetadata, ImageError>(metadata)
            &&& answers_get(metadata.image_ref, read_of(deleted, path), answer) ==> (answer matches Err(
                ImageError::NotFound(what),
            ) && what@ == ref_text(metadata.image_ref.name@, metadata.image_ref.version@))
            &&& elsewhere != path ==> read_of(saved, elsewhere) == read_of(files, elsewhere)
            &&& elsewhere != path ==> read_of(deleted, elsewhere) == read_of(files, elsewhere)
        }),
{
}

/// What parses as a reference has a name without a colon and a version, neither of them empty, and is the
/// name, a colon and the version. Nothing else that is made so fails to parse.
pub proof fn lemma_parse_is_exact(
    s: &str,
    parsed: Option<ImageRef>,
    name: Seq<char>,
    version: Seq<char>,
)
    requires
        call_ensures(ImageRef::parse, (s,), parsed),
        name.len() > 0,
        version.len() > 0,
        !name.contains(':'),
    ensures
        parsed matches Some(r) ==> {
            &&& r.name@.len() > 0
            &&& r.version@.len() > 0
            &&& !r.name@.contains(':')
            &&& s@ == r.name@ + seq![':'] + r.version@
        },
        s@ == name + seq![':'] + version ==> (parsed matches Some(r) && r.name@ == name && r.version@
            == version),
{
    text::lemma_first_of(s@, ':');
    lemma_parsed_ref_text(s@);
    lemma_ref_text_parses(name, version);
    assert(name + seq![':'] + version =~= ref_text(name, version));
    if let Some(r) = parsed {
        assert(ref_text(r.name@, r.version@) =~= r.name@ + seq![':'] + r.version@);
        if r.name@.contains(':') {
            let i = r.name@.index_of(':');
            assert(s@[i] == ':');
        }
    }
}

/// A name of an image type holds no colon.
proof fn lemma_no_colon_in_tag_name(image_type: ImageType)
    ensures
        !("vm-pool-"@ + image_type.spec_name()).contains(':'),
        "vm-pool-"@.len() == 8,
{
    reveal_strlit("vm-pool-");
    reveal_strlit("base");
    reveal_strlit("agent");
    reveal_strlit("automation");
    let name = "vm-pool-"@ + image_type.spec_name();
    assert forall|i: int| 0 <= i < name.len() implies name[i] != ':' by {
        if i < 8 {
            assert(name[i] == "vm-pool-"@[i]);
        } else {
            assert(name[i] == image_type.spec_name()[i - 8]);
        }
    }
}

/// The tag that an image is built under reads back: it parses as a reference whose name is `vm-pool-` and the
/// name of the type, and whose version is the one that was asked for, unless that is empty.
pub proof fn lemma_build_tag_reads_back(
    store: &ImageStore,
    image_type: ImageType,
    version: &str,
    args: Vec<String>,
    tag: &str,
    parsed: Option<ImageRef>,
)
    requires
        call_ensures(ImageStore::build_args, (store, image_type, version), args),
        args@.len() > 2 ==> tag@ == args@[2]@,
        call_ensures(ImageRef::parse, (tag,), parsed),
    ensures
        args@.len() == 4,
        args@[0]@ == "build"@,
        args@[1]@ == "--tag"@,
        args@[3]@ == "."@,
        version@.len() > 0 ==> {
            &&& parsed matches Some(r)
            &&& r.version@ == version@
            &&& r.name@ == "vm-pool-"@ + match image_type {
                ImageType::Base => "base"@,
                ImageType::Agent => "agent"@,
                ImageType::Automation => "automation"@,
            }
        },
{
    let texts = args@.map_values(|arg: String| arg@);
    assert(texts.len() == 4);
    assert(texts[0] == args@[0]@ && texts[1] == args@[1]@ && texts[2] == args@[2]@ && texts[3] == args@[3]@);
    let name = "vm-pool-"@ + image_type.spec_name();
    lemma_no_colon_in_tag_name(image_type);
    if version@.len() > 0 {
        lemma_ref_text_parses(name, version@);
        assert(build_tag(image_type, version@) =~= ref_text(name, version@));
    }
}

/// Images of different types are never built under the same tag, whatever the versions, and neither are two
/// versions of one type.
pub proof fn lemma_build_tags_differ(
    store: &ImageStore,
    image_type: ImageType,
    version: &str,
    args: Vec<String>,
    other_type: ImageType,
    other_version: &str,
    other_args: Vec<String>,
)
    requires
        call_ensures(ImageStore::build_args, (store, image_type, version), args),
        call_ensures(ImageStore::build_args, (store, other_type, other_version), other_args),
        image_type != other_type || version@ != other_version@,
    ensures
        args@.len() == 4 && other_args@.len() == 4,
        args@[2]@ != other_args@[2]@,
{
    let texts = args@.map_values(|arg: String| arg@);
    let other_texts = other_args@.map_values(|arg: String| arg@);
    assert(texts.len() == 4 && other_texts.len() == 4);
    assert(texts[2] == args@[2]@ && other_texts[2] == other_args@[2]@);
    let a = build_tag(image_type, version@);
    let b = build_tag(other_type, other_version@);
    let name = "vm-pool-"@ + image_type.spec_name();
    let other_name = "vm-pool-"@ + other_type.spec_name();
    lemma_no_colon_in_tag_name(image_type);
    lemma_no_colon_in_tag_name(other_type);
    if a == b {
        let n = name.len() as int;
        let m = other_name.len() as int;
        assert(a[n] == ':' && b[m] == ':');
        if n < m {
            assert(other_name[n] == b[n]);
        } else if m < n {
            assert(name[m] == a[m]);
        }
        assert(name =~= a.take(n));
        assert(other_name =~= b.take(n));
        assert(image_type.spec_name() =~= name.skip(8));
        assert(other_type.spec_name() =~= other_name.skip(8));
        lemma_image_type_roundtrip(image_type, image_type.spec_name());
        lemma_image_type_roundtrip(other_type, other_type.spec_name());
        assert(version@ =~= a.skip(n + 1));
        assert(other_version@ =~= b.skip(n + 1));
    }
}

/// An image that was built is described as what was asked for: its type, by name and as such, its version
/// and the time, and as its digest that of the tag that it was built under. It is built exactly where
/// `container` ended with success.
pub proof fn lemma_built_image_is_the_one_asked_for(
    store: &ImageStore,
    image_type: ImageType,
    version: &str,
    outcome: BuildOutcome,
    now: u64,
    built: Result<ImageMetadata, ImageError>,
    args: Vec<String>,
    tag: &str,
    digest: String,
)
    requires
        call_ensures(ImageStore::build, (store, image_type, version, outcome, now), built),
        call_ensures(ImageStore::build_args, (store, image_type, version), args),
        args@.len() > 2 ==> tag@ == args@[2]@,
        call_ensures(hex_digest, (tag,), digest),
    ensures
        built is Ok <==> (outcome matches BuildOutcome::Finished { success, .. } && success),
        built matches Ok(metadata) ==> {
            &&& metadata.image_type == image_type
            &&& ImageType::named(metadata.image_ref.name@) == Some(image_type)
            &&& metadata.image_ref.version@ == version@
            &&& metadata.digest@ == "sha256:"@ + digest@
            &&& metadata.created_at == now
            &&& metadata.size == 0
        },
        built matches Err(error) ==> (error matches ImageError::BuildFailed(what) && match outcome {
            BuildOutcome::NotRun(reason) => what@.len() >= reason@.len() && what@.skip(
                what@.len() - reason@.len(),
            ) == reason@,
            BuildOutcome::Finished { stderr, .. } => vstd::utf8::valid_utf8(stderr@) ==> {
                let said = vstd::utf8::decode_utf8(stderr@);
                what@.len() >= said.len() && what@.skip(what@.len() - said.len()) == said
            },
        }),
{
    let texts = args@.map_values(|arg: String| arg@);
    assert(texts.len() == 4);
    assert(texts[2] == args@[2]@);
    lemma_image_type_roundtrip(image_type, image_type.spec_name());
    match outcome {
        BuildOutcome::NotRun(reason) => {
            let what = "failed to run container build: "@ + reason@;
            assert(what.skip(what.len() - reason@.len()) =~= reason@);
        },
        BuildOutcome::Finished { stderr, .. } => {
            let said = vstd::utf8::decode_utf8(stderr@);
            let what = build_failure(said);
            assert(what.skip(what.len() - said.len()) =~= said);
        },
    }
}

/// The message of an error is made of words that depend on its kind alone, followed by the reason.
pub proof fn lemma_messages_end_in_the_reason(a: String, b: String)
    ensures
        text::led_alike(ImageError::NotFound(a).message(), a@, ImageError::NotFound(b).message(), b@),
        text::led_alike(ImageError::BuildFailed(a).message(), a@, ImageError::BuildFailed(b).message(), b@),
        text::led_alike(ImageError::InvalidRef(a).message(), a@, ImageError::InvalidRef(b).message(), b@),
        text::led_alike(ImageError::Io(a).message(), a@, ImageError::Io(b).message(), b@),
        text::led_alike(build_failure(a@), a@, build_failure(b@), b@),
{
    let not_found = "image not found: "@;
    assert(ImageError::NotFound(a).message() == not_found + a@);
    let build_failed = "build failed: "@;
    assert(ImageError::BuildFailed(a).message() == build_failed + a@);
    let invalid_ref = "invalid image reference: "@;
    assert(ImageError::InvalidRef(a).message() == invalid_ref + a@);
    let io = "IO error: "@;
    assert(ImageError::Io(a).message() == io + a@);
    let failure = "container build failed: "@;
    assert(build_failure(a@) == failure + a@);
}

/// Multiplying by the prime of the hash, modulo 2^64, can be undone.
proof fn lemma_times_prime_injective(u: u64, v: u64)
    requires
        (u as nat * 0x100000001b3) % 0x1_0000_0000_0000_0000 == (v as nat * 0x100000001b3)
            % 0x1_0000_0000_0000_0000,
    ensures
        u == v,
{
    let m = 0x1_0000_0000_0000_0000int;
    let p = 0x100000001b3int;
    let q = 0xce965057aff6957bint;
    let k = (p * q) / m;
    assert(p * q == k * m + 1);
    let x = u as int;
    let y = v as int;
    vstd::arithmetic::div_mod::lemma_fundamental_div_mod(x * p, m);
    vstd::arithmetic::div_mod::lemma_fundamental_div_mod(y * p, m);
    let a = (x * p) / m;
    let b = (y * p) / m;
    assert(x * p - y * p == m * (a - b)) by (nonlinear_arith)
        requires
            x * p == m * a + (x * p) % m,
            y * p == m * b + (y * p) % m,
            (x * p) % m == (y * p) % m,
    ;
    let d = x - y;
    let c = a - b;
    assert(d * p == m * c) by (nonlinear_arith)
        requires
            x * p - y * p == m * c,
            d == x - y,
    ;
    assert(d == m * (c * q - d * k)) by (nonlinear_arith)
        requires
            d * p == m * c,
            p * q == k * m + 1,
    ;
    let e = c * q - d * k;
    assert(e == 0) by (nonlinear_arith)
        requires
            d == m * e,
            -m < d < m,
            m > 0,
    ;
}

/// Every byte counts for the hash: it changes with the last byte, and texts that agree in their hash go on
/// to agree when the same byte is added to both.
pub proof fn lemma_hash_takes_every_byte(bytes: Seq<u8>, other: Seq<u8>, x: u8, y: u8)
    ensures
        x != y ==> fnv_1a(bytes.push(x)) != fnv_1a(bytes.push(y)),
        fnv_1a(bytes.push(x)) == fnv_1a(other.push(x)) <==> fnv_1a(bytes) == fnv_1a(other),
        fnv_1a(bytes.push(x)) == ((fnv_1a(bytes) ^ (x as u64)) * 0x100000001b3)
            % 0x1_0000_0000_0000_0000,
        fnv_1a(Seq::empty()) == 0xcbf29ce484222325,
{
    assert(bytes.push(x).drop_last() =~= bytes);
    assert(bytes.push(y).drop_last() =~= bytes);
    assert(other.push(x).drop_last() =~= other);
    let h = fnv_1a(bytes);
    let g = fnv_1a(other);
    let a = x as u64;
    let b = y as u64;
    if fnv_1a(bytes.push(x)) == fnv_1a(bytes.push(y)) {
        lemma_times_prime_injective(h ^ a, h ^ b);
        assert(a == b) by (bit_vector)
            requires
                h ^ a == h ^ b,
        ;
    }
    if fnv_1a(bytes.push(x)) == fnv_1a(other.push(x)) {
        lemma_times_prime_injective(h ^ a, g ^ a);
        assert(h == g) by (bit_vector)
            requires
                h ^ a == g ^ a,
        ;
    }
}

/// A digest has sixteen digits and stands for the hash of the text's bytes.
pub proof fn lemma_digest_denotes_hash(input: &str, digest: String)
    requires
        call_ensures(hex_digest, (input,), digest),
    ensures
        digest@.len() == 16,
        text::numeral_value(digest@, 16) == fnv_1a(vstd::utf8::encode_utf8(input@)),
{
    text::lemma_hex_of_u64(fnv_1a(vstd::utf8::encode_utf8(input@)));
}

/// The metadata file of an image stands below the directory of metadata files, which stands below the store.
/// Its name counts as that of a metadata file. Images that differ in name or version have different files,
/// where no name holds an underscore or starts with a slash.
pub proof fn lemma_metadata_paths_differ(
    root: Seq<u8>,
    image_ref: (Seq<char>, Seq<char>),
    other: (Seq<char>, Seq<char>),
)
    requires
        !image_ref.0.contains('_'),
        !other.0.contains('_'),
        image_ref.0.len() > 0 ==> image_ref.0[0] != '/',
        other.0.len() > 0 ==> other.0[0] != '/',
    ensures
        image_ref != other ==> metadata_path_of(root, image_ref) != metadata_path_of(root, other),
        root.is_prefix_of(metadata_dir_of(root)),
        metadata_dir_of(root).is_prefix_of(metadata_path_of(root, image_ref)),
        ({
            let stem = image_ref.0 + seq!['_'] + image_ref.1;
            &&& path::utf8(stem + ".json"@).is_suffix_of(metadata_path_of(root, image_ref))
            &&& catalog::has_json_extension(path::utf8(stem + ".json"@))
        }),
{
    reveal_strlit("metadata");
    let dir = metadata_dir_of(root);
    path::lemma_absolute_text("metadata"@);
    assert(root =~= dir.subrange(0, root.len() as int));
    let name = image_ref.0.push('_') + image_ref.1 + ".json"@;
    let other_name = other.0.push('_') + other.1 + ".json"@;
    assert(name[0] != '/') by {
        if image_ref.0.len() > 0 {
            assert(name[0] == image_ref.0[0]);
        }
    }
    assert(other_name[0] != '/') by {
        if other.0.len() > 0 {
            assert(other_name[0] == other.0[0]);
        }
    }
    path::lemma_absolute_text(name);
    path::lemma_absolute_text(other_name);
    let x = path::utf8(name);
    let y = path::utf8(other_name);
    let a = metadata_path_of(root, image_ref);
    let b = metadata_path_of(root, other);
    let head: int = if dir.len() == 0 || dir.last() == path::SLASH {
        dir.len() as int
    } else {
        dir.len() as int + 1
    };
    assert(a.skip(head) =~= x);
    assert(b.skip(head) =~= y);
    assert(dir =~= a.subrange(0, dir.len() as int));
    let stem = image_ref.0 + seq!['_'] + image_ref.1;
    assert(stem + ".json"@ =~= name);
    assert(x =~= a.subrange(a.len() - x.len(), a.len() as int));
    catalog::lemma_json_files_are_found(stem);
    if a == b {
        path::lemma_utf8_injective(name, other_name);
        lemma_stems_differ(image_ref, other);
    }
}

/// The name of a metadata file can be taken apart again where no name of an image holds an underscore.
proof fn lemma_stems_differ(image_ref: (Seq<char>, Seq<char>), other: (Seq<char>, Seq<char>))
    requires
        !image_ref.0.contains('_'),
        !other.0.contains('_'),
        image_ref.0.push('_') + image_ref.1 + ".json"@ == other.0.push('_') + other.1 + ".json"@,
    ensures
        image_ref == other,
{
    let s = image_ref.0.push('_') + image_ref.1 + ".json"@;
    let t = other.0.push('_') + other.1 + ".json"@;
    let n = image_ref.0.len() as int;
    let m = other.0.len() as int;
    assert(s[n] == '_' && t[m] == '_');
    if n < m {
        assert(other.0[n] == t[n]);
    } else if m < n {
        assert(image_ref.0[m] == s[m]);
    }
    assert(image_ref.0 =~= s.take(n));
    assert(other.0 =~= t.take(n));
    let k = s.len() - ".json"@.len();
    assert(image_ref.1 =~= s.subrange(n + 1, k));
    assert(other.1 =~= t.subrange(n + 1, k));
}

/// Saving metadata writes the very file that a request for the image reads and that deleting it removes, with
/// the JSON text that was given; where there is no such text nothing is written. Deleting removes a file
/// exactly where there is one.
pub proof fn lemma_save_and_delete_agree(
    store: &ImageStore,
    metadata: ImageMetadata,
    json: Result<String, String>,
    plan: Result<FileWrite, ImageError>,
    read_path: FilePath,
    exists: bool,
    removed: Option<FilePath>,
)
    requires
        call_ensures(ImageStore::save_metadata, (store, &metadata, json), plan),
        call_ensures(ImageStore::metadata_path, (store, &metadata.image_ref), read_path),
        call_ensures(ImageStore::delete, (store, &metadata.image_ref, exists), removed),
    ensures
        plan is Ok <==> json is Ok,
        plan matches Ok(write) ==> write.path@ == read_path@ && json == Ok::<String, String>(write.data),
        plan matches Err(error) ==> (error matches ImageError::Io(reason) && json == Err::<String, String>(
            reason,
        )),
        removed is Some <==> exists,
        removed matches Some(path) ==> path@ == read_path@,
{
}

/// A request for an image is answered with metadata exactly where its file holds some, and then with that. A
/// file that could not be read is reported as such, with the reason; any other failure as an image that is
/// not found: one without a file by its reference, one with a malformed file with the reason.
pub proof fn lemma_get_answers_what_was_read(
    store: &ImageStore,
    image_ref: ImageRef,
    read: FileRead<ImageMetadata>,
    answer: Result<ImageMetadata, ImageError>,
)
    requires
        call_ensures(ImageStore::get, (store, &image_ref, read), answer),
    ensures
        answer matches Ok(metadata) ==> read == FileRead::Found(metadata),
        read matches FileRead::Found(metadata) ==> answer == Ok::<ImageMetadata, ImageError>(metadata),
        answer matches Err(error) ==> error is Io || error is NotFound,
        answer matches Err(ImageError::Io(reason)) ==> read == FileRead::<ImageMetadata>::Unreadable(reason),
        read matches FileRead::Unreadable(reason) ==> answer == Err::<ImageMetadata, ImageError>(
            ImageError::Io(reason),
        ),
        read matches FileRead::Malformed(reason) ==> answer == Err::<ImageMetadata, ImageError>(
            ImageError::NotFound(reason),
        ),
        read is Missing ==> (answer matches Err(ImageError::NotFound(what)) && what@ == image_ref.name@
            + seq![':'] + image_ref.version@),
{
    assert(ref_text(image_ref.name@, image_ref.version@) =~= image_ref.name@ + seq![':']
        + image_ref.version@);
}

/// Images are listed by the time when they were built; all of them that were found, and nothing else. The
/// listing fails exactly where a file could not be read.
pub proof fn lemma_images_are_listed_by_time(
    store: &ImageStore,
    reads: Vec<Result<Option<ImageMetadata>, String>>,
    listing: Result<Vec<ImageMetadata>, ImageError>,
)
    requires
        call_ensures(ImageStore::list, (store, reads), listing),
    ensures
        listing matches Ok(listed) ==> {
            &&& forall|i: int, j: int|
                0 <= i < j < listed@.len() ==> (#[trigger] listed@[i]).created_at <= (
                #[trigger] listed@[j]).created_at
            &&& listed@.to_multiset() == catalog::found_in(reads@).to_multiset()
        },
        listing is Ok <==> forall|i: int| 0 <= i < reads@.len() ==> #[trigger] reads@[i] is Ok,
{
    catalog::lemma_first_failure(reads@);
    if let Ok(listed) = listing {
        catalog::lemma_listing_is_complete(catalog::found_in(reads@), listed@);
        assert forall|i: int, j: int| 0 <= i < j < listed@.len() implies (#[trigger] listed@[i]).created_at
            <= (#[trigger] listed@[j]).created_at by {
            assert(listed@[i].date() <= listed@[j].date());
        }
    }
}

} // verus!
