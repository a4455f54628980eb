//! The state of a job that is being received: its manifest generation, the
//! directories it created and its life cycle.

use crate::error::{DataFault, NetworkFault, TransferError};
use crate::ids::Uuid;
use crate::model::{FileType, ManifestEntry, VerificationMode};
use crate::order::{chars_le, Ranked};
use crate::text::{find_char, from_chars, same_chars, to_chars, to_lowercase, upper_chars};
use std::collections::HashSet;
use vstd::hash_map::StringHashMap;
use vstd::hash_set::StringHashSet;
use vstd::prelude::*;

verus! {

/// The rules by which the local system tells paths apart.
#[derive(Debug, Clone, Copy, PartialEq, Eq, Structural)]
pub enum Platform {
    Posix,
    Windows,
}

#[derive(Debug, Clone, Copy, PartialEq, Eq, Structural)]
pub struct IncomingJobKey {
    pub peer_id: Uuid,
    pub job_id: Uuid,
}

#[derive(Debug, Clone, Copy, PartialEq, Eq, Structural)]
pub enum JobPhase {
    Active,
    Completing,
    Completed,
}

/// A directory of the manifest.
#[derive(Debug, Clone, PartialEq, Eq)]
pub struct Directory {
    pub entry: ManifestEntry,
}

/// How many separators a path holds.
pub open spec fn depth(path: Seq<char>) -> nat
    decreases path.len(),
{
    if path.len() == 0 {
        0
    } else {
        depth(path.drop_last()) + if path.last() == '/' {
            1nat
        } else {
            0
        }
    }
}

/// `ancestor` is a directory on the way to `path`.
pub open spec fn is_ancestor(ancestor: Seq<char>, path: Seq<char>) -> bool {
    exists|i: int| 0 <= i < path.len() && path[i] == '/' && ancestor == #[trigger] path.take(i)
}

fn count_separators(path: &[char]) -> (count: usize)
    ensures
        count == depth(path@),
        count <= path.len(),
{
    let mut count: usize = 0;
    let mut i: usize = 0;
    assert(path@.take(0) =~= Seq::<char>::empty());
    while i < path.len()
        invariant
            i <= path.len(),
            count <= i,
            count == depth(path@.take(i as int)),
        decreases path.len() - i,
    {
        assert(path@.take(i + 1).drop_last() =~= path@.take(i as int));
        if path[i] == '/' {
            count += 1;
        }
        i += 1;
    }
    assert(path@.take(i as int) =~= path@);
    count
}

/// Deeper directories first; of one depth, the later path first.
impl Ranked for Directory {
    open spec fn rank_le(self, other: Self) -> bool {
        let (a, b) = (self.entry.relative_path@, other.entry.relative_path@);
        depth(a) > depth(b) || (depth(a) == depth(b) && crate::order::text_le(b, a))
    }

    proof fn rank_total(a: Self, b: Self) {
        crate::order::lemma_text_total(a.entry.relative_path@, b.entry.relative_path@);
    }

    proof fn rank_transitive(a: Self, b: Self, c: Self) {
        let (x, y, z) = (
            a.entry.relative_path@,
            b.entry.relative_path@,
            c.entry.relative_path@,
        );
        if depth(x) == depth(y) && depth(y) == depth(z) {
            crate::order::lemma_text_transitive(z, y, x);
        }
    }

    fn not_after(&self, other: &Self) -> (yes: bool) {
        let a = to_chars(&self.entry.relative_path);
        let b = to_chars(&other.entry.relative_path);
        let (deep_a, deep_b) = (count_separators(&a), count_separators(&b));
        deep_a > deep_b || (deep_a == deep_b && chars_le(&b, &a))
    }
}

/// A manifest that is arriving in batches.
pub struct ManifestGeneration {
    manifest_id: Uuid,
    next_sequence: u32,
    paths: StringHashSet,
    file_paths: StringHashSet,
    entries: StringHashMap<ManifestEntry>,
    required_directories: StringHashSet,
}

/// A manifest whose last batch has arrived.
pub struct CompletedManifest {
    pub all_paths: StringHashSet,
    pub file_paths: StringHashSet,
    pub entries: StringHashMap<ManifestEntry>,
}

/// What a generation holds.
#[verifier::ext_equal]
pub struct GenerationView {
    pub manifest_id: Uuid,
    pub next_sequence: u32,
    pub entries: Map<Seq<char>, ManifestEntry>,
}

/// Entries stand under their own paths, and what lies above another entry is a
/// directory.
pub open spec fn is_tree(entries: Map<Seq<char>, ManifestEntry>) -> bool {
    &&& forall|path: Seq<char>| #[trigger]
        entries.contains_key(path) ==> entries[path].relative_path@ == path
    &&& forall|upper: Seq<char>, lower: Seq<char>|
        #![trigger entries.contains_key(upper), entries.contains_key(lower)]
        entries.contains_key(upper) && entries.contains_key(lower) && is_ancestor(upper, lower)
            ==> entries[upper].file_type == FileType::Directory
}

/// The paths of the files among some entries.
pub open spec fn file_paths_of(entries: Map<Seq<char>, ManifestEntry>) -> Set<Seq<char>> {
    Set::new(
        |path: Seq<char>|
            entries.contains_key(path) && entries[path].file_type == FileType::File,
    )
}

/// Every directory on the way to some entry.
pub open spec fn directories_above(entries: Map<Seq<char>, ManifestEntry>) -> Set<Seq<char>> {
    Set::new(
        |upper: Seq<char>|
            exists|lower: Seq<char>| #[trigger]
                entries.contains_key(lower) && is_ancestor(upper, lower),
    )
}

impl ManifestGeneration {
    pub closed spec fn view(&self) -> GenerationView {
        GenerationView {
            manifest_id: self.manifest_id,
            next_sequence: self.next_sequence,
            entries: self.entries@,
        }
    }

    pub closed spec fn wf(&self) -> bool {
        &&& is_tree(self.entries@)
        &&& self.paths@ == self.entries@.dom()
        &&& self.file_paths@ == file_paths_of(self.entries@)
        &&& self.required_directories@ == directories_above(self.entries@)
    }
}

impl CompletedManifest {
    /// The paths of a manifest follow from its entries, which form a tree.
    pub open spec fn wf(&self) -> bool {
        &&& is_tree(self.entries@)
        &&& self.all_paths@ == self.entries@.dom()
        &&& self.file_paths@ == file_paths_of(self.entries@)
    }
}

/// A job that is being received.
pub struct IncomingJob {
    key: IncomingJobKey,
    requested_destination_root: String,
    destination_root: String,
    staging_root: String,
    staging_name: String,
    platform: Platform,
    verification_mode: VerificationMode,
    chunk_size: u64,
    directories: Vec<Directory>,
    directory_failures: StringHashMap<String>,
    path_identities: StringHashMap<String>,
    manifest_entries: StringHashMap<ManifestEntry>,
    committed_manifest_id: Option<Uuid>,
    generation: Option<ManifestGeneration>,
    started_manifest_ids: HashSet<u128>,
    manifest_complete: bool,
    lease_keys: Vec<String>,
    phase: JobPhase,
}

/// What the parameters of a job are.
pub struct JobParameters {
    pub key: IncomingJobKey,
    pub requested_destination_root: Seq<char>,
    pub destination_root: Seq<char>,
    pub staging_root: Seq<char>,
    pub staging_name: Seq<char>,
    pub platform: Platform,
    pub verification_mode: VerificationMode,
    pub chunk_size: u64,
}

/// What a job holds.
#[verifier::ext_equal]
pub struct JobView {
    pub parameters: JobParameters,
    pub directories: Seq<Directory>,
    pub failures: Map<Seq<char>, String>,
    pub identities: Map<Seq<char>, String>,
    pub entries: Map<Seq<char>, ManifestEntry>,
    pub committed: Option<Uuid>,
    pub generation: Option<GenerationView>,
    pub started: Set<u128>,
    pub complete: bool,
    pub leases: Seq<Seq<char>>,
    pub phase: JobPhase,
}

/// The first component of a path.
pub open spec fn first_component(path: Seq<char>) -> Seq<char> {
    crate::text::before_first(path, '/')
}

/// Whether the local system takes two names for one.
pub open spec fn is_same_name(platform: Platform, a: Seq<char>, b: Seq<char>) -> bool {
    match platform {
        Platform::Posix => a == b,
        Platform::Windows => crate::text::ascii_uppercase(a) == crate::text::ascii_uppercase(b),
    }
}

/// The index of the first directory for `path`.
pub open spec fn directory_index(directories: Seq<Directory>, path: Seq<char>) -> int
    decreases directories.len(),
{
    if directories.len() == 0 || directories[0].entry.relative_path@ == path {
        0
    } else {
        1 + directory_index(directories.skip(1), path)
    }
}

/// The directories with `entry` in the place of one for the same path, or at
/// the end.
pub open spec fn with_directory(directories: Seq<Directory>, entry: ManifestEntry) -> Seq<Directory> {
    let i = directory_index(directories, entry.relative_path@);
    if i < directories.len() {
        directories.update(i, Directory { entry })
    } else {
        directories.push(Directory { entry })
    }
}

impl View for IncomingJob {
    type V = JobView;

    closed spec fn view(&self) -> JobView {
        JobView {
            parameters: JobParameters {
                key: self.key,
                requested_destination_root: self.requested_destination_root@,
                destination_root: self.destination_root@,
                staging_root: self.staging_root@,
                staging_name: self.staging_name@,
                platform: self.platform,
                verification_mode: self.verification_mode,
                chunk_size: self.chunk_size,
            },
            directories: self.directories@,
            failures: self.directory_failures@,
            identities: self.path_identities@,
            entries: self.manifest_entries@,
            committed: self.committed_manifest_id,
            generation: match self.generation {
                Some(generation) => Some(generation@),
                None => None,
            },
            started: self.started_manifest_ids@,
            complete: self.manifest_complete,
            leases: crate::text::views(self.lease_keys@),
            phase: self.phase,
        }
    }
}

impl IncomingJob {
    pub closed spec fn wf(&self) -> bool {
        &&& self.generation matches Some(generation) ==> generation.wf()
        &&& crate::text::views(self.lease_keys@).no_duplicates()
    }

    /// A job notes each lease once.
    pub proof fn lemma_leases_differ(&self)
        requires
            self.wf(),
        ensures
            self@.leases.no_duplicates(),
    {
    }

    /// A job of which nothing has arrived yet.
    pub fn new(
        key: IncomingJobKey,
        requested_destination_root: &str,
        destination_root: &str,
        staging_root: &str,
        staging_name: &str,
        platform: Platform,
        verification_mode: VerificationMode,
        chunk_size: u64,
    ) -> (job: Self)
        ensures
            job.wf(),
            job@ == (JobView {
                parameters: JobParameters {
                    key,
                    requested_destination_root: requested_destination_root@,
                    destination_root: destination_root@,
                    staging_root: staging_root@,
                    staging_name: staging_name@,
                    platform,
                    verification_mode,
                    chunk_size,
                },
                directories: Seq::empty(),
                failures: Map::empty(),
                identities: Map::empty(),
                entries: Map::empty(),
                committed: None,
                generation: None,
                started: Set::empty(),
                complete: false,
                leases: Seq::empty(),
                phase: JobPhase::Active,
            }),
    {
        let job = IncomingJob {
            key,
            requested_destination_root: requested_destination_root.to_owned(),
            destination_root: destination_root.to_owned(),
            staging_root: staging_root.to_owned(),
            staging_name: staging_name.to_owned(),
            platform,
            verification_mode,
            chunk_size,
            directories: Vec::new(),
            directory_failures: StringHashMap::new(),
            path_identities: StringHashMap::new(),
            manifest_entries: StringHashMap::new(),
            committed_manifest_id: None,
            generation: None,
            started_manifest_ids: HashSet::new(),
            manifest_complete: false,
            lease_keys: Vec::new(),
            phase: JobPhase::Active,
        };
        assert(crate::text::views(job.lease_keys@) =~= Seq::<Seq<char>>::empty());
        job
    }

    /// Accepts the parameters with which the job began.
    pub fn validate_parameters(
        &self,
        destination_root: &str,
        verification_mode: VerificationMode,
        chunk_size: u64,
    ) -> (result: Result<(), TransferError>)
        ensures
            ({
                let same = self@.parameters.destination_root == destination_root@
                    && self@.parameters.verification_mode == verification_mode
                    && self@.parameters.chunk_size == chunk_size;
                match result {
                    Ok(_) => same,
                    Err(TransferError::InvalidData(DataFault::ParametersChanged { job_id })) => !same
                        && job_id == self@.parameters.key.job_id,
                    Err(_) => false,
                }
            }),
    {
        if same_chars(&to_chars(&self.destination_root), &to_chars(destination_root))
            && self.verification_mode == verification_mode && self.chunk_size == chunk_size {
            Ok(())
        } else {
            Err(
                TransferError::InvalidData(
                    DataFault::ParametersChanged { job_id: self.key.job_id },
                ),
            )
        }
    }

    fn find_directory(&self, path: &String) -> (index: usize)
        ensures
            index == directory_index(self.directories@, path@),
            index <= self.directories.len(),
    {
        let mut i: usize = 0;
        assert(self.directories@.skip(0) =~= self.directories@);
        while i < self.directories.len()
            invariant
                i <= self.directories.len(),
                directory_index(self.directories@, path@) == i + directory_index(
                    self.directories@.skip(i as int),
                    path@,
                ),
            decreases self.directories.len() - i,
        {
            if self.directories[i].entry.relative_path == *path {
                return i;
            }
            assert(self.directories@.skip(i as int).skip(1) =~= self.directories@.skip(i + 1));
            i += 1;
        }
        i
    }

    /// A directory has been created: its failure, if it had one, is forgotten.
    pub fn remember_directory(&mut self, entry: ManifestEntry)
        requires
            old(self).wf(),
        ensures
            final(self).wf(),
            final(self)@ == (JobView {
                directories: with_directory(old(self)@.directories, entry),
                failures: old(self)@.failures.remove(entry.relative_path@),
                ..old(self)@
            }),
    {
        let path = entry.relative_path.clone();
        let index = self.find_directory(&path);
        if index < self.directories.len() {
            self.directories.set(index, Directory { entry });
        } else {
            self.directories.push(Directory { entry });
        }
        self.directory_failures.remove(path.as_str());
    }

    /// A directory could not be created.
    pub fn remember_directory_failure(&mut self, path: String, error: String)
        requires
            old(self).wf(),
        ensures
            final(self).wf(),
            final(self)@ == (JobView {
                failures: old(self)@.failures.insert(path@, error),
                ..old(self)@
            }),
    {
        self.directory_failures.insert(path, error);
    }

    pub fn directory_failure_count(&self) -> (count: u64)
        ensures
            count == self@.failures.len(),
    {
        self.directory_failures.len() as u64
    }

    /// Accepts a path outside the staging directory that no other accepted path
    /// equals but for case, and remembers it.
    pub fn validate_manifest_path(&mut self, path: &str) -> (result: Result<(), TransferError>)
        requires
            old(self).wf(),
        ensures
            final(self).wf(),
            ({
                let before = old(self)@;
                let in_staging = is_same_name(
                    before.parameters.platform,
                    first_component(path@),
                    before.parameters.staging_name,
                );
                let identity = crate::text::unicode_lowercase(path@);
                let known = before.identities.contains_key(identity);
                match result {
                    Ok(_) => {
                        &&& !in_staging
                        &&& known ==> before.identities[identity]@ == path@ && final(self)@ == before
                        &&& !known ==> {
                            let text = final(self)@.identities[identity];
                            &&& text@ == path@
                            &&& final(self)@ == (JobView {
                                identities: before.identities.insert(identity, text),
                                ..before
                            })
                        }
                    },
                    Err(TransferError::InvalidData(DataFault::StagingNamespace { path: p })) => {
                        &&& in_staging
                        &&& p@ == path@
                        &&& final(self)@ == before
                    },
                    Err(TransferError::InvalidData(DataFault::CaseAlias { existing })) => {
                        &&& !in_staging
                        &&& known
                        &&& existing == before.identities[identity]
                        &&& existing@ != path@
                        &&& final(self)@ == before
                    },
                    Err(_) => false,
                }
            }),
    {
        let chars = to_chars(path);
        let end = find_char(&chars, '/');
        let first = vstd::slice::slice_subrange(chars.as_slice(), 0, end);
        assert(chars@.subrange(0, end as int) =~= chars@.take(end as int));
        let staging = to_chars(&self.staging_name);
        let in_staging = match self.platform {
            Platform::Posix => same_chars(first, &staging),
            Platform::Windows => same_chars(&upper_chars(first), &upper_chars(&staging)),
        };
        if in_staging {
            return Err(
                TransferError::InvalidData(DataFault::StagingNamespace { path: path.to_owned() }),
            );
        }
        let identity = to_lowercase(path);
        match self.path_identities.get(identity.as_str()) {
            Some(existing) => {
                if same_chars(&to_chars(existing), &chars) {
                    Ok(())
                } else {
                    Err(
                        TransferError::InvalidData(
                            DataFault::CaseAlias { existing: existing.clone() },
                        ),
                    )
                }
            },
            None => {
                self.path_identities.insert(identity, path.to_owned());
                Ok(())
            },
        }
    }
}

/// A manifest generation of which nothing has arrived yet.
pub open spec fn empty_generation(manifest_id: Uuid) -> GenerationView {
    GenerationView { manifest_id, next_sequence: 0, entries: Map::empty() }
}

/// The job once a new generation has begun: what belonged to the one before is
/// forgotten, but for the entries that were committed.
pub open spec fn begun(before: JobView, manifest_id: Uuid) -> JobView {
    JobView {
        generation: Some(empty_generation(manifest_id)),
        started: before.started.insert(manifest_id.bits),
        complete: false,
        directories: Seq::empty(),
        failures: Map::empty(),
        identities: Map::empty(),
        ..before
    }
}

impl ManifestGeneration {
    fn new(manifest_id: Uuid) -> (generation: Self)
        ensures
            generation.wf(),
            generation@ == empty_generation(manifest_id),
    {
        let generation = ManifestGeneration {
            manifest_id,
            next_sequence: 0,
            paths: StringHashSet::new(),
            file_paths: StringHashSet::new(),
            entries: StringHashMap::new(),
            required_directories: StringHashSet::new(),
        };
        assert(generation.file_paths@ =~= file_paths_of(generation.entries@));
        assert(generation.required_directories@ =~= directories_above(generation.entries@));
        assert(generation.paths@ =~= generation.entries@.dom());
        generation
    }
}

/// The first directory on the way to `path`, among the first `n` characters,
/// that is an entry of another kind.
pub open spec fn first_file_above(
    entries: Map<Seq<char>, ManifestEntry>,
    path: Seq<char>,
    n: int,
) -> Option<Seq<char>>
    decreases n,
{
    if n <= 0 {
        None
    } else {
        match first_file_above(entries, path, n - 1) {
            Some(upper) => Some(upper),
            None => {
                let upper = path.take(n - 1);
                if path[n - 1] == '/' && entries.contains_key(upper) && entries[upper].file_type
                    != FileType::Directory {
                    Some(upper)
                } else {
                    None
                }
            },
        }
    }
}

proof fn lemma_first_file_above_is_kept(
    entries: Map<Seq<char>, ManifestEntry>,
    path: Seq<char>,
    n: int,
    m: int,
)
    requires
        0 <= n <= m,
        first_file_above(entries, path, n) is Some,
    ensures
        first_file_above(entries, path, m) == first_file_above(entries, path, n),
    decreases m,
{
    if n < m {
        lemma_first_file_above_is_kept(entries, path, n, m - 1);
    }
}

proof fn lemma_no_file_above(entries: Map<Seq<char>, ManifestEntry>, path: Seq<char>, n: int, i: int)
    requires
        0 <= i < n <= path.len(),
        first_file_above(entries, path, n) is None,
        path[i] == '/',
        entries.contains_key(path.take(i)),
    ensures
        entries[path.take(i)].file_type == FileType::Directory,
    decreases n,
{
    if i < n - 1 {
        lemma_no_file_above(entries, path, n - 1, i);
    }
}

/// What keeps an entry out of a generation, if anything does.
pub enum EntryConflict {
    Duplicate,
    BelowFile { ancestor: Seq<char> },
    AboveAnother,
}

pub open spec fn entry_conflict(
    entries: Map<Seq<char>, ManifestEntry>,
    entry: ManifestEntry,
) -> Option<EntryConflict> {
    let path = entry.relative_path@;
    if entries.contains_key(path) {
        Some(EntryConflict::Duplicate)
    } else {
        match first_file_above(entries, path, path.len() as int) {
            Some(ancestor) => Some(EntryConflict::BelowFile { ancestor }),
            None => if entry.file_type == FileType::File && directories_above(entries).contains(
                path,
            ) {
                Some(EntryConflict::AboveAnother)
            } else {
                None
            },
        }
    }
}

/// One of the texts is `wanted`.
spec fn lists(texts: Seq<String>, wanted: Seq<char>) -> bool {
    exists|k: int| 0 <= k < texts.len() && (#[trigger] texts[k])@ == wanted
}

impl ManifestGeneration {
    /// Adds an entry that is new and neither lies below a file nor is one above
    /// another entry.
    fn record(&mut self, entry: &ManifestEntry) -> (result: Result<(), TransferError>)
        requires
            old(self).wf(),
        ensures
            final(self).wf(),
            match result {
                Ok(_) => {
                    &&& entry_conflict(old(self)@.entries, *entry) is None
                    &&& final(self)@ == (GenerationView {
                        entries: old(self)@.entries.insert(entry.relative_path@, *entry),
                        ..old(self)@
                    })
                },
                Err(TransferError::InvalidData(DataFault::DuplicatePath { path })) => {
                    &&& entry_conflict(old(self)@.entries, *entry) == Some(EntryConflict::Duplicate)
                    &&& path@ == entry.relative_path@
                    &&& final(self)@ == old(self)@
                },
                Err(TransferError::InvalidData(DataFault::FileAncestor { path, ancestor })) => {
                    &&& entry_conflict(old(self)@.entries, *entry) == Some(
                        EntryConflict::BelowFile { ancestor: ancestor@ },
                    )
                    &&& path@ == entry.relative_path@
                    &&& final(self)@ == old(self)@
                },
                Err(TransferError::InvalidData(DataFault::AncestorOfAnother { path })) => {
                    &&& entry_conflict(old(self)@.entries, *entry) == Some(
                        EntryConflict::AboveAnother,
                    )
                    &&& path@ == entry.relative_path@
                    &&& final(self)@ == old(self)@
                },
                Err(_) => false,
            },
    {
        let path = &entry.relative_path;
        if self.paths.contains(path.as_str()) {
            return Err(TransferError::InvalidData(DataFault::DuplicatePath { path: path.clone() }));
        }
        let chars = to_chars(path);
        let ghost text = entry.relative_path@;
        let ghost entries = self.entries@;
        let mut parents: Vec<String> = Vec::new();
        let mut i: usize = 0;
        while i < chars.len()
            invariant
                i <= chars.len(),
                chars@ == text,
                text == entry.relative_path@,
                *self == *old(self),
                entries == self.entries@,
                self.wf(),
                *path == entry.relative_path,
                !entries.contains_key(text),
                first_file_above(entries, text, i as int) is None,
                forall|k: int|
                    #![trigger parents@[k]]
                    0 <= k < parents.len() ==> is_ancestor(parents@[k]@, text),
                forall|j: int|
                    0 <= j < i && text[j] == '/' ==> lists(parents@, #[trigger] text.take(j)),
            decreases chars.len() - i,
        {
            if chars[i] == '/' {
                let parent = from_chars(vstd::slice::slice_subrange(chars.as_slice(), 0, i));
                assert(chars@.subrange(0, i as int) =~= text.take(i as int));
                let is_file = match self.entries.get(parent.as_str()) {
                    Some(upper) => upper.file_type != FileType::Directory,
                    None => false,
                };
                if is_file {
                    proof {
                        lemma_first_file_above_is_kept(entries, text, i + 1, text.len() as int);
                    }
                    return Err(
                        TransferError::InvalidData(
                            DataFault::FileAncestor { path: path.clone(), ancestor: parent },
                        ),
                    );
                }
                let ghost before = parents@;
                parents.push(parent);
                assert forall|j: int| 0 <= j < i + 1 && text[j] == '/' implies lists(
                    parents@,
                    #[trigger] text.take(j),
                ) by {
                    if j < i {
                        assert(lists(before, text.take(j)));
                        let k = choose|k: int|
                            0 <= k < before.len() && (#[trigger] before[k])@ == text.take(j);
                        assert(parents@[k] == before[k]);
                    } else {
                        assert(parents@[parents@.len() - 1]@ == text.take(j));
                    }
                }
            }
            i += 1;
        }
        if entry.file_type == FileType::File && self.required_directories.contains(path.as_str()) {
            return Err(
                TransferError::InvalidData(DataFault::AncestorOfAnother { path: path.clone() }),
            );
        }
        self.paths.insert(path.clone());
        let ghost required = self.required_directories@;
        let mut k: usize = 0;
        while k < parents.len()
            invariant
                k <= parents.len(),
                self.paths@ == old(self).paths@.insert(text),
                self.file_paths == old(self).file_paths,
                self.entries == old(self).entries,
                self.manifest_id == old(self).manifest_id,
                self.next_sequence == old(self).next_sequence,
                forall|upper: Seq<char>| #[trigger]
                    self.required_directories@.contains(upper) <==> required.contains(upper) || (
                    exists|j: int| 0 <= j < k && (#[trigger] parents@[j])@ == upper),
            decreases parents.len() - k,
        {
            let ghost before = self.required_directories@;
            self.required_directories.insert(parents[k].clone());
            assert forall|upper: Seq<char>| #[trigger]
                self.required_directories@.contains(upper) <==> required.contains(upper) || (
                exists|j: int| 0 <= j < k + 1 && (#[trigger] parents@[j])@ == upper) by {
                if upper == parents@[k as int]@ {
                    assert(self.required_directories@.contains(upper));
                } else {
                    assert(before.contains(upper) <==> self.required_directories@.contains(upper));
                }
            }
            k += 1;
        }
        if entry.file_type == FileType::File {
            self.file_paths.insert(path.clone());
        }
        self.entries.insert(path.clone(), entry.duplicate());
        proof {
            let after = self.entries@;
            assert(after == entries.insert(text, *entry));
            assert(self.paths@ =~= after.dom());
            assert(self.file_paths@ =~= file_paths_of(after));
            assert forall|upper: Seq<char>|
                self.required_directories@.contains(upper) <==> directories_above(after).contains(
                    upper,
                ) by {
                if self.required_directories@.contains(upper) {
                    if required.contains(upper) {
                        let lower = choose|lower: Seq<char>| #[trigger]
                            entries.contains_key(lower) && is_ancestor(upper, lower);
                        assert(after.contains_key(lower));
                    } else {
                        let j = choose|j: int|
                            0 <= j < parents.len() && (#[trigger] parents@[j])@ == upper;
                        assert(is_ancestor(parents@[j]@, text));
                        assert(after.contains_key(text));
                    }
                }
                if directories_above(after).contains(upper) {
                    let lower = choose|lower: Seq<char>| #[trigger]
                        after.contains_key(lower) && is_ancestor(upper, lower);
                    if lower == text {
                        let j = choose|j: int|
                            0 <= j < text.len() && text[j] == '/' && upper == #[trigger] text.take(
                                j,
                            );
                        assert(lists(parents@, text.take(j)));
                    } else {
                        assert(entries.contains_key(lower));
                        assert(required.contains(upper));
                    }
                }
            }
            assert(self.required_directories@ =~= directories_above(after));
            assert forall|upper: Seq<char>, lower: Seq<char>|
                #![trigger after.contains_key(upper), after.contains_key(lower)]
                after.contains_key(upper) && after.contains_key(lower) && is_ancestor(
                    upper,
                    lower,
                ) implies after[upper].file_type == FileType::Directory by {
                if lower == text {
                    let j = choose|j: int|
                        0 <= j < text.len() && text[j] == '/' && upper == #[trigger] text.take(j);
                    assert(upper.len() < text.len());
                    assert(entries.contains_key(upper));
                    lemma_no_file_above(entries, text, text.len() as int, j);
                } else if upper == text {
                    assert(entries.contains_key(lower));
                    assert(directories_above(entries).contains(text));
                } else {
                    assert(entries.contains_key(upper) && entries.contains_key(lower));
                }
            }
        }
        Ok(())
    }
}

impl IncomingJob {
    /// Begins a batch: number zero starts a generation under an identifier that
    /// was not used before; the others go on with the active one, in order.
    pub fn begin_manifest_batch(&mut self, manifest_id: Uuid, sequence: u32) -> (result: Result<
        (),
        TransferError,
    >)
        requires
            old(self).wf(),
        ensures
            final(self).wf(),
            ({
                let before = old(self)@;
                let reused = before.started.contains(manifest_id.bits);
                match result {
                    Ok(_) => if sequence == 0 {
                        !reused && final(self)@ == begun(before, manifest_id)
                    } else {
                        &&& before.generation matches Some(active) && active.manifest_id
                            == manifest_id && active.next_sequence == sequence
                        &&& final(self)@ == before
                    },
                    Err(
                        TransferError::InvalidData(
                            DataFault::ManifestIdReused { manifest_id: m, job_id },
                        ),
                    ) => {
                        &&& sequence == 0 && reused
                        &&& m == manifest_id && job_id == before.parameters.key.job_id
                        &&& final(self)@ == before
                    },
                    Err(TransferError::InvalidData(DataFault::BatchBeforeStart { sequence: s })) => {
                        &&& sequence != 0 && before.generation is None
                        &&& s == sequence
                        &&& final(self)@ == before
                    },
                    Err(
                        TransferError::InvalidData(DataFault::ObsoleteGeneration { sequence: s }),
                    ) => {
                        &&& sequence != 0
                        &&& before.generation matches Some(active) && active.manifest_id
                            != manifest_id
                        &&& s == sequence
                        &&& final(self)@ == before
                    },
                    Err(
                        TransferError::InvalidData(
                            DataFault::UnexpectedBatch { expected, received },
                        ),
                    ) => {
                        &&& sequence != 0
                        &&& before.generation matches Some(active) && active.manifest_id
                            == manifest_id && active.next_sequence != sequence && expected
                            == active.next_sequence
                        &&& received == sequence
                        &&& final(self)@ == before
                    },
                    Err(_) => false,
                }
            }),
    {
        if sequence == 0 {
            if self.started_manifest_ids.contains(&manifest_id.bits) {
                return Err(
                    TransferError::InvalidData(
                        DataFault::ManifestIdReused { manifest_id, job_id: self.key.job_id },
                    ),
                );
            }
            self.started_manifest_ids.insert(manifest_id.bits);
            self.generation = Some(ManifestGeneration::new(manifest_id));
            self.manifest_complete = false;
            self.directories = Vec::new();
            self.directory_failures.clear();
            self.path_identities.clear();
            return Ok(());
        }
        match &self.generation {
            None => Err(TransferError::InvalidData(DataFault::BatchBeforeStart { sequence })),
            Some(active) => {
                if active.manifest_id != manifest_id {
                    Err(TransferError::InvalidData(DataFault::ObsoleteGeneration { sequence }))
                } else if active.next_sequence != sequence {
                    Err(
                        TransferError::InvalidData(
                            DataFault::UnexpectedBatch {
                                expected: active.next_sequence,
                                received: sequence,
                            },
                        ),
                    )
                } else {
                    Ok(())
                }
            },
        }
    }

    /// Adds an entry to the active generation.
    pub fn record_manifest_entry(&mut self, entry: &ManifestEntry) -> (result: Result<
        (),
        TransferError,
    >)
        requires
            old(self).wf(),
        ensures
            final(self).wf(),
            ({
                let before = old(self)@;
                match (before.generation, result) {
                    (None, Err(TransferError::InvalidData(DataFault::GenerationInactive))) => final(self)@ == before,
                    (None, _) => false,
                    (Some(active), Ok(_)) => {
                        &&& entry_conflict(active.entries, *entry) is None
                        &&& final(self)@ == (JobView {
                            generation: Some(
                                GenerationView {
                                    entries: active.entries.insert(entry.relative_path@, *entry),
                                    ..active
                                },
                            ),
                            ..before
                        })
                    },
                    (
                        Some(active),
                        Err(TransferError::InvalidData(DataFault::DuplicatePath { path })),
                    ) => {
                        &&& entry_conflict(active.entries, *entry) == Some(EntryConflict::Duplicate)
                        &&& path@ == entry.relative_path@
                        &&& final(self)@ == before
                    },
                    (
                        Some(active),
                        Err(TransferError::InvalidData(DataFault::FileAncestor { path, ancestor })),
                    ) => {
                        &&& entry_conflict(active.entries, *entry) == Some(
                            EntryConflict::BelowFile { ancestor: ancestor@ },
                        )
                        &&& path@ == entry.relative_path@
                        &&& final(self)@ == before
                    },
                    (
                        Some(active),
                        Err(TransferError::InvalidData(DataFault::AncestorOfAnother { path })),
                    ) => {
                        &&& entry_conflict(active.entries, *entry) == Some(
                            EntryConflict::AboveAnother,
                        )
                        &&& path@ == entry.relative_path@
                        &&& final(self)@ == before
                    },
                    (Some(_), Err(_)) => false,
                }
            }),
    {
        match self.generation.take() {
            None => Err(TransferError::InvalidData(DataFault::GenerationInactive)),
            Some(generation) => {
                let mut active = generation;
                let result = active.record(entry);
                self.generation = Some(active);
                result
            },
        }
    }
}

/// Requests under `manifest_id` belong to the manifest that is complete.
pub open spec fn accepts_manifest(job: JobView, manifest_id: Uuid) -> bool {
    job.complete && job.committed == Some(manifest_id)
}

/// `entry` is a file of the committed manifest, with the metadata it has there.
pub open spec fn accepts_entry(job: JobView, entry: ManifestEntry) -> bool {
    &&& job.entries.contains_key(entry.relative_path@)
    &&& job.entries[entry.relative_path@]@ == entry@
    &&& entry.file_type == FileType::File
}

impl IncomingJob {
    /// Ends a batch. The last one ends the generation and hands out the manifest.
    pub fn finish_manifest_batch(&mut self, manifest_id: Uuid, sequence: u32, is_last: bool) -> (
        result: Result<Option<CompletedManifest>, TransferError>)
        requires
            old(self).wf(),
        ensures
            final(self).wf(),
            ({
                let before = old(self)@;
                match (before.generation, result) {
                    (None, Err(TransferError::InvalidData(DataFault::GenerationInactive))) =>
                        final(self)@ == before,
                    (None, _) => false,
                    (Some(active), Ok(finished)) => {
                        &&& active.manifest_id == manifest_id
                        &&& active.next_sequence == sequence
                        &&& sequence < u32::MAX
                        &&& is_last ==> {
                            &&& finished matches Some(manifest) && manifest.wf()
                                && manifest.entries@ == active.entries
                            &&& final(self)@ == (JobView { generation: None, ..before })
                        }
                        &&& !is_last ==> {
                            &&& finished is None
                            &&& final(self)@ == (JobView {
                                generation: Some(
                                    GenerationView {
                                        next_sequence: (sequence + 1) as u32,
                                        ..active
                                    },
                                ),
                                ..before
                            })
                        }
                    },
                    (
                        Some(active),
                        Err(TransferError::InvalidData(DataFault::ObsoleteGeneration { sequence: s })),
                    ) => active.manifest_id != manifest_id && s == sequence && final(self)@ == before,
                    (
                        Some(active),
                        Err(TransferError::InvalidData(DataFault::BatchNotActive { sequence: s })),
                    ) => {
                        &&& active.manifest_id == manifest_id
                        &&& active.next_sequence != sequence
                        &&& s == sequence
                        &&& final(self)@ == before
                    },
                    (
                        Some(active),
                        Err(TransferError::InvalidData(DataFault::SequenceOverflow)),
                    ) => {
                        &&& active.manifest_id == manifest_id
                        &&& active.next_sequence == sequence
                        &&& sequence == u32::MAX
                        &&& final(self)@ == before
                    },
                    (Some(_), Err(_)) => false,
                }
            }),
    {
        let mut active = match self.generation.take() {
            None => {
                return Err(TransferError::InvalidData(DataFault::GenerationInactive));
            },
            Some(active) => active,
        };
        if active.manifest_id != manifest_id {
            self.generation = Some(active);
            return Err(TransferError::InvalidData(DataFault::ObsoleteGeneration { sequence }));
        }
        if active.next_sequence != sequence {
            self.generation = Some(active);
            return Err(TransferError::InvalidData(DataFault::BatchNotActive { sequence }));
        }
        if active.next_sequence == u32::MAX {
            self.generation = Some(active);
            return Err(TransferError::InvalidData(DataFault::SequenceOverflow));
        }
        active.next_sequence = active.next_sequence + 1;
        if !is_last {
            self.generation = Some(active);
            return Ok(None);
        }
        Ok(
            Some(
                CompletedManifest {
                    all_paths: active.paths,
                    file_paths: active.file_paths,
                    entries: active.entries,
                },
            ),
        )
    }

    /// Makes a completed manifest the one that requests are held to.
    pub fn commit_manifest(&mut self, manifest_id: Uuid, entries: StringHashMap<ManifestEntry>)
        requires
            old(self).wf(),
        ensures
            final(self).wf(),
            final(self)@ == (JobView {
                entries: entries@,
                committed: Some(manifest_id),
                complete: true,
                ..old(self)@
            }),
    {
        self.manifest_entries = entries;
        self.committed_manifest_id = Some(manifest_id);
        self.manifest_complete = true;
    }

    /// Accepts the identifier of the complete manifest.
    pub fn validate_manifest_id(&self, manifest_id: Uuid) -> (result: Result<(), TransferError>)
        ensures
            match result {
                Ok(_) => accepts_manifest(self@, manifest_id),
                Err(
                    TransferError::InvalidData(
                        DataFault::ManifestInactive { manifest_id: m, job_id },
                    ),
                ) => {
                    &&& !accepts_manifest(self@, manifest_id)
                    &&& m == manifest_id
                    &&& job_id == self@.parameters.key.job_id
                },
                Err(_) => false,
            },
    {
        let committed = match self.committed_manifest_id {
            Some(committed) => committed == manifest_id,
            None => false,
        };
        if self.manifest_complete && committed {
            Ok(())
        } else {
            Err(
                TransferError::InvalidData(
                    DataFault::ManifestInactive { manifest_id, job_id: self.key.job_id },
                ),
            )
        }
    }

    /// Accepts a file as the committed manifest has it.
    pub fn validate_negotiated_entry(&self, entry: &ManifestEntry) -> (result: Result<
        (),
        TransferError,
    >)
        ensures
            match result {
                Ok(_) => accepts_entry(self@, *entry),
                Err(TransferError::InvalidData(DataFault::EntryNotInManifest { path })) => {
                    &&& !accepts_entry(self@, *entry)
                    &&& path@ == entry.relative_path@
                },
                Err(_) => false,
            },
    {
        let matching = match self.manifest_entries.get(entry.relative_path.as_str()) {
            Some(known) => known.same_as(entry),
            None => false,
        };
        if matching && entry.file_type == FileType::File {
            Ok(())
        } else {
            Err(
                TransferError::InvalidData(
                    DataFault::EntryNotInManifest { path: entry.relative_path.clone() },
                ),
            )
        }
    }

    /// The directories of the manifest, those below before those above.
    pub fn directories_deepest_first(&self) -> (directories: Vec<Directory>)
        ensures
            crate::order::is_sorted(directories@),
            directories@.to_multiset() == self@.directories.to_multiset(),
    {
        let mut copies: Vec<Directory> = Vec::new();
        let mut i: usize = 0;
        while i < self.directories.len()
            invariant
                i <= self.directories.len(),
                copies@ == self.directories@.take(i as int),
            decreases self.directories.len() - i,
        {
            copies.push(Directory { entry: self.directories[i].entry.duplicate() });
            assert(copies@ =~= self.directories@.take(i + 1));
            i += 1;
        }
        assert(self.directories@.take(i as int) =~= self.directories@);
        crate::order::sort(copies)
    }

    /// Lets an operation go on while the job is active.
    pub fn begin_operation(&self) -> (result: Result<(), TransferError>)
        ensures
            match result {
                Ok(_) => self@.phase == JobPhase::Active,
                Err(TransferError::Network(NetworkFault::JobRetiring { job_id })) => {
                    &&& self@.phase != JobPhase::Active
                    &&& job_id == self@.parameters.key.job_id
                },
                Err(_) => false,
            },
    {
        if self.phase == JobPhase::Active {
            Ok(())
        } else {
            Err(TransferError::Network(NetworkFault::JobRetiring { job_id: self.key.job_id }))
        }
    }

    /// Starts to complete an active job.
    pub fn begin_completion(&mut self) -> (result: Result<(), TransferError>)
        requires
            old(self).wf(),
        ensures
            final(self).wf(),
            match result {
                Ok(_) => old(self)@.phase == JobPhase::Active && final(self)@ == (JobView {
                    phase: JobPhase::Completing,
                    ..old(self)@
                }),
                Err(TransferError::InvalidData(DataFault::AlreadyCompleting { job_id })) => {
                    &&& old(self)@.phase != JobPhase::Active
                    &&& job_id == old(self)@.parameters.key.job_id
                    &&& final(self)@ == old(self)@
                },
                Err(_) => false,
            },
    {
        if self.phase == JobPhase::Active {
            self.phase = JobPhase::Completing;
            Ok(())
        } else {
            Err(
                TransferError::InvalidData(
                    DataFault::AlreadyCompleting { job_id: self.key.job_id },
                ),
            )
        }
    }

    /// Ends a completion: the job is completed, or active again.
    pub fn end_completion(&mut self, committed: bool)
        requires
            old(self).wf(),
        ensures
            final(self).wf(),
            final(self)@ == (JobView {
                phase: if committed {
                    JobPhase::Completed
                } else {
                    JobPhase::Active
                },
                ..old(self)@
            }),
    {
        self.phase = if committed {
            JobPhase::Completed
        } else {
            JobPhase::Active
        };
    }

    fn find_lease(&self, key: &str) -> (index: usize)
        ensures
            index <= self.lease_keys.len(),
            index < self.lease_keys.len() ==> self@.leases[index as int] == key@,
            index < self.lease_keys.len() <==> self@.leases.contains(key@),
            forall|k: int| 0 <= k < index ==> self@.leases[k] != key@,
    {
        let wanted = to_chars(key);
        let mut i: usize = 0;
        while i < self.lease_keys.len()
            invariant
                i <= self.lease_keys.len(),
                wanted@ == key@,
                forall|k: int| 0 <= k < i ==> self.lease_keys@[k]@ != key@,
            decreases self.lease_keys.len() - i,
        {
            if same_chars(&to_chars(&self.lease_keys[i]), &wanted) {
                assert(self@.leases[i as int] == key@);
                return i;
            }
            i += 1;
        }
        i
    }

    /// Notes that the job holds a lease.
    pub fn remember_lease(&mut self, key: String)
        requires
            old(self).wf(),
        ensures
            final(self).wf(),
            final(self)@ == (JobView {
                leases: if old(self)@.leases.contains(key@) {
                    old(self)@.leases
                } else {
                    old(self)@.leases.push(key@)
                },
                ..old(self)@
            }),
    {
        let index = self.find_lease(key.as_str());
        if index == self.lease_keys.len() {
            self.lease_keys.push(key);
            assert(self@.leases =~= old(self)@.leases.push(key@));
        }
    }

    /// Notes that the job no longer holds a lease.
    pub fn forget_lease(&mut self, key: &str)
        requires
            old(self).wf(),
        ensures
            final(self).wf(),
            final(self)@ == (JobView {
                leases: crate::text::without_first(old(self)@.leases, key@),
                ..old(self)@
            }),
    {
        let index = self.find_lease(key);
        proof {
            crate::text::lemma_without_first(old(self)@.leases, key@, index as int);
        }
        if index < self.lease_keys.len() {
            self.lease_keys.remove(index);
            assert(self@.leases =~= old(self)@.leases.remove(index as int));
        }
    }

    /// The leases that the job holds.
    pub fn lease_keys(&self) -> (keys: Vec<String>)
        ensures
            crate::text::views(keys@) == self@.leases,
    {
        let mut keys: Vec<String> = Vec::new();
        let mut i: usize = 0;
        while i < self.lease_keys.len()
            invariant
                i <= self.lease_keys.len(),
                keys@ == self.lease_keys@.take(i as int),
            decreases self.lease_keys.len() - i,
        {
            keys.push(self.lease_keys[i].clone());
            assert(keys@ =~= self.lease_keys@.take(i + 1));
            i += 1;
        }
        assert(self.lease_keys@.take(i as int) =~= self.lease_keys@);
        keys
    }

    pub fn key(&self) -> (key: IncomingJobKey)
        ensures
            key == self@.parameters.key,
    {
        self.key
    }

    pub fn chunk_size(&self) -> (size: u64)
        ensures
            size == self@.parameters.chunk_size,
    {
        self.chunk_size
    }

    pub fn verification_mode(&self) -> (mode: VerificationMode)
        ensures
            mode == self@.parameters.verification_mode,
    {
        self.verification_mode
    }

    pub fn platform(&self) -> (platform: Platform)
        ensures
            platform == self@.parameters.platform,
    {
        self.platform
    }

    pub fn requested_destination_root(&self) -> (root: &str)
        ensures
            root@ == self@.parameters.requested_destination_root,
    {
        self.requested_destination_root.as_str()
    }

    pub fn destination_root(&self) -> (root: &str)
        ensures
            root@ == self@.parameters.destination_root,
    {
        self.destination_root.as_str()
    }

    pub fn staging_root(&self) -> (root: &str)
        ensures
            root@ == self@.parameters.staging_root,
    {
        self.staging_root.as_str()
    }
}

proof fn lemma_depth_of_prefix(path: Seq<char>, i: int)
    requires
        0 <= i <= path.len(),
    ensures
        depth(path.take(i)) <= depth(path),
        i < path.len() && path[i] == '/' ==> depth(path.take(i)) < depth(path),
    decreases path.len(),
{
    if i == path.len() {
        assert(path.take(i) =~= path);
    } else {
        assert(path.drop_last().take(i) =~= path.take(i));
        lemma_depth_of_prefix(path.drop_last(), i);
    }
}

/// Deepest first, a directory comes before every directory above it.
pub proof fn law_below_comes_before_above(directories: Seq<Directory>, below: int, above: int)
    requires
        crate::order::is_sorted(directories),
        0 <= below < directories.len(),
        0 <= above < directories.len(),
        is_ancestor(
            directories[above].entry.relative_path@,
            directories[below].entry.relative_path@,
        ),
    ensures
        below < above,
{
    let path = directories[below].entry.relative_path@;
    let upper = directories[above].entry.relative_path@;
    let i = choose|i: int| 0 <= i < path.len() && path[i] == '/' && upper == #[trigger] path.take(i);
    lemma_depth_of_prefix(path, i);
    if above <= below {
        assert(directories[above].rank_le(directories[below]));
    }
}

/// From the moment a generation begins until one is committed, no manifest is
/// accepted; an identifier that began once cannot begin again.
pub proof fn law_new_generation_invalidates(job: JobView, manifest_id: Uuid, other: Uuid)
    ensures
        !accepts_manifest(begun(job, manifest_id), other),
        begun(job, manifest_id).started.contains(manifest_id.bits),
        job.started.contains(other.bits) ==> begun(job, manifest_id).started.contains(other.bits),
{
}

/// After a commit exactly the committed identifier is accepted, and exactly the
/// committed files with their committed metadata.
pub proof fn law_commit_binds_negotiation(
    job: JobView,
    manifest_id: Uuid,
    entries: Map<Seq<char>, ManifestEntry>,
    other: Uuid,
    entry: ManifestEntry,
)
    ensures
        ({
            let committed = JobView {
                entries,
                committed: Some(manifest_id),
                complete: true,
                ..job
            };
            &&& accepts_manifest(committed, other) <==> other == manifest_id
            &&& accepts_entry(committed, entry) <==> entries.contains_key(entry.relative_path@)
                && entries[entry.relative_path@]@ == entry@ && entry.file_type == FileType::File
        }),
{
}

proof fn lemma_first_file_above_is_one(
    entries: Map<Seq<char>, ManifestEntry>,
    path: Seq<char>,
    n: int,
) -> (i: int)
    requires
        0 <= n <= path.len(),
        first_file_above(entries, path, n) is Some,
    ensures
        0 <= i < n,
        path[i] == '/',
        first_file_above(entries, path, n) == Some(path.take(i)),
        entries.contains_key(path.take(i)),
        entries[path.take(i)].file_type == FileType::File,
    decreases n,
{
    if first_file_above(entries, path, n - 1) is Some {
        lemma_first_file_above_is_one(entries, path, n - 1)
    } else {
        n - 1
    }
}

/// What keeps an entry out of a tree, in terms of the paths themselves: its own path is
/// taken, a file has a path that the entry's continues after a slash, or the entry is a
/// file and its path is so continued by another. Nothing else does.
pub proof fn law_what_conflicts(entries: Map<Seq<char>, ManifestEntry>, entry: ManifestEntry)
    ensures
        ({
            let path = entry.relative_path@;
            let conflict = entry_conflict(entries, entry);
            let taken = entries.contains_key(path);
            let below_file = exists|upper: Seq<char>| #[trigger]
                entries.contains_key(upper) && entries[upper].file_type == FileType::File
                    && upper.len() < path.len() && path[upper.len() as int] == '/' && path.take(
                    upper.len() as int,
                ) == upper;
            let above_another = entry.file_type == FileType::File && exists|lower: Seq<char>|
             #[trigger]
                entries.contains_key(lower) && path.len() < lower.len() && lower[path.len() as int]
                    == '/' && lower.take(path.len() as int) == path;
            &&& conflict == Some(EntryConflict::Duplicate) <==> taken
            &&& conflict is Some && conflict->0 is BelowFile <==> !taken && below_file
            &&& conflict == Some(EntryConflict::AboveAnother) <==> !taken && !below_file
                && above_another
            &&& conflict is None <==> !taken && !below_file && !above_another
            &&& conflict matches Some(EntryConflict::BelowFile { ancestor }) ==> {
                &&& entries.contains_key(ancestor)
                &&& entries[ancestor].file_type == FileType::File
                &&& ancestor.len() < path.len()
                &&& path[ancestor.len() as int] == '/'
                &&& path.take(ancestor.len() as int) == ancestor
            }
        }),
{
    let path = entry.relative_path@;
    let n = path.len() as int;
    if first_file_above(entries, path, n) is Some {
        let i = lemma_first_file_above_is_one(entries, path, n);
        let upper = path.take(i);
        assert(upper.len() == i);
        assert(entries.contains_key(upper));
    } else {
        assert forall|upper: Seq<char>| #[trigger]
            entries.contains_key(upper) && upper.len() < path.len() && path[upper.len() as int]
                == '/' && path.take(upper.len() as int) == upper implies entries[upper].file_type
            != FileType::File by {
            lemma_no_file_above(entries, path, n, upper.len() as int);
        }
    }
    assert(directories_above(entries).contains(path) <==> exists|lower: Seq<char>| #[trigger]
        entries.contains_key(lower) && path.len() < lower.len() && lower[path.len() as int] == '/'
            && lower.take(path.len() as int) == path) by {
        if directories_above(entries).contains(path) {
            let lower = choose|lower: Seq<char>| #[trigger]
                entries.contains_key(lower) && is_ancestor(path, lower);
            let i = choose|i: int|
                0 <= i < lower.len() && lower[i] == '/' && path == #[trigger] lower.take(i);
            assert(path.len() == i);
        }
        if exists|lower: Seq<char>| #[trigger]
            entries.contains_key(lower) && path.len() < lower.len() && lower[path.len() as int]
                == '/' && lower.take(path.len() as int) == path {
            let lower = choose|lower: Seq<char>| #[trigger]
                entries.contains_key(lower) && path.len() < lower.len() && lower[path.len() as int]
                    == '/' && lower.take(path.len() as int) == path;
            assert(path == lower.take(path.len() as int));
            assert(is_ancestor(path, lower));
        }
    }
}

proof fn lemma_directory_index(directories: Seq<Directory>, path: Seq<char>)
    ensures
        0 <= directory_index(directories, path) <= directories.len(),
        directory_index(directories, path) < directories.len() ==> directories[directory_index(
            directories,
            path,
        )].entry.relative_path@ == path,
        forall|k: int|
            0 <= k < directory_index(directories, path) ==> (
            #[trigger] directories[k]).entry.relative_path@ != path,
    decreases directories.len(),
{
    if directories.len() > 0 && directories[0].entry.relative_path@ != path {
        let rest = directories.skip(1);
        lemma_directory_index(rest, path);
        assert forall|k: int| 0 <= k < directory_index(directories, path) implies (
        #[trigger] directories[k]).entry.relative_path@ != path by {
            if k > 0 {
                assert(rest[k - 1] == directories[k]);
            }
        }
    }
}

/// A directory is recorded with the metadata that came last, once, and what is recorded
/// of other directories stays.
pub proof fn law_directories_are_recorded_once(directories: Seq<Directory>, entry: ManifestEntry)
    requires
        forall|i: int, j: int|
            #![trigger directories[i], directories[j]]
            0 <= i < j < directories.len() ==> directories[i].entry.relative_path@
                != directories[j].entry.relative_path@,
    ensures
        ({
            let after = with_directory(directories, entry);
            &&& after.contains(Directory { entry })
            &&& forall|d: Directory|
                d.entry.relative_path@ != entry.relative_path@ ==> (#[trigger] after.contains(d)
                    <==> directories.contains(d))
            &&& forall|i: int, j: int|
                #![trigger after[i], after[j]]
                0 <= i < j < after.len() ==> after[i].entry.relative_path@
                    != after[j].entry.relative_path@
        }),
{
    let path = entry.relative_path@;
    let new = Directory { entry };
    let at = directory_index(directories, path);
    let after = with_directory(directories, entry);
    lemma_directory_index(directories, path);
    assert(after[at] == new);
    assert forall|d: Directory| d.entry.relative_path@ != path implies (#[trigger] after.contains(d)
        <==> directories.contains(d)) by {
        if after.contains(d) {
            let k = choose|k: int| 0 <= k < after.len() && after[k] == d;
            assert(directories[k] == d);
        }
        if directories.contains(d) {
            let k = choose|k: int| 0 <= k < directories.len() && directories[k] == d;
            assert(after[k] == d);
        }
    }
    assert forall|i: int, j: int|
        #![trigger after[i], after[j]]
        0 <= i < j < after.len() implies after[i].entry.relative_path@
        != after[j].entry.relative_path@ by {
        if i != at {
            assert(after[i] == directories[i]);
        }
        if j != at {
            assert(after[j] == directories[j]);
        }
        if at < directories.len() {
            assert(directories[at].entry.relative_path@ == path);
            assert(directories[i].entry.relative_path@ != directories[j].entry.relative_path@);
        }
    }
}

/// The first component of a path is what stands before the first slash, or the whole
/// path where there is none.
pub proof fn law_first_component_ends_at_a_slash(path: Seq<char>)
    ensures
        ({
            let first = first_component(path);
            &&& !first.contains('/')
            &&& first == path || first.len() < path.len() && path[first.len() as int] == '/'
                && path.take(first.len() as int) == first
        }),
{
    crate::text::law_first_index_is_the_first(path, '/');
    let first = first_component(path);
    if first.contains('/') {
        let k = choose|k: int| 0 <= k < first.len() && first[k] == '/';
        assert(path[k] == '/');
    }
    if first.len() == path.len() {
        assert(first =~= path);
    }
}

/// On Windows names that differ only in the case of ASCII letters are the same;
/// elsewhere only equal names are.
pub proof fn law_same_names(a: Seq<char>, b: Seq<char>)
    ensures
        is_same_name(Platform::Posix, a, b) <==> a == b,
        is_same_name(Platform::Windows, a, b) <==> a.len() == b.len() && forall|i: int|
            #![trigger a[i]]
            #![trigger b[i]]
            0 <= i < a.len() ==> {
                ||| a[i] == b[i]
                ||| 97 <= a[i] as u32 <= 122 && b[i] as u32 + 32 == a[i] as u32
                ||| 97 <= b[i] as u32 <= 122 && a[i] as u32 + 32 == b[i] as u32
            },
{
    let (x, y) = (crate::text::ascii_uppercase(a), crate::text::ascii_uppercase(b));
    crate::text::law_uppercase_changes_small_letters(a);
    crate::text::law_uppercase_changes_small_letters(b);
    if x == y {
        assert forall|i: int|
            #![trigger a[i]]
            #![trigger b[i]]
            0 <= i < a.len() implies {
            ||| a[i] == b[i]
            ||| 97 <= a[i] as u32 <= 122 && b[i] as u32 + 32 == a[i] as u32
            ||| 97 <= b[i] as u32 <= 122 && a[i] as u32 + 32 == b[i] as u32
        } by {
            assert(x[i] == y[i]);
        }
    } else if a.len() == b.len() {
        assert(exists|i: int| 0 <= i < x.len() && x[i] != y[i]) by {
            if forall|i: int| 0 <= i < x.len() ==> x[i] == y[i] {
                assert(x =~= y);
            }
        }
        let i = choose|i: int| 0 <= i < x.len() && x[i] != y[i];
        assert(a[i] != b[i]);
    }
}

/// A generation begins with nothing in it: no entries, no directories, no failures and no
/// spellings. What was committed before, what is leased and what the job is about stay.
pub proof fn law_generations_begin_empty(job: JobView, manifest_id: Uuid)
    ensures
        ({
            let fresh = begun(job, manifest_id);
            &&& fresh.generation is Some
            &&& fresh.generation->0.manifest_id == manifest_id
            &&& fresh.generation->0.next_sequence == 0
            &&& fresh.generation->0.entries == Map::<Seq<char>, ManifestEntry>::empty()
            &&& fresh.directories.len() == 0
            &&& fresh.failures == Map::<Seq<char>, String>::empty()
            &&& fresh.identities == Map::<Seq<char>, String>::empty()
            &&& fresh.entries == job.entries && fresh.committed == job.committed
            &&& fresh.leases == job.leases && fresh.parameters == job.parameters
            &&& fresh.phase == job.phase
        }),
{
}

/// The depth of a path is the number of its slashes, wherever it is cut.
pub proof fn law_depth_counts_slashes(a: Seq<char>, b: Seq<char>, c: char)
    ensures
        depth(Seq::empty()) == 0,
        depth(seq![c]) == if c == '/' {
            1nat
        } else {
            0
        },
        depth(a + b) == depth(a) + depth(b),
    decreases b.len(),
{
    assert(seq![c].drop_last() =~= Seq::<char>::empty());
    assert(depth(seq![c].drop_last()) == 0);
    if b.len() == 0 {
        assert(a + b =~= a);
    } else {
        law_depth_counts_slashes(a, b.drop_last(), c);
        assert((a + b).drop_last() =~= a + b.drop_last());
        assert((a + b).last() == b.last());
    }
}

/// Sorted directories come deepest first, and those of one depth from the last path to
/// the first.
pub proof fn law_deeper_directories_come_first(directories: Seq<Directory>, i: int, j: int)
    requires
        crate::order::is_sorted(directories),
        0 <= i < j < directories.len(),
    ensures
        ({
            let (a, b) = (
                directories[i].entry.relative_path@,
                directories[j].entry.relative_path@,
            );
            &&& depth(a) >= depth(b)
            &&& depth(a) == depth(b) ==> crate::order::text_le(b, a)
        }),
{
    assert(directories[i].rank_le(directories[j]));
}

} // verus!
