//! What may be done to the destination tree of a job.

use crate::digest::{blake3_digest, same_digest};
use crate::error::{CoreError, DataFault, TransferError};
use crate::manifest::Platform;
use crate::metadata::{NodeKind, NodeStatus};
use crate::model::{ChunkDescriptor, ContentHash, FileType, ManifestEntry};
use crate::path::{
    append_component, has_root, is_below, is_fastsync_staging_component, is_staging_name,
    is_wire_path, join_components, push_component, safe_join, wire_path_error, PathComponent,
};
use crate::region::RegionHash;
use crate::text::{from_chars, split_chars, to_chars};
use vstd::prelude::*;

verus! {

/// A component that names the directory itself or the one above.
pub open spec fn is_dot_component(component: PathComponent) -> bool {
    component is CurrentDirectory || component is ParentDirectory
}

/// A component that names a directory for staged files.
pub open spec fn is_staging_component(component: PathComponent) -> bool {
    component matches PathComponent::Normal(name) && is_staging_name(name@)
}

/// Why a root is not accepted, if it is not.
pub open spec fn root_fault(
    absolute: bool,
    components: Seq<PathComponent>,
    allow_staging_namespace: bool,
    fault: DataFault,
    root: Seq<char>,
) -> bool {
    let dotted = exists|i: int|
        0 <= i < components.len() && is_dot_component(#[trigger] components[i]);
    let staged = exists|i: int|
        0 <= i < components.len() && is_staging_component(#[trigger] components[i]);
    match fault {
        DataFault::DestinationNotAbsolute { path } => !absolute && path@ == root,
        DataFault::DestinationHasDots { path } => absolute && dotted && path@ == root,
        DataFault::DestinationInStaging { path } => {
            &&& absolute && !dotted
            &&& !allow_staging_namespace && staged
            &&& path@ == root
        },
        _ => false,
    }
}

/// The root of a destination: absolute, without dot components, and outside
/// the directories for staged files unless they are asked for.
pub open spec fn is_root(
    absolute: bool,
    components: Seq<PathComponent>,
    allow_staging_namespace: bool,
) -> bool {
    &&& absolute
    &&& forall|i: int| 0 <= i < components.len() ==> !is_dot_component(#[trigger] components[i])
    &&& allow_staging_namespace || forall|i: int|
        0 <= i < components.len() ==> !is_staging_component(#[trigger] components[i])
}

/// Accepts a root, given whether it is absolute and how the system splits it.
pub fn ensure_root(
    root: &str,
    absolute: bool,
    components: &[PathComponent],
    allow_staging_namespace: bool,
) -> (result: Result<(), TransferError>)
    ensures
        match result {
            Ok(_) => is_root(absolute, components@, allow_staging_namespace),
            Err(TransferError::InvalidData(fault)) => root_fault(
                absolute,
                components@,
                allow_staging_namespace,
                fault,
                root@,
            ),
            Err(_) => false,
        },
{
    if !absolute {
        return Err(
            TransferError::InvalidData(
                DataFault::DestinationNotAbsolute { path: root.to_owned() },
            ),
        );
    }
    let mut i: usize = 0;
    while i < components.len()
        invariant
            absolute,
            i <= components.len(),
            forall|k: int| 0 <= k < i ==> !is_dot_component(#[trigger] components@[k]),
        decreases components.len() - i,
    {
        let dotted = match &components[i] {
            PathComponent::CurrentDirectory => true,
            PathComponent::ParentDirectory => true,
            _ => false,
        };
        if dotted {
            assert(is_dot_component(components@[i as int]));
            return Err(
                TransferError::InvalidData(
                    DataFault::DestinationHasDots { path: root.to_owned() },
                ),
            );
        }
        i += 1;
    }
    if allow_staging_namespace {
        return Ok(());
    }
    let mut j: usize = 0;
    while j < components.len()
        invariant
            absolute,
            !allow_staging_namespace,
            forall|k: int|
                0 <= k < components.len() ==> !is_dot_component(#[trigger] components@[k]),
            j <= components.len(),
            forall|k: int| 0 <= k < j ==> !is_staging_component(#[trigger] components@[k]),
        decreases components.len() - j,
    {
        let staged = match &components[j] {
            PathComponent::Normal(name) => is_fastsync_staging_component(name.as_str()),
            _ => false,
        };
        if staged {
            assert(is_staging_component(components@[j as int]));
            return Err(
                TransferError::InvalidData(
                    DataFault::DestinationInStaging { path: root.to_owned() },
                ),
            );
        }
        j += 1;
    }
    Ok(())
}

/// Accepts the root that a peer asks for.
pub fn ensure_destination_root(root: &str, absolute: bool, components: &[PathComponent]) -> (result:
    Result<(), TransferError>)
    ensures
        match result {
            Ok(_) => is_root(absolute, components@, false),
            Err(TransferError::InvalidData(fault)) => root_fault(
                absolute,
                components@,
                false,
                fault,
                root@,
            ),
            Err(_) => false,
        },
{
    ensure_root(root, absolute, components, false)
}

/// What to do for a directory to be there.
#[derive(Debug, Clone, Copy, PartialEq, Eq, Structural)]
pub enum DirectoryStep {
    Ready,
    Create,
}

/// Decides what to do for a directory that should be there, given what is
/// found; links are not followed.
pub fn ensure_one_directory(path: &str, found: Option<NodeKind>) -> (result: Result<
    DirectoryStep,
    TransferError,
>)
    ensures
        match (found, result) {
            (None, Ok(step)) => step == DirectoryStep::Create,
            (Some(kind), Ok(step)) => kind == NodeKind::Directory && step == DirectoryStep::Ready,
            (
                Some(kind),
                Err(TransferError::InvalidData(DataFault::NotRealDirectory { path: p })),
            ) => kind != NodeKind::Directory && p@ == path@,
            _ => false,
        },
{
    match found {
        None => Ok(DirectoryStep::Create),
        Some(kind) => {
            if kind == NodeKind::Directory {
                Ok(DirectoryStep::Ready)
            } else {
                Err(
                    TransferError::InvalidData(
                        DataFault::NotRealDirectory { path: path.to_owned() },
                    ),
                )
            }
        },
    }
}

/// The directories between `root` and `relative`, those above first.
pub fn ensure_parents(platform: Platform, root: &str, relative: &str) -> (directories: Vec<String>)
    ensures
        ({
            let pieces = crate::text::split(relative@, '/');
            &&& directories@.len() == pieces.len() - 1
            &&& forall|k: int|
                0 <= k < directories@.len() ==> (#[trigger] directories@[k])@ == join_components(
                    platform,
                    root@,
                    pieces.take(k + 1),
                )
        }),
{
    let components = split_chars(&to_chars(relative), '/');
    let ghost pieces = crate::text::split(relative@, '/');
    let mut directories: Vec<String> = Vec::new();
    let mut current = to_chars(root);
    let mut i: usize = 0;
    proof {
        crate::text::lemma_split_nonempty(relative@, '/');
        assert(pieces.take(0) =~= Seq::<Seq<char>>::empty());
    }
    while i < components.len() - 1
        invariant
            i <= components.len() - 1,
            components.len() == pieces.len(),
            pieces == crate::text::split(relative@, '/'),
            forall|k: int| 0 <= k < components.len() ==> (#[trigger] components[k])@ == pieces[k],
            current@ == join_components(platform, root@, pieces.take(i as int)),
            directories@.len() == i,
            forall|k: int|
                0 <= k < i ==> (#[trigger] directories@[k])@ == join_components(
                    platform,
                    root@,
                    pieces.take(k + 1),
                ),
        decreases components.len() - i,
    {
        assert(pieces.take(i + 1).drop_last() =~= pieces.take(i as int));
        append_component(platform, &mut current, &components[i]);
        directories.push(from_chars(&current));
        i += 1;
    }
    directories
}

/// The path of a wire path below a destination root.
pub fn destination_candidate_path(platform: Platform, root: &str, relative: &str) -> (result: Result<
    String,
    TransferError,
>)
    ensures
        match result {
            Ok(path) => is_wire_path(relative@) && path@ == join_components(
                platform,
                root@,
                crate::text::split(relative@, '/'),
            ),
            Err(TransferError::InvalidData(DataFault::InvalidPath { path, source })) => path@
                == relative@ && wire_path_error(relative@) == Some(source),
            Err(_) => false,
        },
{
    match safe_join(platform, root, relative) {
        Ok(path) => Ok(path),
        Err(source) => Err(
            TransferError::InvalidData(DataFault::InvalidPath { path: relative.to_owned(), source }),
        ),
    }
}

/// The path of a wire path below a staging root.
pub fn staging_file_path(platform: Platform, root: &str, relative: &str) -> (result: Result<
    String,
    TransferError,
>)
    ensures
        match result {
            Ok(path) => is_wire_path(relative@) && path@ == join_components(
                platform,
                root@,
                crate::text::split(relative@, '/'),
            ),
            Err(TransferError::InvalidData(DataFault::InvalidStagingPath { path, source })) => path@
                == relative@ && wire_path_error(relative@) == Some(source),
            Err(_) => false,
        },
{
    match safe_join(platform, root, relative) {
        Ok(path) => Ok(path),
        Err(source) => Err(
            TransferError::InvalidData(
                DataFault::InvalidStagingPath { path: relative.to_owned(), source },
            ),
        ),
    }
}

/// The path of a directory of the manifest, which must be one.
pub fn create_manifest_directory(platform: Platform, root: &str, entry: &ManifestEntry) -> (result: Result<
    String,
    TransferError,
>)
    ensures
        match result {
            Ok(path) => {
                &&& entry.file_type == FileType::Directory
                &&& is_wire_path(entry.relative_path@)
                &&& path@ == join_components(
                    platform,
                    root@,
                    crate::text::split(entry.relative_path@, '/'),
                )
            },
            Err(TransferError::InvalidData(DataFault::NotDirectoryEntry { path })) => {
                &&& entry.file_type != FileType::Directory
                &&& path@ == entry.relative_path@
            },
            Err(TransferError::InvalidData(DataFault::InvalidPath { path, source })) => {
                &&& entry.file_type == FileType::Directory
                &&& path@ == entry.relative_path@
                &&& wire_path_error(entry.relative_path@) == Some(source)
            },
            Err(_) => false,
        },
{
    if entry.file_type != FileType::Directory {
        return Err(
            TransferError::InvalidData(
                DataFault::NotDirectoryEntry { path: entry.relative_path.clone() },
            ),
        );
    }
    destination_candidate_path(platform, root, entry.relative_path.as_str())
}

/// Accepts what is found at the path of a destination file: anything but a
/// link, or nothing. Says whether something is there.
pub fn existing_destination(path: &str, found: Option<NodeKind>) -> (result: Result<
    bool,
    TransferError,
>)
    ensures
        match (found, result) {
            (None, Ok(there)) => !there,
            (Some(kind), Ok(there)) => kind != NodeKind::Symlink && there,
            (Some(kind), Err(TransferError::InvalidData(DataFault::SymbolicLink { path: p }))) => kind
                == NodeKind::Symlink && p@ == path@,
            _ => false,
        },
{
    match found {
        None => Ok(false),
        Some(kind) => {
            if kind == NodeKind::Symlink {
                Err(TransferError::InvalidData(DataFault::SymbolicLink { path: path.to_owned() }))
            } else {
                Ok(true)
            }
        },
    }
}

/// The path under its resolved parent directory, which must lie below the
/// resolved root.
pub fn canonical_child_path(
    platform: Platform,
    path: &str,
    name: Option<&str>,
    root: &str,
    root_components: &[PathComponent],
    parent: Option<&str>,
    parent_components: &[PathComponent],
) -> (result: Result<String, TransferError>)
    ensures
        match result {
            Ok(child) => {
                &&& parent is Some && name is Some
                &&& is_below(root_components@, parent_components@)
                &&& child@ == push_component(platform, parent->0@, name->0@)
            },
            Err(TransferError::InvalidData(DataFault::NoParent { path: p })) => parent is None && p@
                == path@,
            Err(TransferError::InvalidData(DataFault::NoFileName { path: p })) => parent is Some
                && name is None && p@ == path@,
            Err(TransferError::InvalidData(DataFault::OutsideRoot { path: p, root: r })) => {
                &&& parent is Some && name is Some
                &&& !is_below(root_components@, parent_components@)
                &&& p@ == path@ && r@ == root@
            },
            Err(_) => false,
        },
{
    let parent_path = match parent {
        None => {
            return Err(TransferError::InvalidData(DataFault::NoParent { path: path.to_owned() }));
        },
        Some(parent) => parent,
    };
    let name = match name {
        None => {
            return Err(TransferError::InvalidData(DataFault::NoFileName { path: path.to_owned() }));
        },
        Some(name) => name,
    };
    if !has_root(root_components, parent_components) {
        return Err(
            TransferError::InvalidData(
                DataFault::OutsideRoot { path: path.to_owned(), root: root.to_owned() },
            ),
        );
    }
    let mut child = to_chars(parent_path);
    append_component(platform, &mut child, &to_chars(name));
    Ok(from_chars(&child))
}

/// Whether a staged file can be resumed: a regular file of the final length.
pub open spec fn is_usable_partial(found: Option<NodeStatus>, size: u64) -> bool {
    found matches Some(status) && status.kind == NodeKind::File && status.length == size
}

/// Whether a staged file can be resumed, or must be laid out anew.
pub fn prepare_partial(found: Option<NodeStatus>, size: u64) -> (usable: bool)
    ensures
        usable == is_usable_partial(found, size),
{
    match found {
        Some(status) => status.kind == NodeKind::File && status.length == size,
        None => false,
    }
}

/// A region of a file that is being hashed.
pub struct HashRegion {
    path: String,
    offset: u64,
    size: u64,
    region: RegionHash,
}

impl HashRegion {
    pub closed spec fn spec_path(&self) -> Seq<char> {
        self.path@
    }

    pub closed spec fn spec_offset(&self) -> u64 {
        self.offset
    }

    pub closed spec fn spec_size(&self) -> u64 {
        self.size
    }

    pub closed spec fn content(&self) -> Seq<u8> {
        self.region.content()
    }

    pub closed spec fn wf(&self) -> bool {
        self.region.content().len() + self.region.spec_remaining() == self.size
    }

    /// How many bytes to ask for next; zero once the region has been read.
    pub open spec fn spec_wanted(&self) -> int {
        let remaining = self.spec_size() - self.content().len();
        if remaining < crate::hashing::TRANSFER_BUFFER_SIZE {
            remaining
        } else {
            crate::hashing::TRANSFER_BUFFER_SIZE as int
        }
    }

    pub fn wanted(&self) -> (bytes: usize)
        requires
            self.wf(),
        ensures
            bytes == self.spec_wanted(),
    {
        self.region.wanted()
    }

    /// Takes what was read at the end of the bytes read so far; nothing read
    /// means that the file has ended.
    pub fn absorb(&mut self, block: &[u8]) -> (result: Result<(), TransferError>)
        requires
            old(self).wf(),
            old(self).spec_wanted() > 0,
            block@.len() <= old(self).spec_wanted(),
        ensures
            final(self).wf(),
            final(self).spec_path() == old(self).spec_path(),
            final(self).spec_offset() == old(self).spec_offset(),
            final(self).spec_size() == old(self).spec_size(),
            final(self).content() == old(self).content() + block@,
            match result {
                Ok(_) => block@.len() > 0,
                Err(
                    TransferError::InvalidData(DataFault::RegionTruncated { path, offset, size }),
                ) => {
                    &&& block@.len() == 0
                    &&& path@ == old(self).spec_path()
                    &&& offset == old(self).spec_offset()
                    &&& size == old(self).spec_size()
                },
                Err(_) => false,
            },
    {
        self.region.absorb(block);
        if block.len() == 0 {
            Err(
                TransferError::InvalidData(
                    DataFault::RegionTruncated {
                        path: self.path.clone(),
                        offset: self.offset,
                        size: self.size,
                    },
                ),
            )
        } else {
            Ok(())
        }
    }

    /// The hash of the region, all of which has been read.
    pub fn finish(self) -> (hash: ContentHash)
        requires
            self.wf(),
            self.spec_wanted() == 0,
        ensures
            hash@ == blake3_digest(self.content()),
            self.content().len() == self.spec_size(),
    {
        self.region.finish()
    }
}

/// Starts to hash `size` bytes of a file from `offset` on.
pub fn hash_region(path: &str, offset: u64, size: u64) -> (region: HashRegion)
    ensures
        region.wf(),
        region.spec_path() == path@,
        region.spec_offset() == offset,
        region.spec_size() == size,
        region.content() == Seq::<u8>::empty(),
{
    HashRegion { path: path.to_owned(), offset, size, region: RegionHash::new(size) }
}

/// A chunk that is being copied from a file that may hold it.
pub struct ChunkCopy {
    chunk: ChunkDescriptor,
    region: RegionHash,
}

impl ChunkCopy {
    pub closed spec fn spec_chunk(&self) -> ChunkDescriptor {
        self.chunk
    }

    pub closed spec fn content(&self) -> Seq<u8> {
        self.region.content()
    }

    pub closed spec fn wf(&self) -> bool {
        self.region.content().len() + self.region.spec_remaining() == self.chunk.size
    }

    /// How many bytes to ask for next; zero once the chunk has been copied.
    pub open spec fn spec_wanted(&self) -> int {
        let remaining = self.spec_chunk().size - self.content().len();
        if remaining < crate::hashing::TRANSFER_BUFFER_SIZE {
            remaining
        } else {
            crate::hashing::TRANSFER_BUFFER_SIZE as int
        }
    }

    pub fn wanted(&self) -> (bytes: usize)
        requires
            self.wf(),
        ensures
            bytes == self.spec_wanted(),
    {
        self.region.wanted()
    }

    /// Takes what was read.
    pub fn absorb(&mut self, block: &[u8])
        requires
            old(self).wf(),
            block@.len() <= old(self).spec_wanted(),
        ensures
            final(self).wf(),
            final(self).spec_chunk() == old(self).spec_chunk(),
            final(self).content() == old(self).content() + block@,
    {
        self.region.absorb(block);
    }

    /// Whether what was copied is the chunk, whole and with its hash.
    pub fn finish(self) -> (copied: bool)
        requires
            self.wf(),
        ensures
            copied == (self.content().len() == self.spec_chunk().size && blake3_digest(
                self.content(),
            ) == self.spec_chunk().hash@),
    {
        if self.region.remaining() != 0 {
            return false;
        }
        let expected = self.chunk.hash;
        let actual = self.region.finish();
        assert(actual@ == expected@ ==> actual =~= expected);
        same_digest(&actual, &expected)
    }
}

/// Starts to copy a chunk from a file that may hold it at the same offset.
pub fn copy_verified_chunk(chunk: &ChunkDescriptor) -> (copy: ChunkCopy)
    ensures
        copy.wf(),
        copy.spec_chunk() == *chunk,
        copy.content() == Seq::<u8>::empty(),
{
    ChunkCopy { chunk: *chunk, region: RegionHash::new(chunk.size) }
}

/// A failed finalization as the engine reports it.
pub open spec fn finalize_failure(error: CoreError) -> TransferError {
    match error {
        CoreError::OperationCancelled { .. } => TransferError::Cancelled,
        _ => TransferError::Core(error),
    }
}

/// How a failure to put a file in its place is reported.
pub fn finalize_error(error: CoreError) -> (reported: TransferError)
    ensures
        reported == finalize_failure(error),
{
    match error {
        CoreError::OperationCancelled { .. } => TransferError::Cancelled,
        _ => TransferError::Core(error),
    }
}

/// A place is a root or there is a fault with it, and never both.
pub proof fn law_roots_have_no_fault(
    absolute: bool,
    components: Seq<PathComponent>,
    allow_staging_namespace: bool,
    fault: DataFault,
    path: String,
)
    ensures
        is_root(absolute, components, allow_staging_namespace) ==> !root_fault(
            absolute,
            components,
            allow_staging_namespace,
            fault,
            path@,
        ),
        !is_root(absolute, components, allow_staging_namespace) ==> {
            ||| root_fault(
                absolute,
                components,
                allow_staging_namespace,
                DataFault::DestinationNotAbsolute { path },
                path@,
            )
            ||| root_fault(
                absolute,
                components,
                allow_staging_namespace,
                DataFault::DestinationHasDots { path },
                path@,
            )
            ||| root_fault(
                absolute,
                components,
                allow_staging_namespace,
                DataFault::DestinationInStaging { path },
                path@,
            )
        },
        !absolute ==> !is_root(absolute, components, allow_staging_namespace),
        (exists|i: int|
            0 <= i < components.len() && ((#[trigger] components[i]) is ParentDirectory
                || components[i] is CurrentDirectory)) ==> !is_root(
            absolute,
            components,
            allow_staging_namespace,
        ),
        absolute && (forall|i: int|
            0 <= i < components.len() ==> !((#[trigger] components[i]) is ParentDirectory)
                && !(components[i] is CurrentDirectory)) ==> is_root(absolute, components, true),
{
    if exists|i: int|
        0 <= i < components.len() && ((#[trigger] components[i]) is ParentDirectory
            || components[i] is CurrentDirectory) {
        let i = choose|i: int|
            0 <= i < components.len() && ((#[trigger] components[i]) is ParentDirectory
                || components[i] is CurrentDirectory);
        assert(is_dot_component(components[i]));
    }
}

/// What is left of an earlier attempt is used exactly if it is a file as long as the one
/// that is to come.
pub proof fn law_which_partial_is_usable(found: NodeStatus, size: u64)
    ensures
        !is_usable_partial(None, size),
        is_usable_partial(Some(found), size) <==> found.kind is File && found.length == size,
{
}

/// A cancelled finalization is a cancellation, any other failure of one is reported as
/// it was.
pub proof fn law_finalization_fails_as_it_did(error: CoreError)
    ensures
        finalize_failure(error) is Cancelled <==> error is OperationCancelled,
        !(error is OperationCancelled) ==> finalize_failure(error) == TransferError::Core(error),
{
}

} // verus!
