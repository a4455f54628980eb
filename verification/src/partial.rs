//! Verifying a staged file and putting it in the place of its destination.

use crate::digest::{absorbed, blake3_digest, finish_hasher, new_hasher, same_digest, update_hasher};
use crate::error::CoreError;
use crate::metadata::{ensure_snapshot_matches, is_change, NodeKind};
use crate::model::{ContentHash, FileType, HashedFile, ManifestEntry, SourceMetadata};
use crate::path::{partial_file_path, PARTIAL_FILE_SUFFIX};
use crate::text::is_text;
use vstd::prelude::*;

verus! {

/// How many bytes of a staged file are read at a time.
pub const VERIFY_BUFFER_SIZE: usize = 64 * 1024;

/// The cancellation of work on `path`.
pub open spec fn is_cancellation(error: CoreError, path: Seq<char>) -> bool {
    error matches CoreError::OperationCancelled { path: p } && p@ == path
}

fn ensure_not_cancelled(path: &str, cancelled: bool) -> (result: Result<(), CoreError>)
    ensures
        match result {
            Ok(_) => !cancelled,
            Err(error) => cancelled && is_cancellation(error, path@),
        },
{
    if cancelled {
        Err(CoreError::OperationCancelled { path: path.to_owned() })
    } else {
        Ok(())
    }
}

/// Fails where the metadata of a staged file differs between two looks at it.
pub fn ensure_unchanged(path: &str, expected: &SourceMetadata, actual: &SourceMetadata) -> (result:
    Result<(), CoreError>)
    ensures
        match result {
            Ok(_) => *expected == *actual,
            Err(error) => is_change(error, path@, *expected, *actual),
        },
{
    ensure_snapshot_matches(path, expected, actual)
}

/// A staged file that should have a hash; nothing is known of it yet.
pub struct PartialCheck {
    path: String,
    hash: ContentHash,
}

/// A staged file whose metadata has been read.
pub struct LocatedPartial {
    path: String,
    hash: ContentHash,
    initial: SourceMetadata,
}

/// A staged file that is open and being read.
pub struct PartialRead {
    path: String,
    hash: ContentHash,
    initial: SourceMetadata,
    hasher: blake3::Hasher,
}

/// A staged file whose content has the expected hash.
pub struct VerifiedPartial {
    path: String,
    hash: ContentHash,
    metadata: SourceMetadata,
    content: Ghost<Seq<u8>>,
}

impl PartialCheck {
    pub closed spec fn spec_path(&self) -> Seq<char> {
        self.path@
    }

    pub closed spec fn spec_hash(&self) -> ContentHash {
        self.hash
    }

    /// The file to look at.
    pub fn path(&self) -> (path: &str)
        ensures
            path@ == self.spec_path(),
    {
        self.path.as_str()
    }

    /// Goes on with the metadata found at the path: it must be a regular file.
    pub fn located(self, initial: &SourceMetadata) -> (result: Result<LocatedPartial, CoreError>)
        ensures
            match result {
                Ok(located) => {
                    &&& initial.file_type == FileType::File
                    &&& located.spec_path() == self.spec_path()
                    &&& located.spec_hash() == self.spec_hash()
                    &&& located.spec_initial() == *initial
                },
                Err(CoreError::NotRegularFile { path }) => initial.file_type != FileType::File
                    && path@ == self.spec_path(),
                Err(_) => false,
            },
    {
        if initial.file_type != FileType::File {
            Err(CoreError::NotRegularFile { path: self.path })
        } else {
            Ok(LocatedPartial { path: self.path, hash: self.hash, initial: *initial })
        }
    }
}

impl LocatedPartial {
    pub closed spec fn spec_path(&self) -> Seq<char> {
        self.path@
    }

    pub closed spec fn spec_hash(&self) -> ContentHash {
        self.hash
    }

    pub closed spec fn spec_initial(&self) -> SourceMetadata {
        self.initial
    }

    /// Goes on with the metadata of the open file: it must be the same.
    pub fn opened(self, opened: &SourceMetadata) -> (result: Result<PartialRead, CoreError>)
        ensures
            match result {
                Ok(read) => {
                    &&& *opened == self.spec_initial()
                    &&& read.spec_path() == self.spec_path()
                    &&& read.spec_hash() == self.spec_hash()
                    &&& read.spec_initial() == self.spec_initial()
                    &&& read.content() == Seq::<u8>::empty()
                },
                Err(error) => is_change(error, self.spec_path(), self.spec_initial(), *opened),
            },
    {
        match ensure_unchanged(self.path.as_str(), &self.initial, opened) {
            Err(error) => Err(error),
            Ok(_) => Ok(
                PartialRead {
                    path: self.path,
                    hash: self.hash,
                    initial: self.initial,
                    hasher: new_hasher(),
                },
            ),
        }
    }
}

impl PartialRead {
    pub closed spec fn spec_path(&self) -> Seq<char> {
        self.path@
    }

    pub closed spec fn spec_hash(&self) -> ContentHash {
        self.hash
    }

    pub closed spec fn spec_initial(&self) -> SourceMetadata {
        self.initial
    }

    /// The bytes read so far.
    pub closed spec fn content(&self) -> Seq<u8> {
        absorbed(self.hasher)
    }

    /// Asked before each read.
    pub fn ensure_running(&self, cancelled: bool) -> (result: Result<(), CoreError>)
        ensures
            match result {
                Ok(_) => !cancelled,
                Err(error) => cancelled && is_cancellation(error, self.spec_path()),
            },
    {
        ensure_not_cancelled(self.path.as_str(), cancelled)
    }

    /// Takes a block that was read.
    pub fn absorb(&mut self, block: &[u8])
        ensures
            final(self).content() == old(self).content() + block@,
            final(self).spec_path() == old(self).spec_path(),
            final(self).spec_hash() == old(self).spec_hash(),
            final(self).spec_initial() == old(self).spec_initial(),
    {
        update_hasher(&mut self.hasher, block);
    }

    /// Ends the reading: neither the open file nor the path may have changed,
    /// and the content must have the expected hash.
    pub fn finish(self, final_opened: &SourceMetadata, final_path: &SourceMetadata) -> (result:
        Result<VerifiedPartial, CoreError>)
        ensures
            ({
                let path = self.spec_path();
                let initial = self.spec_initial();
                let unchanged = *final_opened == initial && *final_path == initial;
                match result {
                    Ok(verified) => {
                        &&& unchanged
                        &&& blake3_digest(self.content()) == self.spec_hash()@
                        &&& verified.spec_path() == path
                        &&& verified.spec_hash() == self.spec_hash()
                        &&& verified.spec_metadata() == initial
                        &&& verified.content() == self.content()
                        &&& verified.wf()
                    },
                    Err(CoreError::HashMismatch { path: p, expected, actual }) => {
                        &&& unchanged
                        &&& p@ == path
                        &&& expected == self.spec_hash()
                        &&& actual@ == blake3_digest(self.content())
                        &&& actual@ != expected@
                    },
                    Err(error) => if *final_opened != initial {
                        is_change(error, path, initial, *final_opened)
                    } else {
                        is_change(error, path, initial, *final_path)
                    },
                }
            }),
    {
        let actual = finish_hasher(&self.hasher);
        if let Err(error) = ensure_unchanged(self.path.as_str(), &self.initial, final_opened) {
            return Err(error);
        }
        if let Err(error) = ensure_unchanged(self.path.as_str(), &self.initial, final_path) {
            return Err(error);
        }
        if !same_digest(&actual, &self.hash) {
            assert(actual@ == self.hash@ ==> actual =~= self.hash);
            return Err(CoreError::HashMismatch { path: self.path, expected: self.hash, actual });
        }
        let content = Ghost(self.content());
        Ok(VerifiedPartial { path: self.path, hash: self.hash, metadata: self.initial, content })
    }
}

impl VerifiedPartial {
    pub closed spec fn spec_path(&self) -> Seq<char> {
        self.path@
    }

    pub closed spec fn spec_hash(&self) -> ContentHash {
        self.hash
    }

    pub closed spec fn spec_metadata(&self) -> SourceMetadata {
        self.metadata
    }

    /// The bytes that were read.
    pub closed spec fn content(&self) -> Seq<u8> {
        self.content@
    }

    /// The bytes have the hash.
    pub open spec fn wf(&self) -> bool {
        blake3_digest(self.content()) == self.spec_hash()@
    }

    #[verifier::type_invariant]
    closed spec fn has_hash(&self) -> bool {
        blake3_digest(self.content@) == self.hash@
    }
}

/// Accepts what is found at the path of a staged file that is about to be
/// created or truncated, and says whether it must be made writable first.
pub fn initialize_partial_file_at(partial_path: &str, found: Option<NodeKind>) -> (result: Result<
    bool,
    CoreError,
>)
    ensures
        match (found, result) {
            (None, Ok(writable)) => !writable,
            (Some(kind), Ok(writable)) => kind == NodeKind::File && writable,
            (Some(kind), Err(CoreError::NotRegularFile { path })) => kind != NodeKind::File && path@
                == partial_path@,
            _ => false,
        },
{
    match found {
        None => Ok(false),
        Some(kind) => {
            if kind == NodeKind::File {
                Ok(true)
            } else {
                Err(CoreError::NotRegularFile { path: partial_path.to_owned() })
            }
        },
    }
}

/// Starts to verify the staged file next to `destination`.
pub fn verify_partial_file(destination: &str, expected_hash: &ContentHash) -> (check: PartialCheck)
    ensures
        check.spec_path() == destination@ + PARTIAL_FILE_SUFFIX@,
        check.spec_hash() == *expected_hash,
{
    PartialCheck { path: partial_file_path(destination), hash: *expected_hash }
}

/// Where the finalization of a file stands: what was asked for last.
#[derive(Debug, Clone, PartialEq, Eq)]
pub enum FinalizeStage {
    /// Read the staged file and hold it to its hash.
    Verify,
    /// Write the content through to the disk.
    SyncContent,
    /// Set modification time and access on the staged file.
    ApplyMetadata,
    /// Write the metadata through to the disk.
    SyncMetadata,
    /// Rename the staged file to the destination.
    Replace,
    /// Let the owner write to the staged file again, then fail.
    RestoreAccess { error: CoreError, strict: bool },
    /// The destination has been replaced.
    Done,
    /// The destination is as it was.
    Failed { error: CoreError },
}

/// The stage that follows once a stage ended in `outcome`. None follows the
/// verification in this way.
pub open spec fn next_stage(
    stage: FinalizeStage,
    with_metadata: bool,
    partial_path: Seq<char>,
    outcome: Result<(), CoreError>,
    cancelled: bool,
    next: FinalizeStage,
) -> bool {
    match (stage, outcome) {
        (FinalizeStage::Verify, _) => false,
        (FinalizeStage::SyncContent, Ok(_)) => next == if with_metadata {
            FinalizeStage::ApplyMetadata
        } else {
            FinalizeStage::Replace
        },
        (FinalizeStage::SyncContent, Err(error)) => next == FinalizeStage::Failed { error },
        (FinalizeStage::ApplyMetadata, Ok(_)) => next == FinalizeStage::SyncMetadata,
        (FinalizeStage::ApplyMetadata, Err(error)) => next == FinalizeStage::RestoreAccess {
            error,
            strict: false,
        },
        (FinalizeStage::SyncMetadata, Ok(_)) => if cancelled {
            next matches FinalizeStage::RestoreAccess { error, strict } && is_cancellation(
                error,
                partial_path,
            ) && strict
        } else {
            next == FinalizeStage::Replace
        },
        (FinalizeStage::SyncMetadata, Err(error)) => next == FinalizeStage::RestoreAccess {
            error,
            strict: false,
        },
        (FinalizeStage::Replace, Ok(_)) => next == FinalizeStage::Done,
        (FinalizeStage::Replace, Err(error)) => next == if with_metadata {
            FinalizeStage::RestoreAccess { error, strict: false }
        } else {
            FinalizeStage::Failed { error }
        },
        (FinalizeStage::RestoreAccess { error, strict }, Ok(_)) => next == FinalizeStage::Failed {
            error,
        },
        (FinalizeStage::RestoreAccess { error, strict }, Err(restoring)) => next
            == FinalizeStage::Failed {
            error: if strict {
                restoring
            } else {
                error
            },
        },
        (FinalizeStage::Done, _) => next == FinalizeStage::Done,
        (FinalizeStage::Failed { error }, _) => next == FinalizeStage::Failed { error },
    }
}

/// The replacement of a destination by its staged file.
pub struct Finalization {
    partial_path: String,
    destination: String,
    hash: ContentHash,
    entry: Option<ManifestEntry>,
    verified: Option<VerifiedPartial>,
    stage: FinalizeStage,
}

impl Finalization {
    pub closed spec fn spec_partial_path(&self) -> Seq<char> {
        self.partial_path@
    }

    pub closed spec fn spec_destination(&self) -> Seq<char> {
        self.destination@
    }

    pub closed spec fn spec_hash(&self) -> ContentHash {
        self.hash
    }

    pub closed spec fn spec_entry(&self) -> Option<ManifestEntry> {
        self.entry
    }

    pub closed spec fn spec_stage(&self) -> FinalizeStage {
        self.stage
    }

    /// The staged file as it was verified.
    pub closed spec fn spec_verified(&self) -> Option<VerifiedPartial> {
        self.verified
    }

    /// The verified file is the one to publish: under its path, with its hash and
    /// as long as its entry says.
    pub open spec fn accepts(self, partial: VerifiedPartial) -> bool {
        &&& partial.spec_path() == self.spec_partial_path()
        &&& partial.spec_hash() == self.spec_hash()
        &&& self.spec_entry() matches Some(entry) ==> partial.spec_metadata().size == entry.size
    }

    /// Past the verification, the staged file has been verified.
    pub open spec fn wf(self) -> bool {
        match self.spec_verified() {
            Some(partial) => !(self.spec_stage() is Verify) && partial.wf() && self.accepts(
                partial,
            ),
            None => self.spec_stage() is Verify,
        }
    }

    /// A finalization at its start.
    pub open spec fn starts(
        self,
        partial_path: Seq<char>,
        destination: Seq<char>,
        hash: ContentHash,
        entry: Option<ManifestEntry>,
    ) -> bool {
        &&& self.spec_partial_path() == partial_path
        &&& self.spec_destination() == destination
        &&& self.spec_hash() == hash
        &&& self.spec_entry() == entry
        &&& self.spec_stage() == FinalizeStage::Verify
        &&& self.wf()
    }

    /// The staged file, to be verified first.
    pub fn check(&self) -> (check: PartialCheck)
        ensures
            check.spec_path() == self.spec_partial_path(),
            check.spec_hash() == self.spec_hash(),
    {
        PartialCheck { path: self.partial_path.clone(), hash: self.hash }
    }

    pub fn partial_path(&self) -> (path: &str)
        ensures
            path@ == self.spec_partial_path(),
    {
        self.partial_path.as_str()
    }

    pub fn destination(&self) -> (path: &str)
        ensures
            path@ == self.spec_destination(),
    {
        self.destination.as_str()
    }

    /// The metadata to apply, where there is any.
    pub fn entry(&self) -> (entry: Option<&ManifestEntry>)
        ensures
            match (entry, self.spec_entry()) {
                (Some(e), Some(known)) => *e == known,
                (None, None) => true,
                _ => false,
            },
    {
        match &self.entry {
            Some(entry) => Some(entry),
            None => None,
        }
    }

    pub fn stage(&self) -> (stage: &FinalizeStage)
        ensures
            *stage == self.spec_stage(),
    {
        &self.stage
    }

    /// Goes on with the verified staged file, which must be the one to publish and
    /// as long as its entry says.
    pub fn verified(self, partial: VerifiedPartial) -> (result: Result<Self, CoreError>)
        requires
            self.wf(),
            self.spec_stage() is Verify,
        ensures
            match result {
                Ok(next) => {
                    &&& next.wf()
                    &&& self.accepts(partial)
                    &&& next.spec_verified() == Some(partial)
                    &&& next.spec_stage() == FinalizeStage::SyncContent
                    &&& next.spec_partial_path() == self.spec_partial_path()
                    &&& next.spec_destination() == self.spec_destination()
                    &&& next.spec_hash() == self.spec_hash()
                    &&& next.spec_entry() == self.spec_entry()
                },
                Err(CoreError::VerifiedElsewhere { path, verified }) => {
                    &&& partial.spec_path() != self.spec_partial_path()
                    &&& path@ == self.spec_partial_path()
                    &&& verified@ == partial.spec_path()
                },
                Err(CoreError::HashMismatch { path, expected, actual }) => {
                    &&& partial.spec_path() == self.spec_partial_path()
                    &&& partial.spec_hash() != self.spec_hash()
                    &&& path@ == self.spec_partial_path()
                    &&& expected == self.spec_hash()
                    &&& actual == partial.spec_hash()
                },
                Err(CoreError::SizeMismatch { path, expected, actual }) => {
                    &&& partial.spec_path() == self.spec_partial_path()
                    &&& partial.spec_hash() == self.spec_hash()
                    &&& self.spec_entry() matches Some(entry) && entry.size == expected && expected
                        != actual
                    &&& path@ == self.spec_partial_path()
                    &&& actual == partial.spec_metadata().size
                },
                Err(_) => false,
            },
    {
        proof {
            use_type_invariant(&partial);
        }
        if !is_text(partial.path.as_str(), self.partial_path.as_str()) {
            return Err(
                CoreError::VerifiedElsewhere {
                    path: self.partial_path,
                    verified: partial.path.clone(),
                },
            );
        }
        if !same_digest(&partial.hash, &self.hash) {
            return Err(
                CoreError::HashMismatch {
                    path: self.partial_path,
                    expected: self.hash,
                    actual: partial.hash,
                },
            );
        }
        if let Some(entry) = &self.entry {
            if partial.metadata.size != entry.size {
                return Err(
                    CoreError::SizeMismatch {
                        path: self.partial_path.clone(),
                        expected: entry.size,
                        actual: partial.metadata.size,
                    },
                );
            }
        }
        Ok(
            Finalization {
                partial_path: self.partial_path,
                destination: self.destination,
                hash: self.hash,
                entry: self.entry,
                verified: Some(partial),
                stage: FinalizeStage::SyncContent,
            },
        )
    }

    /// Goes on once the work of the stage has ended in `outcome`.
    pub fn advance(self, outcome: Result<(), CoreError>, cancelled: bool) -> (next: Self)
        requires
            self.wf(),
            !(self.spec_stage() is Verify),
        ensures
            next.wf(),
            next.spec_verified() == self.spec_verified(),
            next.spec_partial_path() == self.spec_partial_path(),
            next.spec_destination() == self.spec_destination(),
            next.spec_hash() == self.spec_hash(),
            next.spec_entry() == self.spec_entry(),
            next_stage(
                self.spec_stage(),
                self.spec_entry() is Some,
                self.spec_partial_path(),
                outcome,
                cancelled,
                next.spec_stage(),
            ),
    {
        let with_metadata = self.entry.is_some();
        let stage = match (self.stage, outcome) {
            (FinalizeStage::Verify, _) => FinalizeStage::Verify,
            (FinalizeStage::SyncContent, Ok(_)) => if with_metadata {
                FinalizeStage::ApplyMetadata
            } else {
                FinalizeStage::Replace
            },
            (FinalizeStage::SyncContent, Err(error)) => FinalizeStage::Failed { error },
            (FinalizeStage::ApplyMetadata, Ok(_)) => FinalizeStage::SyncMetadata,
            (FinalizeStage::ApplyMetadata, Err(error)) => FinalizeStage::RestoreAccess {
                error,
                strict: false,
            },
            (FinalizeStage::SyncMetadata, Ok(_)) => if cancelled {
                FinalizeStage::RestoreAccess {
                    error: CoreError::OperationCancelled { path: self.partial_path.clone() },
                    strict: true,
                }
            } else {
                FinalizeStage::Replace
            },
            (FinalizeStage::SyncMetadata, Err(error)) => FinalizeStage::RestoreAccess {
                error,
                strict: false,
            },
            (FinalizeStage::Replace, Ok(_)) => FinalizeStage::Done,
            (FinalizeStage::Replace, Err(error)) => if with_metadata {
                FinalizeStage::RestoreAccess { error, strict: false }
            } else {
                FinalizeStage::Failed { error }
            },
            (FinalizeStage::RestoreAccess { error, strict }, Ok(_)) => FinalizeStage::Failed {
                error,
            },
            (FinalizeStage::RestoreAccess { error, strict }, Err(restoring)) => if strict {
                FinalizeStage::Failed { error: restoring }
            } else {
                FinalizeStage::Failed { error }
            },
            (FinalizeStage::Done, _) => FinalizeStage::Done,
            (FinalizeStage::Failed { error }, _) => FinalizeStage::Failed { error },
        };
        Finalization {
            partial_path: self.partial_path,
            destination: self.destination,
            hash: self.hash,
            entry: self.entry,
            verified: self.verified,
            stage,
        }
    }
}

/// Starts to replace `destination` with the staged file next to it.
pub fn finalize_partial_file(destination: &str, expected_hash: &ContentHash) -> (finalization:
    Finalization)
    ensures
        finalization.starts(
            destination@ + PARTIAL_FILE_SUFFIX@,
            destination@,
            *expected_hash,
            None,
        ),
{
    Finalization {
        partial_path: partial_file_path(destination),
        destination: destination.to_owned(),
        hash: *expected_hash,
        entry: None,
        verified: None,
        stage: FinalizeStage::Verify,
    }
}

/// Starts to replace `destination` with the staged file next to it and to give
/// it the time and access of its manifest entry.
pub fn finalize_hashed_file(destination: &str, expected: &HashedFile) -> (result: Result<
    Finalization,
    CoreError,
>)
    ensures
        match result {
            Ok(finalization) => expected.entry.file_type == FileType::File && finalization.starts(
                destination@ + PARTIAL_FILE_SUFFIX@,
                destination@,
                expected.hash,
                Some(expected.entry),
            ),
            Err(CoreError::NotRegularFile { path }) => expected.entry.file_type != FileType::File
                && path@ == destination@ + PARTIAL_FILE_SUFFIX@,
            Err(_) => false,
        },
{
    let partial_path = partial_file_path(destination);
    finalize_hashed_file_from(partial_path.as_str(), destination, expected)
}

/// Starts to replace `destination` with an explicit staged file.
pub fn finalize_hashed_file_from(partial_path: &str, destination: &str, expected: &HashedFile) -> (
    result: Result<Finalization, CoreError>)
    ensures
        match result {
            Ok(finalization) => expected.entry.file_type == FileType::File && finalization.starts(
                partial_path@,
                destination@,
                expected.hash,
                Some(expected.entry),
            ),
            Err(CoreError::NotRegularFile { path }) => expected.entry.file_type != FileType::File
                && path@ == partial_path@,
            Err(_) => false,
        },
{
    finalize_hashed_file_from_cancellable(partial_path, destination, expected, false)
}

/// Starts to replace `destination` with an explicit staged file, unless the
/// work has been cancelled.
pub fn finalize_hashed_file_from_cancellable(
    partial_path: &str,
    destination: &str,
    expected: &HashedFile,
    cancelled: bool,
) -> (result: Result<Finalization, CoreError>)
    ensures
        match result {
            Ok(finalization) => {
                &&& expected.entry.file_type == FileType::File
                &&& !cancelled
                &&& finalization.starts(
                    partial_path@,
                    destination@,
                    expected.hash,
                    Some(expected.entry),
                )
            },
            Err(CoreError::NotRegularFile { path }) => expected.entry.file_type != FileType::File
                && path@ == partial_path@,
            Err(error) => {
                &&& expected.entry.file_type == FileType::File
                &&& cancelled
                &&& is_cancellation(error, partial_path@)
            },
        },
{
    if expected.entry.file_type != FileType::File {
        return Err(CoreError::NotRegularFile { path: partial_path.to_owned() });
    }
    if let Err(error) = ensure_not_cancelled(partial_path, cancelled) {
        return Err(error);
    }
    Ok(
        Finalization {
            partial_path: partial_path.to_owned(),
            destination: destination.to_owned(),
            hash: expected.hash,
            entry: Some(expected.entry.duplicate()),
            verified: None,
            stage: FinalizeStage::Verify,
        },
    )
}

/// A destination is replaced, or about to be, only by content that was read from
/// its staged file and has the expected hash, and that was found as long as its
/// entry says.
pub proof fn law_published_content_was_verified(finalization: Finalization)
    requires
        finalization.wf(),
        !(finalization.spec_stage() is Verify),
    ensures
        finalization.spec_verified() is Some,
        ({
            let partial = finalization.spec_verified()->0;
            &&& partial.spec_path() == finalization.spec_partial_path()
            &&& blake3_digest(partial.content()) == finalization.spec_hash()@
            &&& finalization.spec_entry() matches Some(entry) ==> partial.spec_metadata().size
                == entry.size && (partial.content().len() == partial.spec_metadata().size
                ==> partial.content().len() == entry.size)
        }),
{
}

/// The destination is replaced only by a rename that succeeded, and where
/// metadata was applied, the owner may write to the staged file again before
/// the failure is reported.
pub proof fn law_failed_finalization_is_undone(
    stage: FinalizeStage,
    with_metadata: bool,
    partial_path: Seq<char>,
    outcome: Result<(), CoreError>,
    cancelled: bool,
    next: FinalizeStage,
)
    requires
        next_stage(stage, with_metadata, partial_path, outcome, cancelled, next),
        !(stage is Done),
        !(stage is Failed),
    ensures
        next is Done <==> stage is Replace && outcome is Ok,
        next is Failed && with_metadata ==> stage is SyncContent || stage is RestoreAccess,
        outcome is Err && (stage is ApplyMetadata || stage is SyncMetadata || (stage is Replace
            && with_metadata)) ==> next is RestoreAccess && next->RestoreAccess_error
            == outcome->Err_0,
{
}

/// The units of `\\?\`, which keeps Windows from reading a path any further.
pub open spec fn verbatim_prefix() -> Seq<u16> {
    seq![0x5c, 0x5c, 0x3f, 0x5c]
}

/// The units of `\\?\UNC\`, the same for a network share.
pub open spec fn verbatim_share_prefix() -> Seq<u16> {
    seq![0x5c, 0x5c, 0x3f, 0x5c, 0x55, 0x4e, 0x43, 0x5c]
}

/// A path of wide units with backslashes only.
pub open spec fn with_backslashes(units: Seq<u16>) -> Seq<u16> {
    Seq::new(
        units.len(),
        |i: int|
            if units[i] == 0x2f {
                0x5c
            } else {
                units[i]
            },
    )
}

/// The path begins with these units.
pub open spec fn begins_with(units: Seq<u16>, prefix: Seq<u16>) -> bool {
    prefix.len() <= units.len() && units.take(prefix.len() as int) == prefix
}

/// An absolute Windows path in its verbatim form.
pub open spec fn verbatim(units: Seq<u16>) -> Seq<u16> {
    let path = with_backslashes(units);
    if begins_with(path, verbatim_prefix()) {
        path
    } else if begins_with(path, seq![0x5c, 0x5c]) {
        verbatim_share_prefix() + path.skip(2)
    } else {
        verbatim_prefix() + path
    }
}

/// Whether a path begins with these units.
fn has_units(units: &[u16], prefix: &[u16]) -> (yes: bool)
    ensures
        yes == begins_with(units@, prefix@),
{
    if units.len() < prefix.len() {
        return false;
    }
    let mut i: usize = 0;
    while i < prefix.len()
        invariant
            i <= prefix.len() <= units.len(),
            forall|k: int| 0 <= k < i ==> units@[k] == prefix@[k],
        decreases prefix.len() - i,
    {
        if units[i] != prefix[i] {
            assert(units@.take(prefix@.len() as int)[i as int] != prefix@[i as int]);
            return false;
        }
        i += 1;
    }
    assert(units@.take(prefix@.len() as int) =~= prefix@);
    true
}

/// An absolute path as Windows takes it: verbatim, and ended by a zero. A path
/// with a zero in it has no such form.
pub fn wide_null_terminated(units: &[u16]) -> (wide: Option<Vec<u16>>)
    ensures
        match wide {
            Some(found) => !verbatim(units@).contains(0) && found@ == verbatim(units@).push(0),
            None => verbatim(units@).contains(0),
        },
{
    let mut path: Vec<u16> = Vec::new();
    let mut i: usize = 0;
    while i < units.len()
        invariant
            i <= units.len(),
            path@ == with_backslashes(units@).take(i as int),
        decreases units.len() - i,
    {
        let unit: u16 = units[i];
        path.push(
            if unit == 0x2f {
                0x5c
            } else {
                unit
            },
        );
        assert(path@ =~= with_backslashes(units@).take(i + 1));
        i += 1;
    }
    assert(path@ =~= with_backslashes(units@));
    let prefix: [u16; 4] = [0x5c, 0x5c, 0x3f, 0x5c];
    let share: [u16; 2] = [0x5c, 0x5c];
    let mut wide: Vec<u16> = Vec::new();
    let mut next: usize = 0;
    assert(prefix@ =~= verbatim_prefix());
    assert(share@ =~= seq![0x5c, 0x5c]);
    if has_units(path.as_slice(), &prefix) {
    } else if has_units(path.as_slice(), &share) {
        let whole: [u16; 8] = [0x5c, 0x5c, 0x3f, 0x5c, 0x55, 0x4e, 0x43, 0x5c];
        wide.extend_from_slice(&whole);
        assert(wide@ =~= verbatim_share_prefix());
        next = 2;
    } else {
        wide.extend_from_slice(&prefix);
        assert(wide@ =~= verbatim_prefix());
    }
    let ghost head = wide@;
    let ghost start = next as int;
    assert(verbatim(units@) =~= head + path@.skip(start));
    while next < path.len()
        invariant
            0 <= start <= next <= path.len(),
            wide@ == head + path@.subrange(start, next as int),
        decreases path.len() - next,
    {
        wide.push(path[next]);
        assert(wide@ =~= head + path@.subrange(start, next + 1));
        next += 1;
    }
    assert(path@.subrange(start, next as int) =~= path@.skip(start));
    let mut k: usize = 0;
    while k < wide.len()
        invariant
            k <= wide.len(),
            wide@ == verbatim(units@),
            forall|j: int| 0 <= j < k ==> wide@[j] != 0,
        decreases wide.len() - k,
    {
        if wide[k] == 0 {
            assert(verbatim(units@)[k as int] == 0);
            return None;
        }
        k += 1;
    }
    wide.push(0);
    Some(wide)
}

/// Whatever path Windows is given, it does not read it any further; and a path
/// that is verbatim already stays as it is.
pub proof fn law_wide_paths_are_verbatim(units: Seq<u16>)
    ensures
        begins_with(verbatim(units), verbatim_prefix()),
        verbatim(verbatim(units)) == verbatim(units),
{
    let path = with_backslashes(units);
    let form = verbatim(units);
    if begins_with(path, verbatim_prefix()) {
    } else if begins_with(path, seq![0x5c, 0x5c]) {
        assert(form.take(4) =~= verbatim_prefix());
    } else {
        assert(form.take(4) =~= verbatim_prefix());
    }
    assert(with_backslashes(form) =~= form);
}

/// What succeeds is followed by what comes next: the content is written through, the
/// metadata is applied and written through where there is any, and then the destination
/// is replaced. A cancellation is heeded before that, and leaves the staged file
/// writable.
pub proof fn law_stages_come_in_order(
    stage: FinalizeStage,
    with_metadata: bool,
    partial_path: Seq<char>,
    cancelled: bool,
    next: FinalizeStage,
)
    requires
        next_stage(stage, with_metadata, partial_path, Ok(()), cancelled, next),
    ensures
        stage is SyncContent && with_metadata ==> next is ApplyMetadata,
        stage is SyncContent && !with_metadata ==> next is Replace,
        stage is ApplyMetadata ==> next is SyncMetadata,
        stage is SyncMetadata && !cancelled ==> next is Replace,
        stage is SyncMetadata && cancelled ==> next is RestoreAccess
            && next->RestoreAccess_error is OperationCancelled && next->strict,
        stage is Replace ==> next is Done,
        (stage matches FinalizeStage::RestoreAccess { error, strict } ==> next
            == FinalizeStage::Failed { error }),
{
}

/// A failure is reported as it happened. A failure to let the owner write again is
/// reported in its place only after a cancellation.
pub proof fn law_failures_are_reported_as_they_happened(
    stage: FinalizeStage,
    with_metadata: bool,
    partial_path: Seq<char>,
    failure: CoreError,
    cancelled: bool,
    next: FinalizeStage,
)
    requires
        next_stage(stage, with_metadata, partial_path, Err(failure), cancelled, next),
    ensures
        stage is SyncContent ==> next == (FinalizeStage::Failed { error: failure }),
        stage is ApplyMetadata || stage is SyncMetadata || (stage is Replace && with_metadata)
            ==> next == (FinalizeStage::RestoreAccess { error: failure, strict: false }),
        stage is Replace && !with_metadata ==> next == (FinalizeStage::Failed { error: failure }),
        (stage matches FinalizeStage::RestoreAccess { error, strict } ==> next is Failed
            && next->Failed_error == if strict {
            failure
        } else {
            error
        }),
{
}

/// A path of a drive gets the verbatim prefix before it, one of a server gets the
/// prefix for shares in place of its two backslashes, and each slash becomes a
/// backslash; nothing else changes.
pub proof fn law_wide_paths_keep_their_names(units: Seq<u16>)
    ensures
        ({
            let path = Seq::new(
                units.len(),
                |i: int|
                    if units[i] == 47 {
                        92u16
                    } else {
                        units[i]
                    },
            );
            let verbatim_form = path.len() >= 4 && path[0] == 92 && path[1] == 92 && path[2] == 63
                && path[3] == 92;
            let share = path.len() >= 2 && path[0] == 92 && path[1] == 92;
            &&& verbatim_form ==> verbatim(units) == path
            &&& !verbatim_form && share ==> verbatim(units) == seq![
                92u16,
                92,
                63,
                92,
                85,
                78,
                67,
                92,
            ] + path.skip(2)
            &&& !verbatim_form && !share ==> verbatim(units) == seq![92u16, 92, 63, 92] + path
        }),
{
    let path = with_backslashes(units);
    let shown = Seq::new(
        units.len(),
        |i: int|
            if units[i] == 47 {
                92u16
            } else {
                units[i]
            },
    );
    assert(path =~= shown);
    assert(begins_with(path, verbatim_prefix()) <==> path.len() >= 4 && path[0] == 92 && path[1]
        == 92 && path[2] == 63 && path[3] == 92) by {
        if path.len() >= 4 {
            if path[0] == 92 && path[1] == 92 && path[2] == 63 && path[3] == 92 {
                assert(path.take(4) =~= verbatim_prefix());
            }
            if path.take(4) == verbatim_prefix() {
                assert(path.take(4)[0] == 92 && path.take(4)[1] == 92 && path.take(4)[2] == 63
                    && path.take(4)[3] == 92);
            }
        }
    }
    let two = seq![0x5cu16, 0x5c];
    assert(begins_with(path, two) <==> path.len() >= 2 && path[0] == 92 && path[1] == 92) by {
        if path.len() >= 2 {
            if path[0] == 92 && path[1] == 92 {
                assert(path.take(2) =~= two);
            }
            if path.take(2) == two {
                assert(path.take(2)[0] == 92 && path.take(2)[1] == 92);
            }
        }
    }
}

} // verus!
