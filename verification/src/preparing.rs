//! The course of preparing to receive a file, from its negotiation to its plan.

use crate::error::{DataFault, NetworkFault, TransferError};
use crate::filesystem::{is_usable_partial, prepare_partial, ChunkCopy};
use crate::ids::Uuid;
use crate::incoming::{is_intact, no_chunks, IncomingFile};
use crate::lease::DestinationLeases;
use crate::manifest::IncomingJob;
use crate::metadata::NodeStatus;
use crate::model::{
    ChunkDescriptor, ContentHash, FileType, HashedFile, HashedFileView, ManifestEntry,
};
use crate::negotiate::{
    could_be, is_complete_plan, is_identical, lemma_reusable_is_expected, locate_incoming_file,
    plan_finalized_file, recorded_chunk, resume_incoming_file, reusable, shorter,
    should_hash_existing, should_recheck, FilePreparation, Resumption,
};
use crate::path::{is_wire_path, join_components, wire_path_error};
use crate::plan::{indices_where, is_plan_for, plan_complete_file};
use crate::records::{job_file_record, CompletedChunk, JobFileRecord, JobFileStatus};
use crate::stream::FilePlan;
use vstd::prelude::*;

verus! {

/// What the preparation of a file needs next.
#[derive(Debug, Clone, Copy, PartialEq, Eq, Structural)]
pub enum PrepareNeed {
    /// Where the file goes and where it is staged, both resolved.
    Places,
    /// What is at a destination that was finalized before.
    FinalizedStatus,
    /// The digest of that destination.
    FinalizedHash,
    /// What is at the destination.
    Destination,
    /// The destination hashed in chunks.
    DestinationHash,
    /// The metadata of the file given to the destination.
    Metadata,
    /// The staged file made ready.
    Partial,
    /// The records of the chunks removed.
    ClearedChunks,
    /// The chunks that are recorded as complete.
    RecordedChunks,
    /// The digest of the next recorded chunk in the staged file.
    StagedChunk,
    /// The next chunk copied from the destination into the staged file.
    Copy,
    /// The chunks that were copied recorded as complete.
    CopiedRecords,
    /// The file entered among those of the job.
    Entry,
    /// The row of the file, running.
    Row,
    /// Nothing but the plan.
    Plan,
}

/// What is known of a preparation.
#[verifier::ext_equal]
pub ghost struct PreparationView {
    pub job_id: Uuid,
    pub file: HashedFileView,
    pub need: PrepareNeed,
    pub destination: Seq<char>,
    pub staging: Seq<char>,
    /// The file was negotiated before.
    pub known: bool,
    /// The destination has the content of the file.
    pub complete: bool,
    /// The chunks of what is at the destination, where it is worth reusing.
    pub available: Seq<ChunkDescriptor>,
    /// The recorded chunks still to be read back.
    pub recorded: Seq<u64>,
    /// The chunks still to be copied.
    pub candidates: Seq<ChunkDescriptor>,
    pub resumed: Set<u64>,
    pub reused: Set<u64>,
    /// The digests that were read back.
    pub digests: Map<u64, ContentHash>,
    /// What was copied of the chunks that are reused.
    pub copies: Map<u64, Seq<u8>>,
}

/// What comes after the chunks: a file that was not negotiated before is entered.
pub open spec fn need_after_chunks(known: bool) -> PrepareNeed {
    if known {
        PrepareNeed::Row
    } else {
        PrepareNeed::Entry
    }
}

/// A preparation once the destination was hashed.
pub open spec fn after_destination(
    view: PreparationView,
    hash: ContentHash,
    chunks: Seq<ChunkDescriptor>,
) -> PreparationView {
    if hash == view.file.hash {
        PreparationView { need: PrepareNeed::Metadata, complete: true, ..view }
    } else {
        PreparationView { need: PrepareNeed::Partial, available: chunks, ..view }
    }
}

/// What comes after the recorded chunks: the chunks of the destination.
pub open spec fn after_recorded(view: PreparationView) -> PreparationView {
    let candidates = reusable(
        view.file.chunks,
        view.available,
        view.resumed,
        shorter(view.file.chunks.len(), view.available.len()),
    );
    PreparationView {
        candidates,
        need: if candidates.len() > 0 {
            PrepareNeed::Copy
        } else {
            need_after_chunks(view.known)
        },
        ..view
    }
}

/// The staged file has every chunk that is resumed, under its digest.
pub open spec fn resumes_verified_chunks(view: PreparationView) -> bool {
    forall|index: u64| #[trigger]
        view.resumed.contains(index) ==> view.digests.contains_key(index) && (recorded_chunk(
            view.file.chunks,
            index,
        ) matches Some(chunk) && chunk.hash == view.digests[index])
}

/// Under each number there is a copy of a chunk with that number.
pub open spec fn are_whole_copies(
    indices: Set<u64>,
    copies: Map<u64, Seq<u8>>,
    chunks: Seq<ChunkDescriptor>,
) -> bool {
    forall|index: u64| #[trigger]
        indices.contains(index) ==> {
            &&& copies.contains_key(index)
            &&& exists|i: int|
                #![trigger chunks[i]]
                0 <= i < chunks.len() && chunks[i].index == index && is_intact(
                    chunks[i],
                    copies[index],
                )
        }
}

/// The staged file has every chunk that is reused, whole and under its digest.
pub open spec fn reuses_verified_chunks(view: PreparationView) -> bool {
    are_whole_copies(view.reused, view.copies, view.file.chunks)
}

/// Why a file that was finalized before cannot be negotiated again.
pub open spec fn is_changed_destination(error: TransferError, path: Seq<char>) -> bool {
    error matches TransferError::InvalidData(DataFault::FinalizedDestinationChanged { path: p })
        && p@ == path
}

/// The preparation of one file.
pub struct PreparationRun {
    job_id: Uuid,
    file: HashedFile,
    need: PrepareNeed,
    destination: String,
    staging: String,
    known: bool,
    complete: bool,
    status: Option<NodeStatus>,
    existing: Option<HashedFile>,
    recorded: Vec<u64>,
    read: usize,
    candidates: Vec<ChunkDescriptor>,
    copied: usize,
    chunks: FilePreparation,
    digests: Ghost<Map<u64, ContentHash>>,
    copies: Ghost<Map<u64, Seq<u8>>>,
}

impl View for PreparationRun {
    type V = PreparationView;

    closed spec fn view(&self) -> PreparationView {
        PreparationView {
            job_id: self.job_id,
            file: self.file@,
            need: self.need,
            destination: self.destination@,
            staging: self.staging@,
            known: self.known,
            complete: self.complete,
            available: match self.existing {
                Some(existing) => existing.chunks@,
                None => Seq::empty(),
            },
            recorded: self.recorded@.skip(self.read as int),
            candidates: self.candidates@.skip(self.copied as int),
            resumed: self.chunks.spec_resumed(),
            reused: self.chunks.spec_reused(),
            digests: self.digests@,
            copies: self.copies@,
        }
    }
}

impl PreparationRun {
    closed spec fn inv(self) -> bool {
        &&& self.chunks.spec_file() == self.file@
        &&& self.read <= self.recorded@.len()
        &&& self.copied <= self.candidates@.len()
        &&& forall|i: int|
            0 <= i < self.candidates@.len() ==> self.file.chunks@.contains(
                #[trigger] self.candidates@[i],
            )
        &&& self.need == PrepareNeed::FinalizedHash ==> self.status is Some && could_be(
            self.status->0,
            self.file@,
        )
    }

    pub closed spec fn wf(self) -> bool {
        &&& self.inv()
        &&& resumes_verified_chunks(self@)
        &&& reuses_verified_chunks(self@)
        &&& self.need == PrepareNeed::StagedChunk ==> self.read < self.recorded@.len()
        &&& self.need == PrepareNeed::Copy ==> self.copied < self.candidates@.len()
    }

    /// Begins the preparation. The job must hold the lease on the destination.
    pub fn begin(job: &IncomingJob, leases: &DestinationLeases, file: HashedFile) -> (result: Result<
        Self,
        TransferError,
    >)
        ensures
            ({
                let path = file.entry.relative_path@;
                let candidate = join_components(
                    job@.parameters.platform,
                    job@.parameters.destination_root,
                    crate::text::split(path, '/'),
                );
                let held = leases.holds(job@.parameters.key, candidate, path);
                match result {
                    Ok(run) => {
                        &&& is_wire_path(path) && held
                        &&& run.wf()
                        &&& run@.need == PrepareNeed::Places
                        &&& run@.job_id == job@.parameters.key.job_id
                        &&& run@.file == file@
                        &&& run@.resumed == Set::<u64>::empty()
                        &&& run@.reused == Set::<u64>::empty()
                        &&& run@.available == Seq::<ChunkDescriptor>::empty()
                        &&& run@.recorded == Seq::<u64>::empty()
                        &&& run@.candidates == Seq::<ChunkDescriptor>::empty()
                        &&& run@.digests == Map::<u64, ContentHash>::empty()
                        &&& run@.copies == Map::<u64, Seq<u8>>::empty()
                        &&& !run@.complete
                    },
                    Err(TransferError::InvalidData(DataFault::InvalidPath { path: p, source })) => p@
                        == path && wire_path_error(path) == Some(source),
                    Err(TransferError::InvalidData(DataFault::LeaseLost { job_id, path: p })) => {
                        &&& is_wire_path(path) && !held
                        &&& job_id == job@.parameters.key.job_id
                        &&& p@ == path
                    },
                    Err(_) => false,
                }
            }),
    {
        match locate_incoming_file(job, leases, file.entry.relative_path.as_str()) {
            Ok(_) => {},
            Err(error) => return Err(error),
        }
        let chunks = FilePreparation::new(file.duplicate());
        let run = PreparationRun {
            job_id: job.key().job_id,
            file,
            need: PrepareNeed::Places,
            destination: "".to_owned(),
            staging: "".to_owned(),
            known: false,
            complete: false,
            status: None,
            existing: None,
            recorded: Vec::new(),
            read: 0,
            candidates: Vec::new(),
            copied: 0,
            chunks,
            digests: Ghost(Map::empty()),
            copies: Ghost(Map::empty()),
        };
        assert(run@.recorded =~= Seq::<u64>::empty());
        assert(run@.candidates =~= Seq::<ChunkDescriptor>::empty());
        Ok(run)
    }

    /// What is needed next.
    pub fn need(&self) -> (need: PrepareNeed)
        ensures
            need == self@.need,
    {
        self.need
    }

    /// The file that is prepared.
    pub fn file(&self) -> (file: &HashedFile)
        ensures
            file@ == self@.file,
    {
        &self.file
    }

    /// Where the file goes.
    pub fn destination_path(&self) -> (path: &str)
        ensures
            path@ == self@.destination,
    {
        self.destination.as_str()
    }

    /// Where the file is staged.
    pub fn staging_path(&self) -> (path: &str)
        ensures
            path@ == self@.staging,
    {
        self.staging.as_str()
    }

    /// Takes the resolved places, and what an earlier negotiation of the file has
    /// left. That must have been about the same content at the same places, and
    /// its uploads must have stopped.
    pub fn places(
        &mut self,
        existing: Option<&IncomingFile>,
        destination: String,
        staging: String,
    ) -> (result: Result<(), TransferError>)
        requires
            old(self).wf(),
            old(self)@.need == PrepareNeed::Places,
        ensures
            ({
                let file = old(self)@.file;
                let same = existing matches Some(known) ==> known@.file == file
                    && known@.destination == destination@ && known@.staging == staging@;
                let quiet = existing matches Some(known) ==> known@.inflight == no_chunks();
                match result {
                    Ok(_) => {
                        &&& same && quiet
                        &&& final(self).wf()
                        &&& final(self)@ == (PreparationView {
                            need: if existing is Some && existing->0@.finalized {
                                PrepareNeed::FinalizedStatus
                            } else {
                                PrepareNeed::Destination
                            },
                            destination: destination@,
                            staging: staging@,
                            known: existing is Some,
                            ..old(self)@
                        })
                    },
                    Err(TransferError::InvalidData(DataFault::NegotiationChanged { path })) => !same
                        && path@ == file.entry.path,
                    Err(TransferError::Network(NetworkFault::UploadsUnfinished { path })) => same
                        && !quiet && path@ == file.entry.path,
                    Err(_) => false,
                }
            }),
    {
        match resume_incoming_file(existing, &self.file, destination.as_str(), staging.as_str()) {
            Ok(resumption) => {
                self.need = match resumption {
                    Resumption::Finalized => PrepareNeed::FinalizedStatus,
                    _ => PrepareNeed::Destination,
                };
            },
            Err(error) => return Err(error),
        }
        self.known = existing.is_some();
        self.destination = destination;
        self.staging = staging;
        Ok(())
    }

    /// Takes what is at a destination that was finalized before: only a regular
    /// file of the right length is worth hashing again.
    pub fn finalized_status(&mut self, status: NodeStatus) -> (result: Result<(), TransferError>)
        requires
            old(self).wf(),
            old(self)@.need == PrepareNeed::FinalizedStatus,
        ensures
            match result {
                Ok(_) => {
                    &&& could_be(status, old(self)@.file)
                    &&& final(self).wf()
                    &&& final(self)@ == (PreparationView {
                        need: PrepareNeed::FinalizedHash,
                        ..old(self)@
                    })
                },
                Err(error) => !could_be(status, old(self)@.file) && is_changed_destination(
                    error,
                    old(self)@.file.entry.path,
                ),
            },
    {
        if !should_recheck(&self.file, &status) {
            return match plan_finalized_file(&self.file, &status, None) {
                Ok(_) => Ok(()),
                Err(error) => Err(error),
            };
        }
        self.status = Some(status);
        self.need = PrepareNeed::FinalizedHash;
        Ok(())
    }

    /// Takes the digest of that destination, which must be that of the file:
    /// nothing is left to receive.
    pub fn finalized_hash(&mut self, hash: &ContentHash) -> (result: Result<(), TransferError>)
        requires
            old(self).wf(),
            old(self)@.need == PrepareNeed::FinalizedHash,
        ensures
            match result {
                Ok(_) => {
                    &&& *hash == old(self)@.file.hash
                    &&& final(self).wf()
                    &&& final(self)@ == (PreparationView {
                        need: PrepareNeed::Row,
                        complete: true,
                        ..old(self)@
                    })
                },
                Err(error) => *hash != old(self)@.file.hash && is_changed_destination(
                    error,
                    old(self)@.file.entry.path,
                ),
            },
    {
        let status = match &self.status {
            Some(status) => *status,
            None => return Ok(()),
        };
        match plan_finalized_file(&self.file, &status, Some(hash)) {
            Ok(_) => {},
            Err(error) => return Err(error),
        }
        self.complete = true;
        self.need = PrepareNeed::Row;
        Ok(())
    }

    /// Takes what is at the destination. It must be a regular file, if anything is
    /// there, and is worth hashing only at the right length.
    pub fn destination(&mut self, actual: Option<&ManifestEntry>) -> (result: Result<
        (),
        TransferError,
    >)
        requires
            old(self).wf(),
            old(self)@.need == PrepareNeed::Destination,
        ensures
            match (actual, result) {
                (None, Ok(_)) => {
                    &&& final(self).wf()
                    &&& final(self)@ == (PreparationView {
                        need: PrepareNeed::Partial,
                        ..old(self)@
                    })
                },
                (Some(found), Ok(_)) => {
                    &&& found.file_type == FileType::File
                    &&& final(self).wf()
                    &&& final(self)@ == (PreparationView {
                        need: if found.size == old(self)@.file.entry.metadata.size {
                            PrepareNeed::DestinationHash
                        } else {
                            PrepareNeed::Partial
                        },
                        ..old(self)@
                    })
                },
                (
                    Some(found),
                    Err(TransferError::InvalidData(DataFault::DestinationNotFile { path })),
                ) => found.file_type != FileType::File && path@ == old(self)@.destination,
                _ => false,
            },
    {
        match should_hash_existing(&self.file, self.destination.as_str(), actual) {
            Ok(hash) => {
                self.need = if hash {
                    PrepareNeed::DestinationHash
                } else {
                    PrepareNeed::Partial
                };
                Ok(())
            },
            Err(error) => Err(error),
        }
    }

    /// Takes the destination hashed in chunks. One with the content of the file
    /// only gets its metadata; what another has in the same place is reused.
    pub fn destination_hash(&mut self, existing: HashedFile)
        requires
            old(self).wf(),
            old(self)@.need == PrepareNeed::DestinationHash,
        ensures
            final(self).wf(),
            final(self)@ == after_destination(old(self)@, existing.hash, existing.chunks@),
    {
        if is_identical(&self.file, Some(&existing)) {
            self.complete = true;
            self.need = PrepareNeed::Metadata;
        } else {
            self.existing = Some(existing);
            self.need = PrepareNeed::Partial;
        }
    }

    /// The destination has the metadata of the file.
    pub fn metadata_applied(&mut self)
        requires
            old(self).wf(),
            old(self)@.need == PrepareNeed::Metadata,
        ensures
            final(self).wf(),
            final(self)@ == (PreparationView { need: PrepareNeed::Entry, ..old(self)@ }),
    {
        self.need = PrepareNeed::Entry;
    }

    /// The staged file is ready; `found` is what was there before. What was received
    /// into a usable file is kept. The records of the chunks go with what was
    /// received.
    pub fn partial(&mut self, found: Option<NodeStatus>)
        requires
            old(self).wf(),
            old(self)@.need == PrepareNeed::Partial,
        ensures
            final(self).wf(),
            final(self)@ == (PreparationView {
                need: if is_usable_partial(found, old(self)@.file.entry.metadata.size) {
                    PrepareNeed::RecordedChunks
                } else {
                    PrepareNeed::ClearedChunks
                },
                ..old(self)@
            }),
    {
        self.need = if prepare_partial(found, self.file.entry.size) {
            PrepareNeed::RecordedChunks
        } else {
            PrepareNeed::ClearedChunks
        };
    }

    /// The records of the chunks are removed.
    pub fn cleared(&mut self)
        requires
            old(self).wf(),
            old(self)@.need == PrepareNeed::ClearedChunks,
        ensures
            final(self).wf(),
            final(self)@ == (PreparationView { need: PrepareNeed::RecordedChunks, ..old(self)@ }),
    {
        self.need = PrepareNeed::RecordedChunks;
    }

    /// Turns to the chunks of the destination.
    fn finish_recorded(&mut self)
        requires
            old(self).inv(),
            resumes_verified_chunks(old(self)@),
            reuses_verified_chunks(old(self)@),
        ensures
            final(self).wf(),
            final(self)@ == after_recorded(old(self)@),
    {
        proof {
            let before = old(self)@;
            lemma_reusable_is_expected(
                before.file.chunks,
                before.available,
                before.resumed,
                shorter(before.file.chunks.len(), before.available.len()),
            );
        }
        self.candidates = match &self.existing {
            Some(existing) => self.chunks.reuse_candidates(existing),
            None => Vec::new(),
        };
        self.copied = 0;
        assert(self.candidates@.skip(0) =~= self.candidates@);
        self.need = if self.candidates.len() > 0 {
            PrepareNeed::Copy
        } else if self.known {
            PrepareNeed::Row
        } else {
            PrepareNeed::Entry
        };
    }

    /// Takes the chunks that are recorded as complete. Each is read back before it
    /// is believed.
    pub fn recorded(&mut self, indices: Vec<u64>)
        requires
            old(self).wf(),
            old(self)@.need == PrepareNeed::RecordedChunks,
        ensures
            final(self).wf(),
            final(self)@ == if indices@.len() > 0 {
                PreparationView {
                    need: PrepareNeed::StagedChunk,
                    recorded: indices@,
                    ..old(self)@
                }
            } else {
                after_recorded(PreparationView { recorded: Seq::empty(), ..old(self)@ })
            },
    {
        let count: usize = indices.len();
        self.recorded = indices;
        self.read = 0;
        assert(self.recorded@.skip(0) =~= self.recorded@);
        if count > 0 {
            self.need = PrepareNeed::StagedChunk;
        } else {
            assert(self@.recorded =~= Seq::empty());
            self.finish_recorded();
        }
    }

    /// The recorded chunk to read back next: its number, and where it is if the
    /// file has it.
    pub fn next_recorded(&self) -> (next: (u64, Option<ChunkDescriptor>))
        requires
            self.wf(),
            self@.need == PrepareNeed::StagedChunk,
        ensures
            self@.recorded.len() > 0,
            next.0 == self@.recorded[0],
            next.1 == recorded_chunk(self@.file.chunks, next.0),
    {
        let index: u64 = self.recorded[self.read];
        (index, self.chunks.resume_candidate(index))
    }

    /// Takes the digest of that chunk in the staged file, if it could be read. A
    /// chunk without its digest is not believed, and its record is to be removed.
    pub fn staged_chunk(&mut self, hash: Option<&ContentHash>) -> (kept: bool)
        requires
            old(self).wf(),
            old(self)@.need == PrepareNeed::StagedChunk,
        ensures
            final(self).wf(),
            ({
                let index = old(self)@.recorded[0];
                let rest = old(self)@.recorded.skip(1);
                let taken = if kept {
                    PreparationView {
                        recorded: rest,
                        resumed: old(self)@.resumed.insert(index),
                        digests: old(self)@.digests.insert(index, *hash->0),
                        ..old(self)@
                    }
                } else {
                    PreparationView { recorded: rest, ..old(self)@ }
                };
                &&& kept == (recorded_chunk(old(self)@.file.chunks, index) matches Some(chunk) && (
                hash matches Some(h) && *h == chunk.hash))
                &&& final(self)@ == if rest.len() > 0 {
                    taken
                } else {
                    after_recorded(taken)
                }
            }),
    {
        let index: u64 = self.recorded[self.read];
        let ghost before = self@;
        assert(before.recorded[0] == index);
        let kept = self.chunks.resume(index, hash);
        if kept {
            self.digests = Ghost(self.digests@.insert(index, *hash->0));
        }
        let count: usize = self.recorded.len();
        assert(self.read < count);
        self.read = self.read + 1;
        assert(self@.recorded =~= before.recorded.skip(1));
        if self.read == count {
            self.finish_recorded();
        }
        kept
    }

    /// The chunk to copy next.
    pub fn next_copy(&self) -> (chunk: ChunkDescriptor)
        requires
            self.wf(),
            self@.need == PrepareNeed::Copy,
        ensures
            self@.candidates.len() > 0,
            chunk == self@.candidates[0],
    {
        self.candidates[self.copied]
    }

    /// Takes what was copied of that chunk. It is reused only if it was copied whole
    /// and has its digest.
    pub fn copied(&mut self, copy: ChunkCopy)
        requires
            old(self).wf(),
            old(self)@.need == PrepareNeed::Copy,
            copy.wf(),
            copy.spec_chunk() == old(self)@.candidates[0],
        ensures
            final(self).wf(),
            ({
                let chunk = old(self)@.candidates[0];
                let rest = old(self)@.candidates.skip(1);
                let whole = is_intact(chunk, copy.content());
                let reused = if whole {
                    old(self)@.reused.insert(chunk.index)
                } else {
                    old(self)@.reused
                };
                final(self)@ == (PreparationView {
                    candidates: rest,
                    reused,
                    copies: if whole {
                        old(self)@.copies.insert(chunk.index, copy.content())
                    } else {
                        old(self)@.copies
                    },
                    need: if rest.len() > 0 {
                        PrepareNeed::Copy
                    } else if indices_where(
                        old(self)@.file.chunks,
                        |index: u64| reused.contains(index),
                    ).len() > 0 {
                        PrepareNeed::CopiedRecords
                    } else {
                        need_after_chunks(old(self)@.known)
                    },
                    ..old(self)@
                })
            }),
    {
        let ghost before = self@;
        let chunk = self.candidates[self.copied];
        let ghost content = copy.content();
        assert(before.candidates[0] == chunk);
        let whole = copy.finish();
        self.chunks.reuse(chunk.index, whole);
        if whole {
            self.copies = Ghost(self.copies@.insert(chunk.index, content));
            proof {
                let chunks = self.file.chunks@;
                let place = choose|i: int| 0 <= i < chunks.len() && chunks[i] == chunk;
                assert(is_intact(chunks[place], self.copies@[chunk.index]));
            }
        }
        assert(reuses_verified_chunks(self@));
        let count: usize = self.candidates.len();
        assert(self.copied < count);
        self.copied = self.copied + 1;
        assert(self@.candidates =~= before.candidates.skip(1));
        if self.copied == count {
            let ghost reused = self.chunks.spec_reused();
            assert((|index: u64| self.chunks.spec_reused().contains(index)) =~= (|index: u64|
                reused.contains(index)));
            let records = self.chunks.reused_records(self.job_id, 0);
            self.need = if records.len() > 0 {
                PrepareNeed::CopiedRecords
            } else if self.known {
                PrepareNeed::Row
            } else {
                PrepareNeed::Entry
            };
        }
    }

    /// The records of the chunks that were copied, in file order.
    pub fn copied_records(&self, now: i64) -> (records: Vec<CompletedChunk>)
        requires
            self.wf(),
        ensures
            ({
                let indices = indices_where(
                    self@.file.chunks,
                    |index: u64| self@.reused.contains(index),
                );
                &&& records@.len() == indices.len()
                &&& forall|k: int|
                    0 <= k < records@.len() ==> {
                        &&& (#[trigger] records@[k]).index == indices[k]
                        &&& records@[k].job_id == self@.job_id
                        &&& records@[k].path@ == self@.file.entry.path
                        &&& records@[k].source_hash == self@.file.hash
                        &&& records@[k].completed_at == now
                    }
            }),
    {
        assert((|index: u64| self.chunks.spec_reused().contains(index)) =~= (|index: u64|
            self@.reused.contains(index)));
        self.chunks.reused_records(self.job_id, now)
    }

    /// The chunks that were copied are recorded as complete.
    pub fn copies_recorded(&mut self)
        requires
            old(self).wf(),
            old(self)@.need == PrepareNeed::CopiedRecords,
        ensures
            final(self).wf(),
            final(self)@ == (PreparationView {
                need: need_after_chunks(old(self)@.known),
                ..old(self)@
            }),
    {
        self.need = if self.known {
            PrepareNeed::Row
        } else {
            PrepareNeed::Entry
        };
    }

    /// Whether the file is entered as finalized: the destination has its content.
    pub fn is_complete(&self) -> (complete: bool)
        ensures
            complete == self@.complete,
    {
        self.complete
    }

    /// The file is entered among those of the job.
    pub fn entered(&mut self)
        requires
            old(self).wf(),
            old(self)@.need == PrepareNeed::Entry,
        ensures
            final(self).wf(),
            final(self)@ == (PreparationView { need: PrepareNeed::Row, ..old(self)@ }),
    {
        self.need = PrepareNeed::Row;
    }

    /// The row of the file: it is running, with nothing transferred and no error.
    pub fn record(&self, now: i64) -> (record: JobFileRecord)
        ensures
            record.is_new(
                self@.job_id,
                self@.file.entry.path,
                self@.file.entry.metadata.size,
                JobFileStatus::Running,
                None,
                now,
            ),
    {
        job_file_record(
            self.job_id,
            self.file.entry.relative_path.as_str(),
            self.file.entry.size,
            JobFileStatus::Running,
            None,
            now,
        )
    }

    /// The row of the file is written.
    pub fn row_written(&mut self)
        requires
            old(self).wf(),
            old(self)@.need == PrepareNeed::Row,
        ensures
            final(self).wf(),
            final(self)@ == (PreparationView { need: PrepareNeed::Plan, ..old(self)@ }),
    {
        self.need = PrepareNeed::Plan;
    }

    /// The plan: whatever is not here is missing.
    pub fn plan(self) -> (plan: FilePlan)
        requires
            self.wf(),
            self@.need == PrepareNeed::Plan,
        ensures
            if self@.complete {
                is_complete_plan(plan, self@.file)
            } else {
                is_plan_for(
                    plan,
                    self@.file.entry.path,
                    self@.file.chunks,
                    self@.resumed,
                    self@.reused,
                )
            },
    {
        if self.complete {
            plan_complete_file(&self.file)
        } else {
            self.chunks.plan()
        }
    }

    /// A chunk is resumed only after its bytes were read back from the staged file
    /// and had its digest.
    pub proof fn law_resumed_chunks_were_read_back(&self)
        requires
            self.wf(),
        ensures
            resumes_verified_chunks(self@),
    {
    }

    /// A chunk is reused only after its bytes were copied whole into the staged file
    /// and had its digest.
    pub proof fn law_reused_chunks_were_copied_whole(&self)
        requires
            self.wf(),
        ensures
            reuses_verified_chunks(self@),
    {
    }
}

/// Once the recorded chunks were read back, what the destination has of the others is
/// copied; where it has nothing, the file is entered, or only its row where it was known.
pub proof fn law_what_follows_the_recorded_chunks(view: PreparationView)
    requires
        forall|k: int| 0 <= k < view.file.chunks.len() ==> (#[trigger] view.file.chunks[k]).index == k,
    ensures
        ({
            let after = after_recorded(view);
            let some = exists|i: int|
                #![trigger view.file.chunks[i]]
                0 <= i < view.file.chunks.len() && i < view.available.len()
                    && view.file.chunks[i].hash == view.available[i].hash && !view.resumed.contains(
                    view.file.chunks[i].index,
                );
            &&& some <==> after.need is Copy
            &&& !some && view.known <==> after.need is Row
            &&& !some && !view.known <==> after.need is Entry
            &&& after.resumed == view.resumed && after.reused == view.reused
        }),
{
    crate::negotiate::law_chunks_are_reused_one_by_one(
        view.file.chunks,
        view.available,
        view.resumed,
    );
    let candidates = after_recorded(view).candidates;
    if candidates.len() > 0 {
        assert(view.file.chunks.contains(candidates[0]));
        let i = choose|i: int|
            0 <= i < view.file.chunks.len() && view.file.chunks[i] == candidates[0];
        assert(candidates.contains(view.file.chunks[i]));
    }
}

/// What is kept of an earlier attempt, and what is taken from the destination, is what
/// the file has there: a resumed chunk was read back with the hash of the chunk of that
/// number, and a reused one was copied with its length and its digest.
pub proof fn law_kept_chunks_are_those_of_the_file(preparation: &PreparationRun, index: u64)
    requires
        preparation.wf(),
    ensures
        ({
            let view = preparation@;
            let chunks = view.file.chunks;
            &&& view.resumed.contains(index) ==> {
                &&& index < chunks.len()
                &&& chunks[index as int].index == index
                &&& view.digests.contains_key(index)
                &&& view.digests[index] == chunks[index as int].hash
            }
            &&& view.reused.contains(index) ==> {
                &&& view.copies.contains_key(index)
                &&& exists|i: int|
                    #![trigger chunks[i]]
                    0 <= i < chunks.len() && chunks[i].index == index && view.copies[index].len()
                        == chunks[i].size && crate::digest::blake3_digest(view.copies[index])
                        == chunks[i].hash@
            }
        }),
{
    preparation.law_resumed_chunks_were_read_back();
    preparation.law_reused_chunks_were_copied_whole();
    let view = preparation@;
    let chunks = view.file.chunks;
    if view.reused.contains(index) {
        let i = choose|i: int|
            #![trigger chunks[i]]
            0 <= i < chunks.len() && chunks[i].index == index && is_intact(
                chunks[i],
                view.copies[index],
            );
        assert(chunks[i].index == index);
    }
}

/// A destination with the hash of the file is the file, and only gets its metadata. Of
/// any other, all chunks are there to be reused.
pub proof fn law_a_destination_is_the_file_by_its_hash(
    view: PreparationView,
    hash: ContentHash,
    chunks: Seq<ChunkDescriptor>,
)
    requires
        !view.complete,
    ensures
        ({
            let after = after_destination(view, hash, chunks);
            &&& after.complete <==> hash == view.file.hash
            &&& after.need is Metadata <==> hash == view.file.hash
            &&& after.need is Partial <==> hash != view.file.hash
            &&& hash != view.file.hash ==> after.available == chunks
            &&& after.resumed == view.resumed && after.reused == view.reused
            &&& after.file == view.file && after.destination == view.destination
        }),
{
}

} // verus!
