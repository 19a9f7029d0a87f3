//! The life of a record: how revisions are created, superseded, archived and
//! brought back, and which attempts are refused.
//!
//! All revisions of a record share its base identifier. The first revision
//! has version 1 and each update adds the next one; a revision that has been
//! superseded never changes again. Conflicts are found when a change is
//! committed, by comparing versions: nothing is held across calls.

use vstd::prelude::*;

verus! {

/// Why a change to a record was refused.
#[derive(Clone, Copy, Debug, PartialEq, Eq, Structural)]
pub enum VersionError {
    /// The record has no revision of the version that was named.
    NotFound,
    /// The revision that was named has been superseded: another writer got
    /// there first.
    RaceCondition,
    /// The revision already is what the change would make of it.
    AlreadyInState,
    /// The record has as many revisions as can be numbered.
    Internal,
}

/// What is known of one revision: who created it, whether it is archived
/// and by whom.
#[derive(Clone, Copy, Debug, PartialEq, Eq, Structural)]
pub struct RevisionMetadata {
    pub version: u32,
    pub created_by: u128,
    pub archived_by: Option<u128>,
    pub archived: bool,
}

/// The revisions of one record, as a mathematical value.
pub struct HistoryModel {
    pub owned_by: u128,
    pub revisions: Seq<RevisionMetadata>,
}

/// The outcome of a change: the history that it leaves and the metadata of
/// the revision that it made or changed.
pub struct Change {
    pub history: HistoryModel,
    pub metadata: RevisionMetadata,
}

impl HistoryModel {
    /// A history has a first revision, numbers its revisions from 1 without
    /// gaps, and names who archived a revision exactly where the revision
    /// is archived.
    pub open spec fn well_formed(self) -> bool {
        &&& 1 <= self.revisions.len() <= u32::MAX
        &&& forall|i: int|
            0 <= i < self.revisions.len() ==> (#[trigger] self.revisions[i]).version == i + 1
        &&& forall|i: int|
            0 <= i < self.revisions.len() ==> ((#[trigger] self.revisions[i]).archived
                <==> self.revisions[i].archived_by is Some)
    }

    /// The version of the latest revision.
    pub open spec fn latest_version(self) -> int {
        self.revisions.len() as int
    }

    /// The latest revision.
    pub open spec fn latest(self) -> RevisionMetadata {
        self.revisions.last()
    }

    /// Whether the record has a revision of the given version.
    pub open spec fn has(self, version: u32) -> bool {
        1 <= version <= self.revisions.len()
    }

    /// The history of a record that has just been created.
    pub open spec fn created(owned_by: u128, actor: u128) -> HistoryModel {
        HistoryModel {
            owned_by,
            revisions: seq![
                RevisionMetadata { version: 1, created_by: actor, archived_by: None, archived: false },
            ],
        }
    }

    /// The version that names the latest revision, or the reason why a
    /// change to the revision of that version is refused: the revision does
    /// not exist, or it has been superseded.
    pub open spec fn check_latest(self, version: u32) -> Option<VersionError> {
        if !self.has(version) {
            Some(VersionError::NotFound)
        } else if version < self.latest_version() {
            Some(VersionError::RaceCondition)
        } else {
            None
        }
    }

    /// The history with the latest revision replaced.
    pub open spec fn with_latest(self, metadata: RevisionMetadata) -> HistoryModel {
        HistoryModel {
            owned_by: self.owned_by,
            revisions: self.revisions.drop_last().push(metadata),
        }
    }

    /// Updating the revision `prior`: the next revision is added, created by
    /// `actor` and not archived.
    pub open spec fn updated(self, prior: u32, actor: u128) -> Result<Change, VersionError> {
        match self.check_latest(prior) {
            Some(error) => Err(error),
            None => if prior == u32::MAX {
                Err(VersionError::Internal)
            } else {
                let metadata = RevisionMetadata {
                    version: (prior + 1) as u32,
                    created_by: actor,
                    archived_by: None,
                    archived: false,
                };
                Ok(
                    Change {
                        history: HistoryModel {
                            owned_by: self.owned_by,
                            revisions: self.revisions.push(metadata),
                        },
                        metadata,
                    },
                )
            },
        }
    }

    /// Archiving the revision `version` in the name of `actor`.
    pub open spec fn archived(self, version: u32, actor: u128) -> Result<Change, VersionError> {
        match self.check_latest(version) {
            Some(error) => Err(error),
            None => if self.latest().archived {
                Err(VersionError::AlreadyInState)
            } else {
                let metadata = RevisionMetadata {
                    version,
                    created_by: self.latest().created_by,
                    archived_by: Some(actor),
                    archived: true,
                };
                Ok(Change { history: self.with_latest(metadata), metadata })
            },
        }
    }

    /// Bringing the revision `version` back from the archive.
    pub open spec fn unarchived(self, version: u32) -> Result<Change, VersionError> {
        match self.check_latest(version) {
            Some(error) => Err(error),
            None => if !self.latest().archived {
                Err(VersionError::AlreadyInState)
            } else {
                let metadata = RevisionMetadata {
                    version,
                    created_by: self.latest().created_by,
                    archived_by: None,
                    archived: false,
                };
                Ok(Change { history: self.with_latest(metadata), metadata })
            },
        }
    }
}

/// The revisions of one record.
#[derive(Debug, PartialEq, Eq)]
pub struct RecordHistory {
    owned_by: u128,
    revisions: Vec<RevisionMetadata>,
}

impl View for RecordHistory {
    type V = HistoryModel;

    closed spec fn view(&self) -> HistoryModel {
        HistoryModel { owned_by: self.owned_by, revisions: self.revisions@ }
    }
}

impl RecordHistory {
    #[verifier::type_invariant]
    closed spec fn valid(self) -> bool {
        self@.well_formed()
    }

    /// The history of a new record: one revision, of version 1, created by
    /// `actor`, not archived. The owner stays the same for all revisions.
    pub fn create(owned_by: u128, actor: u128) -> (history: RecordHistory)
        ensures
            history@ == HistoryModel::created(owned_by, actor),
            history@.well_formed(),
    {
        let mut revisions: Vec<RevisionMetadata> = Vec::new();
        revisions.push(
            RevisionMetadata { version: 1, created_by: actor, archived_by: None, archived: false },
        );
        assert(revisions@ =~= HistoryModel::created(owned_by, actor).revisions);
        RecordHistory { owned_by, revisions }
    }

    /// The account that owns the record.
    pub fn owned_by(&self) -> (owned_by: u128)
        ensures
            owned_by == self@.owned_by,
    {
        self.owned_by
    }

    /// The version of the latest revision.
    pub fn latest_version(&self) -> (version: u32)
        ensures
            version == self@.latest_version(),
            self@.well_formed(),
    {
        proof {
            use_type_invariant(self);
        }
        self.revisions.len() as u32
    }

    /// The latest revision.
    pub fn latest(&self) -> (metadata: RevisionMetadata)
        ensures
            metadata == self@.latest(),
            self@.well_formed(),
    {
        proof {
            use_type_invariant(self);
        }
        self.revisions[self.revisions.len() - 1]
    }

    /// The revision of the given version, if the record has one.
    pub fn get(&self, version: u32) -> (metadata: Option<RevisionMetadata>)
        ensures
            self@.has(version) ==> metadata == Some(self@.revisions[version - 1]),
            !self@.has(version) ==> metadata is None,
    {
        if 1 <= version && version as usize <= self.revisions.len() {
            Some(self.revisions[version as usize - 1])
        } else {
            None
        }
    }

    /// Why a change to the revision of the given version is refused, if it
    /// is.
    fn check_latest(&self, version: u32) -> (error: Option<VersionError>)
        ensures
            error == self@.check_latest(version),
            self@.well_formed(),
    {
        proof {
            use_type_invariant(self);
        }
        if version < 1 || version as usize > self.revisions.len() {
            Some(VersionError::NotFound)
        } else if (version as usize) < self.revisions.len() {
            Some(VersionError::RaceCondition)
        } else {
            None
        }
    }

    /// Replaces the latest revision.
    fn set_latest(&mut self, metadata: RevisionMetadata)
        requires
            metadata.version == old(self)@.latest_version(),
            metadata.archived <==> metadata.archived_by is Some,
        ensures
            final(self)@ == old(self)@.with_latest(metadata),
    {
        proof {
            use_type_invariant(&*self);
        }
        let ghost before = self.revisions@;
        let last = self.revisions.len() - 1;
        proof {
            assert(before.update(last as int, metadata) =~= before.drop_last().push(metadata));
        }
        let mut taken = RecordHistory::create(self.owned_by, metadata.created_by);
        core::mem::swap(self, &mut taken);
        let RecordHistory { owned_by, mut revisions } = taken;
        revisions.set(last, metadata);
        *self = RecordHistory { owned_by, revisions };
    }

    /// Adds the revision that follows `prior`.
    ///
    /// The update is refused as not found where the record has no revision
    /// `prior`, and as a race where `prior` has been superseded. Otherwise
    /// the new revision has the next version, is created by `actor` and is
    /// not archived, and no earlier revision changes.
    pub fn update(&mut self, prior: u32, actor: u128) -> (outcome: Result<
        RevisionMetadata,
        VersionError,
    >)
        ensures
            match old(self)@.updated(prior, actor) {
                Ok(change) => outcome == Ok::<RevisionMetadata, VersionError>(change.metadata)
                    && final(self)@ == change.history,
                Err(error) => outcome == Err::<RevisionMetadata, VersionError>(error) && final(self)@ == old(self)@,
            },
    {
        if let Some(error) = self.check_latest(prior) {
            return Err(error);
        }
        if prior == u32::MAX {
            return Err(VersionError::Internal);
        }
        let metadata = RevisionMetadata {
            version: prior + 1,
            created_by: actor,
            archived_by: None,
            archived: false,
        };
        let mut taken = RecordHistory::create(self.owned_by, actor);
        core::mem::swap(self, &mut taken);
        let RecordHistory { owned_by, mut revisions } = taken;
        revisions.push(metadata);
        *self = RecordHistory { owned_by, revisions };
        Ok(metadata)
    }

    /// Archives the revision `version` in the name of `actor`.
    ///
    /// The change is refused as not found where the record has no such
    /// revision, as a race where the revision has been superseded, and as
    /// already in that state where the revision is archived.
    pub fn archive(&mut self, version: u32, actor: u128) -> (outcome: Result<
        RevisionMetadata,
        VersionError,
    >)
        ensures
            match old(self)@.archived(version, actor) {
                Ok(change) => outcome == Ok::<RevisionMetadata, VersionError>(change.metadata)
                    && final(self)@ == change.history,
                Err(error) => outcome == Err::<RevisionMetadata, VersionError>(error) && final(self)@ == old(self)@,
            },
    {
        if let Some(error) = self.check_latest(version) {
            return Err(error);
        }
        let latest = self.latest();
        if latest.archived {
            return Err(VersionError::AlreadyInState);
        }
        let metadata = RevisionMetadata {
            version,
            created_by: latest.created_by,
            archived_by: Some(actor),
            archived: true,
        };
        self.set_latest(metadata);
        Ok(metadata)
    }

    /// Brings the revision `version` back from the archive.
    ///
    /// The change is refused as not found where the record has no such
    /// revision, as a race where the revision has been superseded, and as
    /// already in that state where the revision is not archived.
    pub fn unarchive(&mut self, version: u32) -> (outcome: Result<RevisionMetadata, VersionError>)
        ensures
            match old(self)@.unarchived(version) {
                Ok(change) => outcome == Ok::<RevisionMetadata, VersionError>(change.metadata)
                    && final(self)@ == change.history,
                Err(error) => outcome == Err::<RevisionMetadata, VersionError>(error) && final(self)@ == old(self)@,
            },
    {
        if let Some(error) = self.check_latest(version) {
            return Err(error);
        }
        let latest = self.latest();
        if !latest.archived {
            return Err(VersionError::AlreadyInState);
        }
        let metadata = RevisionMetadata {
            version,
            created_by: latest.created_by,
            archived_by: None,
            archived: false,
        };
        self.set_latest(metadata);
        Ok(metadata)
    }
}

/// Every change leaves a well-formed history, keeps the owner and leaves
/// every revision but the latest as it was.
pub proof fn lemma_changes_preserve(history: HistoryModel, version: u32, actor: u128)
    requires
        history.well_formed(),
    ensures
        history.updated(version, actor) matches Ok(change) ==> change.history.well_formed()
            && change.history.owned_by == history.owned_by && change.history.latest_version()
            == history.latest_version() + 1 && change.history.revisions.drop_last()
            == history.revisions,
        history.archived(version, actor) matches Ok(change) ==> change.history.well_formed()
            && change.history.owned_by == history.owned_by
            && change.history.revisions.drop_last() == history.revisions.drop_last(),
        history.unarchived(version) matches Ok(change) ==> change.history.well_formed()
            && change.history.owned_by == history.owned_by
            && change.history.revisions.drop_last() == history.revisions.drop_last(),
{
    if let Ok(change) = history.updated(version, actor) {
        assert(change.history.revisions.drop_last() =~= history.revisions);
    }
    if let Ok(change) = history.archived(version, actor) {
        assert(change.history.revisions.drop_last() =~= history.revisions.drop_last());
    }
    if let Ok(change) = history.unarchived(version) {
        assert(change.history.revisions.drop_last() =~= history.revisions.drop_last());
    }
}

/// Archiving a revision twice: where the first attempt succeeds, the second
/// is refused because the revision already is archived, not because it could
/// not be found.
pub proof fn lemma_archive_twice(history: HistoryModel, version: u32, first: u128, second: u128)
    requires
        history.well_formed(),
        history.archived(version, first) is Ok,
    ensures
        history.archived(version, first)->Ok_0.history.archived(version, second) == Err::<
            Change,
            VersionError,
        >(VersionError::AlreadyInState),
{
}

/// An update against a revision that another update has superseded is
/// refused as a race and adds no revision.
pub proof fn lemma_stale_update(history: HistoryModel, prior: u32, first: u128, second: u128)
    requires
        history.well_formed(),
        history.updated(prior, first) is Ok,
    ensures
        history.updated(prior, first)->Ok_0.history.updated(prior, second) == Err::<
            Change,
            VersionError,
        >(VersionError::RaceCondition),
{
}

} // verus!
