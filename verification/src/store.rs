//! A store of record histories in memory, which applies the rules of
//! creation, update, archiving and unarchiving to the records it holds.

use crate::identifier::{BaseUri, VersionedUri};
use crate::text::text_is;
use crate::versioning::{Change, HistoryModel, RecordHistory, RevisionMetadata, VersionError};
use vstd::prelude::*;

verus! {

/// What creation does with a record whose base identifier is taken.
#[derive(Clone, Copy, Debug, PartialEq, Eq, Structural)]
pub enum ConflictBehavior {
    /// The creation is refused.
    Fail,
    /// The record that exists is kept and nothing is created.
    Skip,
}

/// Why the store refused a change.
#[derive(Debug, PartialEq, Eq)]
pub enum StoreError {
    /// A record with this base identifier exists already.
    IdentityConflict(BaseUri),
    /// No record, or no revision of the record, is what was named.
    NotFound,
    /// The revision that was named has been superseded.
    RaceCondition,
    /// The revision already is what the change would make of it.
    AlreadyInState,
    /// The store cannot take the change for a reason of its own.
    Internal,
}

/// A [`StoreError`], as a mathematical value.
pub enum StoreErrorModel {
    IdentityConflict(Seq<char>),
    NotFound,
    RaceCondition,
    AlreadyInState,
    Internal,
}

impl View for StoreError {
    type V = StoreErrorModel;

    open spec fn view(&self) -> StoreErrorModel {
        match self {
            StoreError::IdentityConflict(base_uri) => StoreErrorModel::IdentityConflict(base_uri@),
            StoreError::NotFound => StoreErrorModel::NotFound,
            StoreError::RaceCondition => StoreErrorModel::RaceCondition,
            StoreError::AlreadyInState => StoreErrorModel::AlreadyInState,
            StoreError::Internal => StoreErrorModel::Internal,
        }
    }
}

/// The store's word for a refusal by a record.
pub open spec fn store_error(error: VersionError) -> StoreErrorModel {
    match error {
        VersionError::NotFound => StoreErrorModel::NotFound,
        VersionError::RaceCondition => StoreErrorModel::RaceCondition,
        VersionError::AlreadyInState => StoreErrorModel::AlreadyInState,
        VersionError::Internal => StoreErrorModel::Internal,
    }
}

impl StoreError {
    /// Whether the error is a conflict over a base identifier that is
    /// taken.
    pub fn is_identity_conflict(&self) -> (conflict: bool)
        ensures
            conflict == (self@ is IdentityConflict),
    {
        match self {
            StoreError::IdentityConflict(_) => true,
            _ => false,
        }
    }

    /// The store's word for a refusal by a record.
    pub fn from_version_error(error: VersionError) -> (converted: StoreError)
        ensures
            converted@ == store_error(error),
    {
        match error {
            VersionError::NotFound => StoreError::NotFound,
            VersionError::RaceCondition => StoreError::RaceCondition,
            VersionError::AlreadyInState => StoreError::AlreadyInState,
            VersionError::Internal => StoreError::Internal,
        }
    }
}

/// A record that is to be created.
#[derive(Debug, PartialEq, Eq)]
pub struct NewRecord {
    pub base_uri: BaseUri,
    pub owned_by: u128,
    pub actor: u128,
}

/// A record that is to be created, as a mathematical value.
pub struct NewRecordModel {
    pub base_uri: Seq<char>,
    pub owned_by: u128,
    pub actor: u128,
}

impl View for NewRecord {
    type V = NewRecordModel;

    open spec fn view(&self) -> NewRecordModel {
        NewRecordModel { base_uri: self.base_uri@, owned_by: self.owned_by, actor: self.actor }
    }
}

/// The models of a list of records that are to be created.
pub open spec fn new_records(batch: Seq<NewRecord>) -> Seq<NewRecordModel> {
    Seq::new(batch.len(), |i: int| batch[i]@)
}

/// What the store reports of one revision.
#[derive(Debug, PartialEq, Eq)]
pub struct RecordMetadata {
    pub base_uri: BaseUri,
    pub owned_by: u128,
    pub revision: RevisionMetadata,
}

/// What the store reports of one revision, as a mathematical value.
pub struct MetadataModel {
    pub base_uri: Seq<char>,
    pub owned_by: u128,
    pub revision: RevisionMetadata,
}

impl View for RecordMetadata {
    type V = MetadataModel;

    open spec fn view(&self) -> MetadataModel {
        MetadataModel { base_uri: self.base_uri@, owned_by: self.owned_by, revision: self.revision }
    }
}

/// The models of a list of metadata.
pub open spec fn metadata_models(list: Seq<RecordMetadata>) -> Seq<MetadataModel> {
    Seq::new(list.len(), |i: int| list[i]@)
}

/// One record of the store, as a mathematical value.
pub struct RecordModel {
    pub base_uri: Seq<char>,
    pub history: HistoryModel,
}

impl RecordModel {
    /// What the store reports of the latest revision of the record.
    pub open spec fn latest(self) -> MetadataModel {
        MetadataModel {
            base_uri: self.base_uri,
            owned_by: self.history.owned_by,
            revision: self.history.latest(),
        }
    }

    /// What the store reports of a revision of the record.
    pub open spec fn metadata(self, revision: RevisionMetadata) -> MetadataModel {
        MetadataModel { base_uri: self.base_uri, owned_by: self.history.owned_by, revision }
    }
}

/// The place of the record with a base identifier, if the store has one.
pub open spec fn index_of(records: Seq<RecordModel>, base_uri: Seq<char>) -> Option<int>
    decreases records.len(),
{
    if records.len() == 0 {
        None
    } else {
        match index_of(records.drop_last(), base_uri) {
            Some(at) => Some(at),
            None => if records.last().base_uri == base_uri {
                Some(records.len() - 1)
            } else {
                None
            },
        }
    }
}

/// The place that `index_of` names holds a record of the base identifier,
/// and no place before it does.
pub proof fn lemma_index_of(records: Seq<RecordModel>, base_uri: Seq<char>)
    ensures
        match index_of(records, base_uri) {
            Some(at) => 0 <= at < records.len() && records[at].base_uri == base_uri && forall|
                before: int,
            |
                0 <= before < at ==> (#[trigger] records[before]).base_uri != base_uri,
            None => forall|at: int|
                0 <= at < records.len() ==> (#[trigger] records[at]).base_uri != base_uri,
        },
    decreases records.len(),
{
    if records.len() > 0 {
        lemma_index_of(records.drop_last(), base_uri);
        match index_of(records.drop_last(), base_uri) {
            Some(found) => {
                assert forall|before: int| 0 <= before < found implies (
                #[trigger] records[before]).base_uri != base_uri by {
                    assert(records.drop_last()[before] == records[before]);
                }
                assert(records.drop_last()[found] == records[found]);
            },
            None => {
                assert forall|at: int| 0 <= at < records.len() - 1 implies (
                #[trigger] records[at]).base_uri != base_uri by {
                    assert(records.drop_last()[at] == records[at]);
                }
            },
        }
    }
}

/// A record that stands at some place, with none of its base identifier
/// before it, is the one that `index_of` names.
pub proof fn lemma_index_at(records: Seq<RecordModel>, base_uri: Seq<char>, at: int)
    requires
        0 <= at < records.len(),
        index_of(records.take(at), base_uri) is None,
        records[at].base_uri == base_uri,
    ensures
        index_of(records, base_uri) == Some(at),
    decreases records.len(),
{
    if at == records.len() - 1 {
        assert(records.drop_last() =~= records.take(at));
    } else {
        assert(records.drop_last().take(at) =~= records.take(at));
        lemma_index_at(records.drop_last(), base_uri, at);
    }
}

/// The outcome of a change to the store: the records that it leaves and
/// what it reports.
pub struct Outcome<R> {
    pub records: Seq<RecordModel>,
    pub report: R,
}

/// Creating one record. Where the base identifier is free, the record is
/// added with its first revision. Where it is taken, the creation is a
/// conflict that carries the identifier, or, if conflicts are skipped,
/// reports the latest revision of the record that exists.
pub open spec fn created(
    records: Seq<RecordModel>,
    record: NewRecordModel,
    behavior: ConflictBehavior,
) -> Result<Outcome<MetadataModel>, StoreErrorModel> {
    match index_of(records, record.base_uri) {
        None => {
            let added = RecordModel {
                base_uri: record.base_uri,
                history: HistoryModel::created(record.owned_by, record.actor),
            };
            Ok(Outcome { records: records.push(added), report: added.latest() })
        },
        Some(at) => match behavior {
            ConflictBehavior::Fail => Err(StoreErrorModel::IdentityConflict(record.base_uri)),
            ConflictBehavior::Skip => Ok(Outcome { records, report: records[at].latest() }),
        },
    }
}

/// Creating a batch of records in order. The first record that is refused
/// ends the batch.
pub open spec fn created_in_order(
    records: Seq<RecordModel>,
    batch: Seq<NewRecordModel>,
    behavior: ConflictBehavior,
) -> Result<Outcome<Seq<MetadataModel>>, StoreErrorModel>
    decreases batch.len(),
{
    if batch.len() == 0 {
        Ok(Outcome { records, report: Seq::empty() })
    } else {
        match created_in_order(records, batch.drop_last(), behavior) {
            Err(error) => Err(error),
            Ok(before) => match created(before.records, batch.last(), behavior) {
                Err(error) => Err(error),
                Ok(next) => Ok(
                    Outcome { records: next.records, report: before.report.push(next.report) },
                ),
            },
        }
    }
}

/// Once the first records of a batch are refused, the batch is.
pub proof fn lemma_created_stops(
    records: Seq<RecordModel>,
    batch: Seq<NewRecordModel>,
    behavior: ConflictBehavior,
    prefix: int,
)
    requires
        0 <= prefix <= batch.len(),
        created_in_order(records, batch.take(prefix), behavior) is Err,
    ensures
        created_in_order(records, batch, behavior) == created_in_order(
            records,
            batch.take(prefix),
            behavior,
        ),
    decreases batch.len(),
{
    if prefix == batch.len() {
        assert(batch.take(prefix) =~= batch);
    } else {
        assert(batch.drop_last().take(prefix) =~= batch.take(prefix));
        lemma_created_stops(records, batch.drop_last(), behavior, prefix);
    }
}

/// A change to one revision of one record.
pub enum Transition {
    Update { actor: u128 },
    Archive { actor: u128 },
    Unarchive,
}

impl Transition {
    /// What the change makes of a history.
    pub open spec fn apply(self, history: HistoryModel, version: u32) -> Result<
        Change,
        VersionError,
    > {
        match self {
            Transition::Update { actor } => history.updated(version, actor),
            Transition::Archive { actor } => history.archived(version, actor),
            Transition::Unarchive => history.unarchived(version),
        }
    }
}

/// Changing the revision that an identifier names. Where the store has no
/// record of the base identifier, nothing is found; else the record decides.
pub open spec fn changed(
    records: Seq<RecordModel>,
    base_uri: Seq<char>,
    version: u32,
    transition: Transition,
) -> Result<Outcome<MetadataModel>, StoreErrorModel> {
    match index_of(records, base_uri) {
        None => Err(StoreErrorModel::NotFound),
        Some(at) => match transition.apply(records[at].history, version) {
            Err(error) => Err(store_error(error)),
            Ok(change) => {
                let record = RecordModel { base_uri, history: change.history };
                Ok(
                    Outcome {
                        records: records.update(at, record),
                        report: record.metadata(change.metadata),
                    },
                )
            },
        },
    }
}

/// One record of the store.
#[derive(Debug, PartialEq, Eq)]
pub struct Record {
    base_uri: BaseUri,
    history: RecordHistory,
}

impl View for Record {
    type V = RecordModel;

    closed spec fn view(&self) -> RecordModel {
        RecordModel { base_uri: self.base_uri@, history: self.history@ }
    }
}

/// The models of a list of records.
pub open spec fn record_models(records: Seq<Record>) -> Seq<RecordModel> {
    Seq::new(records.len(), |i: int| records[i]@)
}

/// The histories of the records of one kind, by base identifier.
#[derive(Debug, PartialEq, Eq)]
pub struct VersionStore {
    records: Vec<Record>,
}

impl View for VersionStore {
    type V = Seq<RecordModel>;

    closed spec fn view(&self) -> Seq<RecordModel> {
        record_models(self.records@)
    }
}

impl VersionStore {
    /// A store without records.
    pub fn new() -> (store: VersionStore)
        ensures
            store@ == Seq::<RecordModel>::empty(),
    {
        let store = VersionStore { records: Vec::new() };
        assert(store@ =~= Seq::empty());
        store
    }

    /// The place of the record with a base identifier.
    fn find(&self, base_uri: &BaseUri) -> (found: Option<usize>)
        ensures
            match index_of(self@, base_uri@) {
                Some(at) => found is Some && found->Some_0 == at && 0 <= at < self.records.len()
                    && self@.len() == self.records.len(),
                None => found is None,
            },
    {
        let ghost all = self@;
        let mut index: usize = 0;
        proof {
            assert(all.take(0) =~= Seq::empty());
        }
        while index < self.records.len()
            invariant
                index <= self.records.len(),
                all == self@,
                all.len() == self.records.len(),
                index_of(all.take(index as int), base_uri@) is None,
            decreases self.records.len() - index,
        {
            if same_base(&self.records[index].base_uri, base_uri) {
                proof {
                    lemma_index_at(all, base_uri@, index as int);
                }
                return Some(index);
            }
            proof {
                assert(all.take(index + 1).drop_last() =~= all.take(index as int));
            }
            index += 1;
        }
        proof {
            assert(all.take(index as int) =~= all);
        }
        None
    }

    /// What the store reports of the latest revision of a record, if it has
    /// the record.
    pub fn latest(&self, base_uri: &BaseUri) -> (metadata: Option<RecordMetadata>)
        ensures
            match index_of(self@, base_uri@) {
                Some(at) => metadata is Some && metadata->Some_0@ == self@[at].latest(),
                None => metadata is None,
            },
    {
        match self.find(base_uri) {
            Some(at) => {
                let record = &self.records[at];
                Some(
                    RecordMetadata {
                        base_uri: record.base_uri.to_owned(),
                        owned_by: record.history.owned_by(),
                        revision: record.history.latest(),
                    },
                )
            },
            None => None,
        }
    }

    /// Whether an identifier names the latest revision of a record of the
    /// store.
    pub fn is_latest(&self, id: &VersionedUri) -> (latest: bool)
        ensures
            latest == match index_of(self@, id@.base_uri) {
                Some(at) => self@[at].history.latest_version() == id@.version,
                None => false,
            },
    {
        match self.find(id.base_uri()) {
            Some(at) => self.records[at].history.latest_version() == id.version(),
            None => false,
        }
    }

    /// Creates one record.
    fn create_one(&mut self, record: &NewRecord, behavior: ConflictBehavior) -> (outcome: Result<
        RecordMetadata,
        StoreError,
    >)
        ensures
            match created(old(self)@, record@, behavior) {
                Ok(next) => outcome is Ok && outcome->Ok_0@ == next.report && final(self)@
                    == next.records,
                Err(error) => outcome is Err && outcome->Err_0@ == error && final(self)@ == old(self)@,
            },
            final(self).records@.len() >= old(self).records@.len(),
            final(self)@.take(old(self)@.len() as int) == old(self)@,
    {
        let ghost before = self@;
        match self.find(&record.base_uri) {
            None => {
                let history = RecordHistory::create(record.owned_by, record.actor);
                let metadata = RecordMetadata {
                    base_uri: record.base_uri.to_owned(),
                    owned_by: history.owned_by(),
                    revision: history.latest(),
                };
                self.records.push(Record { base_uri: record.base_uri.to_owned(), history });
                proof {
                    let added = RecordModel {
                        base_uri: record@.base_uri,
                        history: HistoryModel::created(record.owned_by, record.actor),
                    };
                    assert(self@ =~= before.push(added));
                    assert(self@.take(before.len() as int) =~= before);
                }
                Ok(metadata)
            },
            Some(at) => match behavior {
                ConflictBehavior::Fail => {
                    proof {
                        assert(self@.take(before.len() as int) =~= before);
                    }
                    Err(StoreError::IdentityConflict(record.base_uri.to_owned()))
                },
                ConflictBehavior::Skip => {
                    let existing = &self.records[at];
                    proof {
                        assert(self@.take(before.len() as int) =~= before);
                    }
                    Ok(
                        RecordMetadata {
                            base_uri: existing.base_uri.to_owned(),
                            owned_by: existing.history.owned_by(),
                            revision: existing.history.latest(),
                        },
                    )
                },
            },
        }
    }

    /// Creates a batch of records, all or none.
    ///
    /// The records are created in order, each with version 1. A record
    /// whose base identifier is taken, in the store or by an earlier record
    /// of the batch, is a conflict that carries the identifier, unless
    /// conflicts are skipped. After a conflict the store is as it was before
    /// the call.
    pub fn create(&mut self, batch: &Vec<NewRecord>, behavior: ConflictBehavior) -> (outcome:
        Result<Vec<RecordMetadata>, StoreError>)
        ensures
            match created_in_order(old(self)@, new_records(batch@), behavior) {
                Ok(next) => outcome is Ok && metadata_models(outcome->Ok_0@) == next.report
                    && final(self)@ == next.records,
                Err(error) => outcome is Err && outcome->Err_0@ == error && final(self)@ == old(self)@,
            },
    {
        let ghost start = self@;
        let ghost all = new_records(batch@);
        let size = self.records.len();
        let mut report: Vec<RecordMetadata> = Vec::new();
        let mut index: usize = 0;
        proof {
            assert(all.take(0) =~= Seq::empty());
            assert(metadata_models(report@) =~= Seq::empty());
            assert(self@.take(size as int) =~= start);
        }
        while index < batch.len()
            invariant
                index <= batch.len(),
                all == new_records(batch@),
                start == old(self)@,
                size == start.len(),
                size <= self.records.len(),
                self@.take(size as int) == start,
                created_in_order(start, all.take(index as int), behavior) == Ok::<
                    Outcome<Seq<MetadataModel>>,
                    StoreErrorModel,
                >(Outcome { records: self@, report: metadata_models(report@) }),
            decreases batch.len() - index,
        {
            let ghost earlier = metadata_models(report@);
            let ghost current = self@;
            proof {
                assert(all.take(index + 1).drop_last() =~= all.take(index as int));
                assert(all.take(index + 1).last() == batch[index as int]@);
            }
            match self.create_one(&batch[index], behavior) {
                Ok(metadata) => {
                    report.push(metadata);
                    proof {
                        assert(metadata_models(report@) =~= earlier.push(metadata@));
                        assert(self@.take(size as int) =~= current.take(size as int));
                    }
                },
                Err(error) => {
                    proof {
                        lemma_created_stops(start, all, behavior, index + 1);
                    }
                    self.records.truncate(size);
                    proof {
                        assert(self@ =~= current.take(size as int));
                    }
                    return Err(error);
                },
            }
            index += 1;
        }
        proof {
            assert(all.take(index as int) =~= all);
        }
        Ok(report)
    }

    /// Changes the revision that an identifier names.
    fn change(&mut self, id: &VersionedUri, transition: Transition) -> (outcome: Result<
        RecordMetadata,
        StoreError,
    >)
        ensures
            match changed(old(self)@, id@.base_uri, id@.version, transition) {
                Ok(next) => outcome is Ok && outcome->Ok_0@ == next.report && final(self)@
                    == next.records,
                Err(error) => outcome is Err && outcome->Err_0@ == error && final(self)@ == old(self)@,
            },
    {
        let ghost before = self@;
        let at = match self.find(id.base_uri()) {
            Some(at) => at,
            None => {
                return Err(StoreError::NotFound);
            },
        };
        proof {
            lemma_index_of(before, id@.base_uri);
        }
        let version = id.version();
        let record = &mut self.records[at];
        let changed = match transition {
            Transition::Update { actor } => record.history.update(version, actor),
            Transition::Archive { actor } => record.history.archive(version, actor),
            Transition::Unarchive => record.history.unarchive(version),
        };
        let base_uri = record.base_uri.to_owned();
        let owned_by = record.history.owned_by();
        match changed {
            Ok(revision) => {
                proof {
                    let change = transition.apply(before[at as int].history, version)->Ok_0;
                    assert(self@ =~= before.update(
                        at as int,
                        RecordModel { base_uri: id@.base_uri, history: change.history },
                    ));
                }
                Ok(RecordMetadata { base_uri, owned_by, revision })
            },
            Err(error) => {
                proof {
                    assert(self@ =~= before);
                }
                Err(StoreError::from_version_error(error))
            },
        }
    }

    /// Adds the revision that follows the one that `prior` names.
    ///
    /// The update is refused as not found where the store has no such
    /// record or the record no such revision, and as a race where the
    /// revision has been superseded.
    pub fn update(&mut self, prior: &VersionedUri, actor: u128) -> (outcome: Result<
        RecordMetadata,
        StoreError,
    >)
        ensures
            match changed(
                old(self)@,
                prior@.base_uri,
                prior@.version,
                Transition::Update { actor },
            ) {
                Ok(next) => outcome is Ok && outcome->Ok_0@ == next.report && final(self)@
                    == next.records,
                Err(error) => outcome is Err && outcome->Err_0@ == error && final(self)@ == old(self)@,
            },
    {
        self.change(prior, Transition::Update { actor })
    }

    /// Archives the revision that `id` names.
    pub fn archive(&mut self, id: &VersionedUri, actor: u128) -> (outcome: Result<
        RecordMetadata,
        StoreError,
    >)
        ensures
            match changed(old(self)@, id@.base_uri, id@.version, Transition::Archive { actor }) {
                Ok(next) => outcome is Ok && outcome->Ok_0@ == next.report && final(self)@
                    == next.records,
                Err(error) => outcome is Err && outcome->Err_0@ == error && final(self)@ == old(self)@,
            },
    {
        self.change(id, Transition::Archive { actor })
    }

    /// Brings the revision that `id` names back from the archive.
    pub fn unarchive(&mut self, id: &VersionedUri) -> (outcome: Result<RecordMetadata, StoreError>)
        ensures
            match changed(old(self)@, id@.base_uri, id@.version, Transition::Unarchive) {
                Ok(next) => outcome is Ok && outcome->Ok_0@ == next.report && final(self)@
                    == next.records,
                Err(error) => outcome is Err && outcome->Err_0@ == error && final(self)@ == old(self)@,
            },
    {
        self.change(id, Transition::Unarchive)
    }
}

/// Whether two base identifiers are the same.
fn same_base(first: &BaseUri, second: &BaseUri) -> (same: bool)
    ensures
        same == (first@ == second@),
{
    text_is(first.as_str(), second.as_str())
}

/// The first place that holds a record of a base identifier is the one that
/// `index_of` names.
pub proof fn lemma_index_first(records: Seq<RecordModel>, base_uri: Seq<char>, at: int)
    requires
        0 <= at < records.len(),
        records[at].base_uri == base_uri,
        forall|before: int| 0 <= before < at ==> (#[trigger] records[before]).base_uri != base_uri,
    ensures
        index_of(records, base_uri) == Some(at),
{
    lemma_index_of(records.take(at), base_uri);
    if let Some(found) = index_of(records.take(at), base_uri) {
        assert(records.take(at)[found] == records[found]);
    }
    lemma_index_at(records, base_uri, at);
}

/// A change to a record leaves every record under the base identifier it
/// had.
pub proof fn lemma_changed_keeps_place(
    records: Seq<RecordModel>,
    base_uri: Seq<char>,
    version: u32,
    transition: Transition,
)
    requires
        changed(records, base_uri, version, transition) is Ok,
    ensures
        index_of(changed(records, base_uri, version, transition)->Ok_0.records, base_uri)
            == index_of(records, base_uri),
        changed(records, base_uri, version, transition)->Ok_0.records.len() == records.len(),
{
    let after = changed(records, base_uri, version, transition)->Ok_0.records;
    lemma_index_of(records, base_uri);
    let at = index_of(records, base_uri)->Some_0;
    assert forall|before: int| 0 <= before < at implies (#[trigger] after[before]).base_uri
        != base_uri by {
        assert(after[before] == records[before]);
    }
    lemma_index_first(after, base_uri, at);
}

/// Archiving the revision that an identifier names twice in a row: where
/// the first attempt succeeds, the second is refused because the revision
/// already is archived, not because it could not be found.
pub proof fn lemma_archive_twice(
    records: Seq<RecordModel>,
    base_uri: Seq<char>,
    version: u32,
    first: u128,
    second: u128,
)
    requires
        changed(records, base_uri, version, Transition::Archive { actor: first }) is Ok,
    ensures
        changed(
            changed(records, base_uri, version, Transition::Archive { actor: first })->Ok_0.records,
            base_uri,
            version,
            Transition::Archive { actor: second },
        ) == Err::<Outcome<MetadataModel>, StoreErrorModel>(StoreErrorModel::AlreadyInState),
{
    lemma_changed_keeps_place(records, base_uri, version, Transition::Archive { actor: first });
    lemma_index_of(records, base_uri);
}

/// An update against a revision that another update has superseded is
/// refused as a race and leaves the store as it is.
pub proof fn lemma_stale_update(
    records: Seq<RecordModel>,
    base_uri: Seq<char>,
    prior: u32,
    first: u128,
    second: u128,
)
    requires
        changed(records, base_uri, prior, Transition::Update { actor: first }) is Ok,
    ensures
        changed(
            changed(records, base_uri, prior, Transition::Update { actor: first })->Ok_0.records,
            base_uri,
            prior,
            Transition::Update { actor: second },
        ) == Err::<Outcome<MetadataModel>, StoreErrorModel>(StoreErrorModel::RaceCondition),
{
    lemma_changed_keeps_place(records, base_uri, prior, Transition::Update { actor: first });
    lemma_index_of(records, base_uri);
}

/// A record that has been created takes its base identifier: it has
/// version 1, and a second creation under the identifier is a conflict that
/// carries it.
pub proof fn lemma_create_twice(
    records: Seq<RecordModel>,
    first: NewRecordModel,
    second: NewRecordModel,
)
    requires
        index_of(records, first.base_uri) is None,
        second.base_uri == first.base_uri,
    ensures
        created(records, first, ConflictBehavior::Fail) is Ok,
        created(records, first, ConflictBehavior::Fail)->Ok_0.report.revision.version == 1,
        created(
            created(records, first, ConflictBehavior::Fail)->Ok_0.records,
            second,
            ConflictBehavior::Fail,
        ) == Err::<Outcome<MetadataModel>, StoreErrorModel>(
            StoreErrorModel::IdentityConflict(first.base_uri),
        ),
{
    let after = created(records, first, ConflictBehavior::Fail)->Ok_0.records;
    lemma_index_of(records, first.base_uri);
    assert forall|before: int| 0 <= before < records.len() implies (#[trigger] after[before]).base_uri
        != first.base_uri by {
        assert(after[before] == records[before]);
    }
    lemma_index_first(after, first.base_uri, records.len() as int);
}

} // verus!
