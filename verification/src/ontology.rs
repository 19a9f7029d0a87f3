//! The revisions of the ontology records of one kind in memory, and which
//! of them a query finds.
//!
//! The store holds every revision under its identifier. Which revision is
//! the latest of its record is not told to the store: it follows from the
//! versions stored. What is said here holds of data types, property types
//! and entity types alike.

use crate::evaluation::{find_roots, lemma_roots_in, pointed, roots_in, seen, OntologyRecord};
use crate::filter::{lemma_settled, ExpressionModel, Filter, FilterModel};
use crate::identifier::{VersionedUri, VersionedUriModel};
use crate::number::Number;
use crate::parameter::{ParameterConversionErrorModel, ParameterModel};
use crate::path::{OntologyPath, QueryRecord};
use crate::text::text_is;
use vstd::prelude::*;

verus! {

/// A revision of an ontology record that is to be stored.
#[derive(Debug, PartialEq, Eq)]
pub struct NewOntologyRecord {
    pub id: VersionedUri,
    pub owned_by: u128,
    pub title: String,
    pub description: Option<String>,
    pub kind: String,
}

/// Whether a revision with the given identifier is among the records.
pub open spec fn stored(records: Seq<OntologyRecord>, id: VersionedUriModel) -> bool {
    exists|i: int| 0 <= i < records.len() && (#[trigger] records[i]).id@ == id
}

/// Whether no record of the same base identifier has a higher version than
/// the record at a place.
pub open spec fn newest(records: Seq<OntologyRecord>, at: int) -> bool {
    forall|other: int|
        0 <= other < records.len() && (#[trigger] records[other]).id@.base_uri
            == records[at].id@.base_uri ==> records[other].id@.version <= records[at].id@.version
}

/// Whether no record of the base identifier of `id` has a higher version
/// than `id`.
pub open spec fn newest_among(records: Seq<OntologyRecord>, id: VersionedUriModel) -> bool {
    forall|other: int|
        0 <= other < records.len() && (#[trigger] records[other]).id@.base_uri == id.base_uri
            ==> records[other].id@.version <= id.version
}

/// No identifier is stored twice, and a record is marked as the latest
/// exactly when no record of its base identifier has a higher version.
pub open spec fn consistent(records: Seq<OntologyRecord>) -> bool {
    &&& forall|i: int|
        0 <= i < records.len() ==> (#[trigger] records[i]).latest == newest(records, i)
    &&& forall|i: int, j: int|
        0 <= i < j < records.len() ==> (#[trigger] records[i]).id@ != (#[trigger] records[j]).id@
}

/// Whether a revision with the identifier `id` supersedes a record.
pub open spec fn superseded_by(record: OntologyRecord, id: VersionedUriModel) -> bool {
    record.id@.base_uri == id.base_uri && record.id@.version < id.version
}

/// A record once a revision with the identifier `id` has been stored beside
/// it: it keeps its mark unless that revision supersedes it.
pub open spec fn remarked(record: OntologyRecord, id: VersionedUriModel) -> OntologyRecord {
    OntologyRecord { latest: record.latest && !superseded_by(record, id), ..record }
}

/// The records once a new revision has been stored: every record that it
/// supersedes loses its mark, and the new revision stands at the end, marked
/// if no record supersedes it.
pub open spec fn inserted(records: Seq<OntologyRecord>, new: NewOntologyRecord) -> Seq<OntologyRecord> {
    Seq::new(records.len(), |i: int| remarked(records[i], new.id@)).push(
        OntologyRecord {
            id: new.id,
            owned_by: new.owned_by,
            title: new.title,
            description: new.description,
            kind: new.kind,
            latest: newest_among(records, new.id@),
        },
    )
}

/// Storing a revision whose identifier is new keeps the records consistent.
pub proof fn lemma_inserted_consistent(records: Seq<OntologyRecord>, new: NewOntologyRecord)
    requires
        consistent(records),
        !stored(records, new.id@),
    ensures
        consistent(inserted(records, new)),
{
    let after = inserted(records, new);
    let last = records.len() as int;
    assert forall|i: int| 0 <= i < after.len() implies (#[trigger] after[i]).latest == newest(
        after,
        i,
    ) by {
        if i < last {
            assert(after[i] == remarked(records[i], new.id@));
            if after[i].latest {
                assert(newest(records, i));
                assert forall|other: int|
                    0 <= other < after.len() && (#[trigger] after[other]).id@.base_uri
                        == after[i].id@.base_uri implies after[other].id@.version
                    <= after[i].id@.version by {
                    if other < last {
                        assert(after[other] == remarked(records[other], new.id@));
                        assert(records[other].id@.base_uri == records[i].id@.base_uri);
                    } else {
                        assert(records[i].id@ != new.id@);
                    }
                }
            } else {
                if records[i].latest {
                    assert(after[last].id@.base_uri == after[i].id@.base_uri);
                    assert(after[last].id@.version > after[i].id@.version);
                } else {
                    let higher = choose|other: int|
                        0 <= other < records.len() && (#[trigger] records[other]).id@.base_uri
                            == records[i].id@.base_uri && !(records[other].id@.version
                            <= records[i].id@.version);
                    assert(after[higher] == remarked(records[higher], new.id@));
                    assert(after[higher].id@.base_uri == after[i].id@.base_uri);
                }
            }
        } else {
            if after[i].latest {
                assert forall|other: int|
                    0 <= other < after.len() && (#[trigger] after[other]).id@.base_uri
                        == after[i].id@.base_uri implies after[other].id@.version
                    <= after[i].id@.version by {
                    if other < last {
                        assert(after[other] == remarked(records[other], new.id@));
                        assert(records[other].id@.base_uri == new.id@.base_uri);
                    }
                }
            } else {
                let higher = choose|other: int|
                    0 <= other < records.len() && (#[trigger] records[other]).id@.base_uri
                        == new.id@.base_uri && !(records[other].id@.version <= new.id@.version);
                assert(after[higher] == remarked(records[higher], new.id@));
                assert(after[higher].id@.base_uri == after[i].id@.base_uri);
            }
        }
    }
    assert forall|i: int, j: int| 0 <= i < j < after.len() implies (#[trigger] after[i]).id@ != (
    #[trigger] after[j]).id@ by {
        assert(after[i] == remarked(records[i], new.id@));
        if j < last {
            assert(after[j] == remarked(records[j], new.id@));
        } else {
            assert(records[i].id@ != new.id@);
        }
    }
}

/// Looks for a place for a revision with the identifier `id`: none where
/// the identifier is stored already, else whether the revision would be the
/// latest of its record.
fn place_of(records: &Vec<OntologyRecord>, id: &VersionedUri) -> (place: Option<bool>)
    ensures
        stored(records@, id@) ==> place is None,
        !stored(records@, id@) ==> place == Some(newest_among(records@, id@)),
{
    let version = id.version();
    let mut latest = true;
    let mut index: usize = 0;
    while index < records.len()
        invariant
            index <= records.len(),
            version == id@.version,
            forall|at: int| 0 <= at < index ==> (#[trigger] records@[at]).id@ != id@,
            latest == newest_among(records@.take(index as int), id@),
        decreases records.len() - index,
    {
        let record = &records[index];
        proof {
            let shorter = records@.take(index as int);
            let longer = records@.take(index + 1);
            assert(longer[index as int] == records@[index as int]);
            if newest_among(longer, id@) {
                assert forall|other: int|
                    0 <= other < shorter.len() && (#[trigger] shorter[other]).id@.base_uri
                        == id@.base_uri implies shorter[other].id@.version <= id@.version by {
                    assert(longer[other] == shorter[other]);
                }
            }
            if newest_among(shorter, id@) && !(records@[index as int].id@.base_uri == id@.base_uri
                && records@[index as int].id@.version > id@.version) {
                assert forall|other: int|
                    0 <= other < longer.len() && (#[trigger] longer[other]).id@.base_uri
                        == id@.base_uri implies longer[other].id@.version <= id@.version by {
                    if other < index {
                        assert(longer[other] == shorter[other]);
                    }
                }
            }
        }
        if text_is(record.id.base_uri().as_str(), id.base_uri().as_str()) {
            if record.id.version() == version {
                assert(records@[index as int].id@ == id@);
                return None;
            }
            if record.id.version() > version {
                latest = false;
            }
        }
        index += 1;
    }
    proof {
        assert(records@.take(index as int) =~= records@);
    }
    Some(latest)
}

/// The revisions of the ontology records of one kind, each under its
/// identifier.
#[derive(Debug, PartialEq, Eq)]
pub struct OntologyStore {
    records: Vec<OntologyRecord>,
}

impl View for OntologyStore {
    type V = Seq<OntologyRecord>;

    closed spec fn view(&self) -> Seq<OntologyRecord> {
        self.records@
    }
}

impl OntologyStore {
    #[verifier::type_invariant]
    closed spec fn valid(self) -> bool {
        consistent(self.records@)
    }

    /// A store without revisions.
    pub fn new() -> (store: OntologyStore)
        ensures
            store@ == Seq::<OntologyRecord>::empty(),
    {
        OntologyStore { records: Vec::new() }
    }

    /// The revisions stored, in the order in which they were stored.
    pub fn records(&self) -> (records: &Vec<OntologyRecord>)
        ensures
            records@ == self@,
            consistent(self@),
    {
        proof {
            use_type_invariant(self);
        }
        &self.records
    }

    /// Stores a revision, unless one is stored under its identifier.
    ///
    /// The new revision is marked as the latest of its record if no stored
    /// revision of the record has a higher version, and the stored revisions
    /// of the record with a lower version lose that mark.
    pub fn insert(&mut self, new: NewOntologyRecord) -> (done: bool)
        ensures
            stored(old(self)@, new.id@) ==> !done && final(self)@ == old(self)@,
            !stored(old(self)@, new.id@) ==> done && final(self)@ == inserted(old(self)@, new),
            consistent(final(self)@),
    {
        proof {
            use_type_invariant(&*self);
        }
        let ghost before = self@;
        let version = new.id.version();
        let latest = match place_of(&self.records, &new.id) {
            Some(latest) => latest,
            None => {
                return false;
            },
        };
        proof {
            lemma_inserted_consistent(before, new);
        }
        let mut taken = OntologyStore::new();
        core::mem::swap(self, &mut taken);
        let OntologyStore { records } = taken;
        let mut rebuilt: Vec<OntologyRecord> = Vec::new();
        for record in iter: records
            invariant
                iter.seq() == before,
                version == new.id@.version,
                rebuilt.len() == iter.index(),
                forall|at: int|
                    0 <= at < rebuilt.len() ==> #[trigger] rebuilt[at] == remarked(
                        before[at],
                        new.id@,
                    ),
        {
            let OntologyRecord { id, owned_by, title, description, kind, latest: marked } = record;
            let superseded = id.version() < version && text_is(
                id.base_uri().as_str(),
                new.id.base_uri().as_str(),
            );
            rebuilt.push(
                OntologyRecord {
                    id,
                    owned_by,
                    title,
                    description,
                    kind,
                    latest: marked && !superseded,
                },
            );
        }
        let NewOntologyRecord { id, owned_by, title, description, kind } = new;
        rebuilt.push(OntologyRecord { id, owned_by, title, description, kind, latest });
        proof {
            assert(rebuilt@ =~= inserted(before, new));
        }
        *self = OntologyStore { records: rebuilt };
        true
    }

    /// The roots of a query: the stored revisions of which the filter holds,
    /// in the order in which they were stored.
    pub fn find_roots<T: QueryRecord>(&self, filter: &Filter<T>) -> (roots: Vec<&OntologyRecord>)
        where T::Path: OntologyPath
        ensures
            pointed(roots@) == roots_in(filter@, self@),
            consistent(self@),
    {
        find_roots(filter, self.records())
    }
}

/// Whether a record stands among the records at a place where no record of
/// its base identifier has a higher version.
pub open spec fn newest_record(records: Seq<OntologyRecord>, record: OntologyRecord) -> bool {
    exists|i: int| 0 <= i < records.len() && #[trigger] records[i] == record && newest(records, i)
}

/// The filter that asks for the latest revision of every record.
pub open spec fn latest_filter<P: OntologyPath>() -> FilterModel<P> {
    FilterModel::Equal(
        Some(ExpressionModel::Path(P::version_path())),
        Some(ExpressionModel::Parameter(ParameterModel::Text("latest"@))),
    )
}

/// The filter that asks for the revision of one base identifier and one
/// version, the version given as a number.
pub open spec fn revision_filter<P: OntologyPath>(base_uri: Seq<char>, version: Number) -> FilterModel<
    P,
> {
    FilterModel::All(
        seq![
            FilterModel::Equal(
                Some(ExpressionModel::Path(P::base_uri_path())),
                Some(ExpressionModel::Parameter(ParameterModel::Text(base_uri))),
            ),
            FilterModel::Equal(
                Some(ExpressionModel::Path(P::version_path())),
                Some(ExpressionModel::Parameter(ParameterModel::Number(version))),
            ),
        ],
    )
}

/// The filter that asks for the revisions that have a description.
pub open spec fn described_filter<P: OntologyPath>() -> FilterModel<P> {
    FilterModel::NotEqual(Some(ExpressionModel::Path(P::description_path())), None)
}

/// The filter for the latest revision holds of a revision exactly when the
/// revision is marked as the latest.
pub proof fn lemma_latest_holds<P: OntologyPath>(record: OntologyRecord)
    ensures
        latest_filter::<P>().holds(seen::<P, OntologyRecord>(&record)) <==> record.latest,
{
    P::lemma_ontology_paths();
    assert(P::version_path().is_version());
}

/// The filter for the latest revision finds exactly the newest revision of
/// each record, of whichever kind the records are: every revision that no
/// revision of its record supersedes is a root, and no root is superseded.
pub proof fn lemma_latest_roots<P: OntologyPath>(records: Seq<OntologyRecord>)
    requires
        consistent(records),
    ensures
        forall|i: int|
            0 <= i < records.len() && newest(records, i) ==> roots_in(
                latest_filter::<P>(),
                records,
            ).contains(#[trigger] records[i]),
        forall|k: int|
            0 <= k < roots_in(latest_filter::<P>(), records).len() ==> newest_record(
                records,
                #[trigger] roots_in(latest_filter::<P>(), records)[k],
            ),
{
    let filter = latest_filter::<P>();
    let roots = roots_in(filter, records);
    lemma_roots_in(filter, records);
    assert forall|i: int| 0 <= i < records.len() && newest(records, i) implies roots.contains(
        #[trigger] records[i],
    ) by {
        lemma_latest_holds::<P>(records[i]);
    }
    assert forall|k: int| 0 <= k < roots.len() implies newest_record(records, #[trigger] roots[k]) by {
        lemma_latest_holds::<P>(roots[k]);
        let at = choose|at: int| 0 <= at < records.len() && records[at] == roots[k];
        assert(records[at].latest);
    }
}

/// The filter for a base identifier and a version holds of a revision
/// exactly when the revision has that identifier.
pub proof fn lemma_revision_holds<P: OntologyPath>(
    record: OntologyRecord,
    base_uri: Seq<char>,
    number: Number,
    version: u32,
)
    requires
        number.exact_integer() == Some(version as i64),
    ensures
        revision_filter::<P>(base_uri, number).holds(seen::<P, OntologyRecord>(&record))
            <==> record.id@ == (VersionedUriModel { base_uri, version }),
{
    reveal_with_fuel(FilterModel::holds, 2);
    P::lemma_ontology_paths();
    let filter = revision_filter::<P>(base_uri, number);
    let members = filter->All_0;
    let shown = seen::<P, OntologyRecord>(&record);
    assert(!P::base_uri_path().is_version());
    assert(P::version_path().is_version());
    assert(members[0].holds(shown) <==> record.id@.base_uri == base_uri);
    assert(members[1].holds(shown) <==> record.id@.version == version);
}

/// Where the filter holds of no record there is no root, and where it holds
/// of one record only, that record is the one root.
pub proof fn lemma_at_most_one_root<P: OntologyPath>(
    filter: FilterModel<P>,
    records: Seq<OntologyRecord>,
)
    requires
        forall|i: int, j: int|
            0 <= i < j < records.len() ==> !(filter.holds(
                seen::<P, OntologyRecord>(&#[trigger] records[i]),
            ) && filter.holds(seen::<P, OntologyRecord>(&#[trigger] records[j]))),
    ensures
        (forall|i: int|
            0 <= i < records.len() ==> !filter.holds(
                seen::<P, OntologyRecord>(&#[trigger] records[i]),
            )) ==> roots_in(filter, records) == Seq::<OntologyRecord>::empty(),
        forall|i: int|
            0 <= i < records.len() && filter.holds(
                seen::<P, OntologyRecord>(&#[trigger] records[i]),
            ) ==> roots_in(filter, records) == seq![records[i]],
    decreases records.len(),
{
    if records.len() > 0 {
        let shorter = records.drop_last();
        let last = records.len() - 1;
        assert forall|i: int, j: int| 0 <= i < j < shorter.len() implies !(filter.holds(
            seen::<P, OntologyRecord>(&#[trigger] shorter[i]),
        ) && filter.holds(seen::<P, OntologyRecord>(&#[trigger] shorter[j]))) by {
            assert(shorter[i] == records[i]);
            assert(shorter[j] == records[j]);
        }
        lemma_at_most_one_root(filter, shorter);
        if filter.holds(seen::<P, OntologyRecord>(&records[last])) {
            assert forall|i: int| 0 <= i < shorter.len() implies !filter.holds(
                seen::<P, OntologyRecord>(&#[trigger] shorter[i]),
            ) by {
                assert(shorter[i] == records[i]);
            }
            assert(roots_in(filter, records) =~= seq![records[last]]);
            assert forall|i: int|
                0 <= i < records.len() && filter.holds(
                    seen::<P, OntologyRecord>(&#[trigger] records[i]),
                ) implies roots_in(filter, records) == seq![records[i]] by {
                if i < last {
                    assert(shorter[i] == records[i]);
                }
            }
        } else {
            assert forall|i: int|
                0 <= i < records.len() && filter.holds(
                    seen::<P, OntologyRecord>(&#[trigger] records[i]),
                ) implies roots_in(filter, records) == seq![records[i]] by {
                assert(shorter[i] == records[i]);
            }
            if forall|i: int|
                0 <= i < records.len() ==> !filter.holds(
                    seen::<P, OntologyRecord>(&#[trigger] records[i]),
                ) {
                assert forall|i: int| 0 <= i < shorter.len() implies !filter.holds(
                    seen::<P, OntologyRecord>(&#[trigger] shorter[i]),
                ) by {
                    assert(shorter[i] == records[i]);
                }
            }
        }
    }
}

/// The filter for a base identifier and a version finds the one revision
/// that has this identifier, whatever other revisions are stored, and
/// nothing where no revision has it.
pub proof fn lemma_revision_roots<P: OntologyPath>(
    records: Seq<OntologyRecord>,
    base_uri: Seq<char>,
    number: Number,
    version: u32,
)
    requires
        consistent(records),
        number.exact_integer() == Some(version as i64),
    ensures
        forall|i: int|
            0 <= i < records.len() && (#[trigger] records[i]).id@ == (VersionedUriModel {
                base_uri,
                version,
            }) ==> roots_in(revision_filter::<P>(base_uri, number), records) == seq![records[i]],
        !stored(records, VersionedUriModel { base_uri, version }) ==> roots_in(
            revision_filter::<P>(base_uri, number),
            records,
        ) == Seq::<OntologyRecord>::empty(),
{
    let filter = revision_filter::<P>(base_uri, number);
    assert forall|i: int| 0 <= i < records.len() implies (filter.holds(
        seen::<P, OntologyRecord>(&#[trigger] records[i]),
    ) <==> records[i].id@ == (VersionedUriModel { base_uri, version })) by {
        lemma_revision_holds::<P>(records[i], base_uri, number, version);
    }
    lemma_at_most_one_root(filter, records);
}

/// The filter for what has a description holds of a revision exactly when
/// the description of the revision is there.
pub proof fn lemma_described_holds<P: OntologyPath>(record: OntologyRecord)
    ensures
        described_filter::<P>().holds(seen::<P, OntologyRecord>(&record)) <==> record.description
            is Some,
{
    P::lemma_ontology_paths();
}

/// The filter for what has a description finds exactly the revisions whose
/// description is there.
pub proof fn lemma_described_roots<P: OntologyPath>(records: Seq<OntologyRecord>)
    ensures
        forall|i: int|
            0 <= i < records.len() && (#[trigger] records[i]).description is Some ==> roots_in(
                described_filter::<P>(),
                records,
            ).contains(records[i]),
        forall|k: int|
            0 <= k < roots_in(described_filter::<P>(), records).len() ==> (#[trigger] roots_in(
                described_filter::<P>(),
                records,
            )[k]).description is Some,
{
    let filter = described_filter::<P>();
    let roots = roots_in(filter, records);
    lemma_roots_in(filter, records);
    assert forall|i: int|
        0 <= i < records.len() && (#[trigger] records[i]).description is Some implies roots.contains(
        records[i],
    ) by {
        lemma_described_holds::<P>(records[i]);
    }
    assert forall|k: int| 0 <= k < roots.len() implies (#[trigger] roots[k]).description
        is Some by {
        lemma_described_holds::<P>(roots[k]);
    }
}

/// The three filters are accepted as they are written: coercion finds
/// nothing to convert in them, whatever the base identifier and the number.
pub proof fn lemma_filters_accepted<P: OntologyPath>(base_uri: Seq<char>, number: Number)
    ensures
        latest_filter::<P>().coerced() == Ok::<FilterModel<P>, ParameterConversionErrorModel>(
            latest_filter::<P>(),
        ),
        revision_filter::<P>(base_uri, number).coerced() == Ok::<
            FilterModel<P>,
            ParameterConversionErrorModel,
        >(revision_filter::<P>(base_uri, number)),
        described_filter::<P>().coerced() == Ok::<FilterModel<P>, ParameterConversionErrorModel>(
            described_filter::<P>(),
        ),
{
    P::lemma_ontology_paths();
    reveal_with_fuel(FilterModel::settled, 2);
    let revision = revision_filter::<P>(base_uri, number);
    assert(revision->All_0[0].settled());
    assert(revision->All_0[1].settled());
    lemma_settled(latest_filter::<P>());
    lemma_settled(revision);
    lemma_settled(described_filter::<P>());
}

} // verus!
