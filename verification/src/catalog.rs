use crate::record::{FileMetadata, FileMetadataView};
use vstd::prelude::*;

verus! {

/// The mathematical value of a [`Catalog`]: the record stored under each
/// identifier, and the identifier that the most recent insert wrote, if any
/// insert has happened.
pub struct CatalogView {
    pub records: Map<Seq<char>, FileMetadataView>,
    pub latest: Option<Seq<char>>,
}

impl CatalogView {
    /// The catalog that holds nothing.
    pub open spec fn empty() -> CatalogView {
        CatalogView { records: Map::empty(), latest: None }
    }

    /// The catalog after `record` was stored under `identifier`, in place of
    /// whatever stood there before.
    pub open spec fn insert(self, identifier: Seq<char>, record: FileMetadataView) -> CatalogView {
        CatalogView { records: self.records.insert(identifier, record), latest: Some(identifier) }
    }

    /// The record stored under `identifier`, if there is one.
    pub open spec fn get(self, identifier: Seq<char>) -> Option<FileMetadataView> {
        if self.records.contains_key(identifier) {
            Some(self.records[identifier])
        } else {
            None
        }
    }

    /// The record that the most recent insert stored, if there was an insert.
    pub open spec fn get_latest(self) -> Option<FileMetadataView> {
        match self.latest {
            Some(identifier) => self.get(identifier),
            None => None,
        }
    }

    /// What holds of every catalog: the latest identifier has a record, and
    /// only the catalog without records has no latest identifier.
    pub open spec fn well_formed(self) -> bool {
        match self.latest {
            Some(identifier) => self.records.contains_key(identifier),
            None => self.records == Map::<Seq<char>, FileMetadataView>::empty(),
        }
    }
}

/// A lookup after an insert finds the whole new record under its identifier
/// and, under every other identifier, what was there before: no state
/// between the two exists.
pub proof fn lemma_insert_is_whole(
    catalog: CatalogView,
    identifier: Seq<char>,
    record: FileMetadataView,
    other: Seq<char>,
)
    ensures
        catalog.insert(identifier, record).get(identifier) == Some(record),
        other != identifier ==> catalog.insert(identifier, record).get(other) == catalog.get(other),
        catalog.insert(identifier, record).get_latest() == Some(record),
{
}

/// Inserts keep a catalog well formed, and take no identifier out of it.
pub proof fn lemma_insert_keeps(
    catalog: CatalogView,
    identifier: Seq<char>,
    record: FileMetadataView,
    other: Seq<char>,
)
    ensures
        CatalogView::empty().well_formed(),
        catalog.insert(identifier, record).well_formed(),
        catalog.records.contains_key(other) ==> catalog.insert(
            identifier,
            record,
        ).records.contains_key(other),
{
}

/// The catalog that a server holds after the given inserts, in their order,
/// on a catalog that was created empty.
pub open spec fn after_inserts(inserts: Seq<(Seq<char>, FileMetadataView)>) -> CatalogView
    decreases inserts.len(),
{
    if inserts.len() == 0 {
        CatalogView::empty()
    } else {
        after_inserts(inserts.drop_last()).insert(inserts.last().0, inserts.last().1)
    }
}

/// Whatever was inserted, a reader finds under an identifier either nothing,
/// and then nothing was ever inserted under it, or a record exactly as one
/// insert wrote it. Nothing that was inserted is ever gone, and the latest
/// record is the one that the last insert wrote.
pub proof fn lemma_readers_see_whole_records(
    inserts: Seq<(Seq<char>, FileMetadataView)>,
    identifier: Seq<char>,
)
    ensures
        after_inserts(inserts).well_formed(),
        match after_inserts(inserts).get(identifier) {
            Some(record) => exists|k: int|
                0 <= k < inserts.len() && #[trigger] inserts[k] == (identifier, record),
            None => forall|k: int| 0 <= k < inserts.len() ==> (#[trigger] inserts[k]).0 != identifier,
        },
        inserts.len() > 0 ==> after_inserts(inserts).get_latest() == Some(inserts.last().1),
    decreases inserts.len(),
{
    if inserts.len() > 0 {
        let earlier = inserts.drop_last();
        lemma_readers_see_whole_records(earlier, identifier);
        if inserts.last().0 == identifier {
            assert(inserts[inserts.len() - 1] == (identifier, inserts.last().1));
        } else {
            match after_inserts(earlier).get(identifier) {
                Some(record) => {
                    let k = choose|k: int|
                        0 <= k < earlier.len() && #[trigger] earlier[k] == (identifier, record);
                    assert(inserts[k] == (identifier, record));
                },
                None => {
                    assert forall|k: int| 0 <= k < inserts.len() implies (#[trigger] inserts[k]).0
                        != identifier by {
                        if k < earlier.len() {
                            assert(earlier[k] == inserts[k]);
                        }
                    }
                },
            }
        }
    }
}

struct Entry {
    identifier: String,
    record: FileMetadata,
}

/// The records that a server shares, each under its identifier, in the order
/// in which they were last written.
pub struct Catalog {
    entries: Vec<Entry>,
}

/// Whether position `index` of `entries` holds `identifier`.
spec fn holds(entries: Seq<Entry>, identifier: Seq<char>, index: int) -> bool {
    0 <= index < entries.len() && entries[index].identifier@ == identifier
}

/// Whether no identifier occurs at two positions.
spec fn distinct(entries: Seq<Entry>) -> bool {
    forall|i: int, j: int|
        0 <= i < j < entries.len() ==> #[trigger] entries[i].identifier@
            != #[trigger] entries[j].identifier@
}

spec fn records_of(entries: Seq<Entry>) -> Map<Seq<char>, FileMetadataView> {
    Map::new(
        |identifier: Seq<char>| exists|i: int| holds(entries, identifier, i),
        |identifier: Seq<char>| entries[choose|i: int| holds(entries, identifier, i)].record@,
    )
}

spec fn latest_of(entries: Seq<Entry>) -> Option<Seq<char>> {
    if entries.len() == 0 {
        None
    } else {
        Some(entries.last().identifier@)
    }
}

/// Where identifiers are distinct, the position that holds one decides its
/// record.
proof fn lemma_record_at(entries: Seq<Entry>, index: int)
    requires
        distinct(entries),
        0 <= index < entries.len(),
    ensures
        records_of(entries).contains_key(entries[index].identifier@),
        records_of(entries)[entries[index].identifier@] == entries[index].record@,
{
    assert(holds(entries, entries[index].identifier@, index));
}

/// Writing an entry at the end, after taking out the one that held its
/// identifier, is an insert on the records.
proof fn lemma_write(before: Seq<Entry>, kept: Seq<Entry>, entry: Entry)
    requires
        distinct(before),
        kept == before || exists|i: int|
            holds(before, entry.identifier@, i) && kept == before.remove(i),
        forall|i: int| !holds(kept, entry.identifier@, i),
    ensures
        distinct(kept.push(entry)),
        records_of(kept.push(entry)) == records_of(before).insert(
            entry.identifier@,
            entry.record@,
        ),
{
    let after = kept.push(entry);
    let identifier = entry.identifier@;
    // Each kept position comes from a position of `before` with the same entry.
    assert forall|j: int| 0 <= j < kept.len() implies exists|i: int|
        0 <= i < before.len() && before[i] == #[trigger] kept[j] by {
        if kept == before {
            assert(before[j] == kept[j]);
        } else {
            let gone = choose|i: int| holds(before, identifier, i) && kept == before.remove(i);
            if j < gone {
                assert(before[j] == kept[j]);
            } else {
                assert(before[j + 1] == kept[j]);
            }
        }
    }
    assert(distinct(after)) by {
        assert forall|i: int, j: int| 0 <= i < j < after.len() implies after[i].identifier@
            != after[j].identifier@ by {
            if j == kept.len() {
                assert(!holds(kept, identifier, i));
            } else if kept == before {
            } else {
                let gone = choose|g: int| holds(before, identifier, g) && kept == before.remove(g);
                let from_i = if i < gone { i } else { i + 1 };
                let from_j = if j < gone { j } else { j + 1 };
                assert(before[from_i] == kept[i]);
                assert(before[from_j] == kept[j]);
            }
        }
    }
    let expected = records_of(before).insert(identifier, entry.record@);
    assert forall|key: Seq<char>| #[trigger]
        records_of(after).dom().contains(key) implies expected.dom().contains(key) by {
        let at = choose|i: int| holds(after, key, i);
        if at < kept.len() {
            let from = choose|i: int| 0 <= i < before.len() && before[i] == kept[at];
            assert(holds(before, key, from));
        }
    }
    assert forall|key: Seq<char>| #[trigger]
        expected.dom().contains(key) implies records_of(after).dom().contains(key) && records_of(
        after,
    )[key] == expected[key] by {
        if key == identifier {
            assert(holds(after, key, kept.len() as int));
            lemma_record_at(after, kept.len() as int);
        } else {
            let from = choose|i: int| holds(before, key, i);
            lemma_record_at(before, from);
            if kept == before {
                assert(after[from] == before[from]);
                lemma_record_at(after, from);
            } else {
                let gone = choose|g: int| holds(before, identifier, g) && kept == before.remove(g);
                let to = if from < gone { from } else { from - 1 };
                assert(after[to] == before[from]);
                lemma_record_at(after, to);
            }
        }
    }
    assert(records_of(after) =~= expected);
}

impl View for Catalog {
    type V = CatalogView;

    closed spec fn view(&self) -> CatalogView {
        CatalogView { records: records_of(self.entries@), latest: latest_of(self.entries@) }
    }
}

impl Catalog {
    #[verifier::type_invariant]
    spec fn inv(self) -> bool {
        distinct(self.entries@)
    }

    /// Every catalog is well formed.
    pub proof fn lemma_well_formed(self)
        ensures
            self@.well_formed(),
    {
        let entries = self.entries@;
        if entries.len() == 0 {
            assert(self@.records =~= Map::<Seq<char>, FileMetadataView>::empty());
        } else {
            assert(holds(entries, entries.last().identifier@, entries.len() - 1));
        }
    }

    /// Creates the empty catalog.
    pub fn new() -> (catalog: Catalog)
        ensures
            catalog@ == CatalogView::empty(),
    {
        let catalog = Catalog { entries: Vec::new() };
        assert(catalog@.records =~= Map::<Seq<char>, FileMetadataView>::empty());
        catalog
    }

    /// The position that holds `identifier`, if one does.
    fn position(&self, identifier: &String) -> (found: Option<usize>)
        ensures
            match found {
                Some(index) => holds(self.entries@, identifier@, index as int),
                None => forall|i: int| !holds(self.entries@, identifier@, i),
            },
    {
        let mut index: usize = 0;
        while index < self.entries.len()
            invariant
                index <= self.entries.len(),
                forall|i: int| 0 <= i < index ==> !holds(self.entries@, identifier@, i),
            decreases self.entries.len() - index,
        {
            if self.entries[index].identifier == *identifier {
                return Some(index);
            }
            index += 1;
        }
        None
    }

    /// Stores `record` under `identifier`. A record that stood there before is
    /// replaced, and the new one becomes the latest.
    pub fn insert(&mut self, identifier: String, record: FileMetadata)
        ensures
            final(self)@ == old(self)@.insert(identifier@, record@),
    {
        proof {
            use_type_invariant(&*self);
        }
        let found = self.position(&identifier);
        let ghost before = self.entries@;
        let mut entries: Vec<Entry> = Vec::new();
        std::mem::swap(&mut entries, &mut self.entries);
        if let Some(index) = found {
            entries.remove(index);
        }
        let entry = Entry { identifier, record };
        proof {
            lemma_write(before, entries@, entry);
        }
        entries.push(entry);
        self.entries = entries;
    }

    /// The record stored under `identifier`, if there is one.
    pub fn get(&self, identifier: &str) -> (found: Option<&FileMetadata>)
        ensures
            match found {
                Some(record) => self@.get(identifier@) == Some(record@),
                None => self@.get(identifier@) is None,
            },
    {
        proof {
            use_type_invariant(self);
        }
        let key = identifier.to_owned();
        match self.position(&key) {
            Some(index) => {
                proof {
                    lemma_record_at(self.entries@, index as int);
                }
                Some(&self.entries[index].record)
            },
            None => None,
        }
    }

    /// The record that the most recent insert stored, if there was an insert.
    pub fn get_latest(&self) -> (found: Option<&FileMetadata>)
        ensures
            match found {
                Some(record) => self@.get_latest() == Some(record@),
                None => self@.get_latest() is None,
            },
    {
        proof {
            use_type_invariant(self);
        }
        let count = self.entries.len();
        if count == 0 {
            None
        } else {
            proof {
                lemma_record_at(self.entries@, count - 1);
            }
            Some(&self.entries[count - 1].record)
        }
    }
}

} // verus!
