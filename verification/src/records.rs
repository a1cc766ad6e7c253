//! The record store and the lifecycle policies it owns.
//!
//! All three entity kinds share one row shape (the two optional text
//! fields are empty for the kind that lacks them), so the store, the
//! "keep the old image unless a new one was submitted" merge policy and
//! the "delete the replaced image file" cleanup policy are implemented
//! once, in [`Table`]. Rows are kept in ascending id order and ids are
//! assigned by the store on insertion, never reused.

use vstd::prelude::*;

use crate::assets::Assets;
use crate::errors::DreamError;

verus! {

/// The mathematical value of one stored row.
pub ghost struct RecordV {
    pub id: int,
    pub num: int,
    pub name: Seq<char>,
    pub image: Seq<char>,
    pub preview: Seq<char>,
    pub description: Seq<char>,
}

/// The mathematical value of a fully ingested submission, before the
/// store has assigned it an id.
pub ghost struct NewRecordV {
    pub num: int,
    pub name: Seq<char>,
    pub image: Seq<char>,
    pub preview: Seq<char>,
    pub description: Seq<char>,
}

/// One stored row.
#[derive(Debug)]
pub struct Record {
    pub id: i32,
    pub num: i32,
    pub name: String,
    pub image: String,
    pub preview: String,
    pub description: String,
}

impl View for Record {
    type V = RecordV;

    open spec fn view(&self) -> RecordV {
        RecordV {
            id: self.id as int,
            num: self.num as int,
            name: self.name@,
            image: self.image@,
            preview: self.preview@,
            description: self.description@,
        }
    }
}

impl Record {
    pub fn duplicate(&self) -> (r: Record)
        ensures
            r == *self,
    {
        Record {
            id: self.id,
            num: self.num,
            name: self.name.clone(),
            image: self.image.clone(),
            preview: self.preview.clone(),
            description: self.description.clone(),
        }
    }
}

/// A fully ingested submission: every field of the row but the id. An
/// empty `image` means "no new image was submitted".
#[derive(Debug)]
pub struct NewRecord {
    pub num: i32,
    pub name: String,
    pub image: String,
    pub preview: String,
    pub description: String,
}

impl View for NewRecord {
    type V = NewRecordV;

    open spec fn view(&self) -> NewRecordV {
        NewRecordV {
            num: self.num as int,
            name: self.name@,
            image: self.image@,
            preview: self.preview@,
            description: self.description@,
        }
    }
}

/// The row a new record becomes once the store assigns it `id`.
pub open spec fn record_from(n: NewRecordV, id: int) -> RecordV {
    RecordV {
        id: id,
        num: n.num,
        name: n.name,
        image: n.image,
        preview: n.preview,
        description: n.description,
    }
}

/// The merge policy: an empty submitted image keeps the previous image
/// name, a non-empty one replaces it.
pub open spec fn merged_image(new_img: Seq<char>, old_img: Seq<char>) -> Seq<char> {
    if new_img.len() == 0 {
        old_img
    } else {
        new_img
    }
}

/// The row an update leaves behind: every field fully replaced, except
/// that the image follows the merge policy.
pub open spec fn merged_record(n: NewRecordV, id: int, old_img: Seq<char>) -> RecordV {
    RecordV {
        id: id,
        num: n.num,
        name: n.name,
        image: merged_image(n.image, old_img),
        preview: n.preview,
        description: n.description,
    }
}

/// The mathematical values of a sequence of rows.
pub open spec fn views_of(s: Seq<Record>) -> Seq<RecordV> {
    s.map_values(|r: Record| r@)
}

pub open spec fn ids_ascending(s: Seq<RecordV>) -> bool {
    forall|i: int, j: int| 0 <= i < j < s.len() ==> s[i].id < s[j].id
}

pub open spec fn ids_below(s: Seq<RecordV>, bound: int) -> bool {
    forall|i: int| 0 <= i < s.len() ==> s[i].id < bound
}

pub open spec fn has_id(s: Seq<RecordV>, id: int) -> bool {
    exists|k: int| 0 <= k < s.len() && s[k].id == id
}

/// The index of the row with the given id (meaningful only when
/// `has_id(s, id)` holds; unique because ids ascend).
pub open spec fn idx_of(s: Seq<RecordV>, id: int) -> int {
    choose|k: int| 0 <= k < s.len() && s[k].id == id
}

/// The row with the given id.
pub open spec fn record_of(s: Seq<RecordV>, id: int) -> RecordV {
    s[idx_of(s, id)]
}

/// In an id-ascending sequence an id occurs at most once, so any index
/// holding it is `idx_of`.
pub proof fn lemma_ascending_unique(s: Seq<RecordV>, id: int)
    requires
        ids_ascending(s),
    ensures
        forall|k: int| 0 <= k < s.len() && s[k].id == id ==> k == idx_of(s, id),
        has_id(s, id) ==> 0 <= idx_of(s, id) < s.len() && s[idx_of(s, id)].id == id,
{
    if has_id(s, id) {
        let k0 = idx_of(s, id);
        assert(0 <= k0 < s.len() && s[k0].id == id);
        assert forall|k: int| 0 <= k < s.len() && s[k].id == id implies k == k0 by {
            if k < k0 {
                assert(s[k].id < s[k0].id);
            } else if k > k0 {
                assert(s[k0].id < s[k].id);
            }
        };
    }
}

/// Removing a row keeps the remaining ids ascending and below any bound
/// they were below, and removes its id from the sequence.
pub proof fn lemma_ascending_remove(s: Seq<RecordV>, k: int, bound: int)
    requires
        ids_ascending(s),
        ids_below(s, bound),
        0 <= k < s.len(),
    ensures
        ids_ascending(s.remove(k)),
        ids_below(s.remove(k), bound),
        !has_id(s.remove(k), s[k].id),
{
    s.remove_ensures(k);
    let t = s.remove(k);
    assert forall|i: int, j: int| 0 <= i < j < t.len() implies t[i].id < t[j].id by {
        let mi: int = if i < k { i } else { i + 1 };
        let mj: int = if j < k { j } else { j + 1 };
        assert(t[i] == s[mi]);
        assert(t[j] == s[mj]);
    };
    assert forall|i: int| 0 <= i < t.len() implies t[i].id < bound by {
        let m: int = if i < k { i } else { i + 1 };
        assert(t[i] == s[m]);
    };
    lemma_ascending_unique(s, s[k].id);
    assert forall|i: int| 0 <= i < t.len() implies t[i].id != s[k].id by {
        let m: int = if i < k { i } else { i + 1 };
        assert(t[i] == s[m]);
    };
}

/// Replacing a row by one with the same id keeps the ids ascending.
pub proof fn lemma_ascending_update(s: Seq<RecordV>, k: int, m: RecordV)
    requires
        ids_ascending(s),
        0 <= k < s.len(),
        m.id == s[k].id,
    ensures
        ids_ascending(s.update(k, m)),
{
    let t = s.update(k, m);
    assert forall|i: int, j: int| 0 <= i < j < t.len() implies t[i].id < t[j].id by {
        assert(s[i].id < s[j].id);
    };
}

/// One entity kind's rows, in ascending id order, together with the next
/// id the store will assign.
pub struct Table {
    rows: Vec<Record>,
    next: i32,
}

impl View for Table {
    type V = Seq<RecordV>;

    closed spec fn view(&self) -> Seq<RecordV> {
        views_of(self.rows@)
    }
}

impl Table {
    pub closed spec fn next_id(&self) -> int {
        self.next as int
    }

    /// Internal shape: rows ascend by id, every id is positive and below
    /// the next id to be assigned.
    pub closed spec fn wf(&self) -> bool {
        &&& ids_ascending(self@)
        &&& ids_below(self@, self.next_id())
        &&& 1 <= self.next_id()
    }

    pub proof fn lemma_wf_ascending(&self)
        requires
            self.wf(),
        ensures
            ids_ascending(self@),
            ids_below(self@, self.next_id()),
    {
    }

    pub fn new() -> (r: Table)
        ensures
            r.wf(),
            r@ == Seq::<RecordV>::empty(),
            r.next_id() == 1,
    {
        let r = Table { rows: Vec::new(), next: 1 };
        proof {
            assert(r@ =~= Seq::<RecordV>::empty());
        }
        r
    }

    fn find_index(&self, id: i32) -> (r: Option<usize>)
        ensures
            match r {
                Some(k) => 0 <= k < self@.len() && self@[k as int].id == id,
                None => !has_id(self@, id as int),
            },
    {
        let n = self.rows.len();
        let mut i: usize = 0;
        while i < n
            invariant
                n == self.rows@.len(),
                self@.len() == self.rows@.len(),
                0 <= i <= n,
                forall|k: int| 0 <= k < i ==> self@[k].id != id,
            decreases n - i,
        {
            if self.rows[i].id == id {
                assert(self@[i as int].id == id);
                return Some(i);
            }
            i += 1;
        }
        None
    }

    /// Looks one row up by id.
    pub fn get(&self, id: i32) -> (r: Result<Record, DreamError>)
        requires
            self.wf(),
        ensures
            has_id(self@, id as int) ==> r is Ok && r->Ok_0@ == record_of(self@, id as int),
            !has_id(self@, id as int) ==> r == Err::<Record, DreamError>(DreamError::NotFound),
    {
        match self.find_index(id) {
            Some(k) => {
                proof {
                    lemma_ascending_unique(self@, id as int);
                }
                Ok(self.rows[k].duplicate())
            },
            None => Err(DreamError::NotFound),
        }
    }

    /// Returns a copy of every row, in ascending id order.
    pub fn all(&self) -> (r: Vec<Record>)
        requires
            self.wf(),
        ensures
            views_of(r@) == self@,
            ids_ascending(self@),
    {
        let n = self.rows.len();
        let mut out: Vec<Record> = Vec::new();
        let mut i: usize = 0;
        while i < n
            invariant
                n == self.rows@.len(),
                self@.len() == self.rows@.len(),
                0 <= i <= n,
                out@.len() == i,
                forall|k: int| 0 <= k < i ==> (#[trigger] out@[k])@ == self@[k],
            decreases n - i,
        {
            out.push(self.rows[i].duplicate());
            i += 1;
        }
        proof {
            assert(views_of(out@) =~= self@);
        }
        out
    }

    /// Persists a new row under a freshly assigned id and returns it.
    /// The image file the row references, if any, is already durable:
    /// ingestion saved it before this call. Fails only when the id space
    /// is exhausted, which is a storage failure, not a missing row.
    pub fn insert(&mut self, new: NewRecord) -> (r: Result<Record, DreamError>)
        requires
            old(self).wf(),
        ensures
            final(self).wf(),
            old(self).next_id() < i32::MAX as int ==> {
                &&& r is Ok
                &&& r->Ok_0@ == record_from(new@, old(self).next_id())
                &&& final(self)@ == old(self)@.push(record_from(new@, old(self).next_id()))
                &&& final(self).next_id() == old(self).next_id() + 1
            },
            old(self).next_id() == i32::MAX as int ==> {
                &&& r == Err::<Record, DreamError>(DreamError::InternalServerError)
                &&& final(self)@ == old(self)@
                &&& final(self).next_id() == old(self).next_id()
            },
    {
        if self.next == i32::MAX {
            return Err(DreamError::InternalServerError);
        }
        let id = self.next;
        self.next = self.next + 1;
        let rec = Record {
            id: id,
            num: new.num,
            name: new.name,
            image: new.image,
            preview: new.preview,
            description: new.description,
        };
        let result = rec.duplicate();
        self.rows.push(rec);
        proof {
            assert(self@ =~= old(self)@.push(result@));
        }
        Ok(result)
    }

    /// Replaces the row with the given id by the submitted record, under
    /// the merge policy: an empty submitted image keeps the old image
    /// name and touches no file; a non-empty one (just saved by
    /// ingestion) replaces it, and the old file is deleted from the
    /// asset store afterwards, so it does not linger as an orphan. A
    /// missing id fails with `NotFound` before anything is touched.
    pub fn update(&mut self, assets: &mut Assets, new: NewRecord, id: i32) -> (r: Result<
        Record,
        DreamError,
    >)
        requires
            old(self).wf(),
            old(assets).wf(),
        ensures
            final(self).wf(),
            final(assets).wf(),
            final(self).next_id() == old(self).next_id(),
            !has_id(old(self)@, id as int) ==> {
                &&& r == Err::<Record, DreamError>(DreamError::NotFound)
                &&& final(self)@ == old(self)@
                &&& final(assets)@ == old(assets)@
            },
            has_id(old(self)@, id as int) ==> {
                let old_rec = record_of(old(self)@, id as int);
                let m = merged_record(new@, id as int, old_rec.image);
                &&& r is Ok
                &&& r->Ok_0@ == m
                &&& final(self)@ == old(self)@.update(idx_of(old(self)@, id as int), m)
                &&& (new@.image.len() == 0 ==> final(assets)@ == old(assets)@)
                &&& (new@.image.len() > 0 ==> final(assets)@ == old(assets)@.remove(old_rec.image))
            },
    {
        match self.find_index(id) {
            None => Err(DreamError::NotFound),
            Some(k) => {
                proof {
                    lemma_ascending_unique(self@, id as int);
                }
                let old_image = self.rows[k].image.clone();
                let has_new_image = !new.image.as_str().is_empty();
                if has_new_image {
                    assets.delete(&old_image);
                }
                let image = if has_new_image {
                    new.image
                } else {
                    old_image
                };
                let updated = Record {
                    id: id,
                    num: new.num,
                    name: new.name,
                    image: image,
                    preview: new.preview,
                    description: new.description,
                };
                let result = updated.duplicate();
                let ghost pre = self.rows@;
                self.rows.remove(k);
                let ghost mid = self.rows@;
                self.rows.insert(k, updated);
                proof {
                    pre.remove_ensures(k as int);
                    mid.insert_ensures(k as int, updated);
                    assert(self.rows@ =~= pre.update(k as int, updated));
                    assert(self@ =~= old(self)@.update(k as int, updated@));
                    let m = merged_record(new@, id as int, record_of(old(self)@, id as int).image);
                    assert(updated@ == m);
                    assert forall|i: int, j: int| 0 <= i < j < self@.len()
                        implies self@[i].id < self@[j].id by {
                        assert(old(self)@[i].id < old(self)@[j].id);
                    };
                    assert forall|i: int| 0 <= i < self@.len()
                        implies self@[i].id < self.next_id() by {
                        assert(old(self)@[i].id < old(self).next_id());
                    };
                }
                Ok(result)
            },
        }
    }

    /// Removes the row with the given id, returning the removed record,
    /// and deletes its image file from the asset store (a no-op when the
    /// row held no image). A missing id fails with `NotFound`.
    pub fn delete(&mut self, assets: &mut Assets, id: i32) -> (r: Result<Record, DreamError>)
        requires
            old(self).wf(),
            old(assets).wf(),
        ensures
            final(self).wf(),
            final(assets).wf(),
            final(self).next_id() == old(self).next_id(),
            !has_id(old(self)@, id as int) ==> {
                &&& r == Err::<Record, DreamError>(DreamError::NotFound)
                &&& final(self)@ == old(self)@
                &&& final(assets)@ == old(assets)@
            },
            has_id(old(self)@, id as int) ==> {
                &&& r is Ok
                &&& r->Ok_0@ == record_of(old(self)@, id as int)
                &&& final(self)@ == old(self)@.remove(idx_of(old(self)@, id as int))
                &&& !has_id(final(self)@, id as int)
                &&& final(assets)@ == old(assets)@.remove(record_of(old(self)@, id as int).image)
            },
    {
        match self.find_index(id) {
            None => Err(DreamError::NotFound),
            Some(k) => {
                proof {
                    lemma_ascending_unique(self@, id as int);
                }
                let ghost pre = self.rows@;
                let removed = self.rows.remove(k);
                assets.delete(&removed.image);
                proof {
                    pre.remove_ensures(k as int);
                    assert(self@ =~= old(self)@.remove(k as int));
                    lemma_ascending_remove(old(self)@, k as int, old(self).next_id());
                }
                Ok(removed)
            },
        }
    }
}

/// The system's whole state: one table per entity kind and the shared
/// asset store, standing where the original kept a database handle.
pub struct Db {
    pub glyphs: Table,
    pub tones: Table,
    pub kins: Table,
    pub assets: Assets,
}

impl Db {
    pub open spec fn wf(&self) -> bool {
        &&& self.glyphs.wf()
        &&& self.tones.wf()
        &&& self.kins.wf()
        &&& self.assets.wf()
    }

    pub fn new() -> (r: Db)
        ensures
            r.wf(),
            r.glyphs@ == Seq::<RecordV>::empty(),
            r.tones@ == Seq::<RecordV>::empty(),
            r.kins@ == Seq::<RecordV>::empty(),
            r.assets@ == Set::<Seq<char>>::empty(),
    {
        Db { glyphs: Table::new(), tones: Table::new(), kins: Table::new(), assets: Assets::new() }
    }
}

} // verus!
