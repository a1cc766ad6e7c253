//! The kin entity: like the other two kinds but without the preview and
//! description fields; its rows store those two fields as empty text.

use vstd::prelude::*;

use crate::assets::Assets;
use crate::errors::DreamError;
use crate::ingest::{ingest, ingested_image, ingested_record, num_ok, Submission};
use crate::records::{
    has_id, ids_ascending, idx_of, merged_record, record_from, record_of, views_of, Db, NewRecord,
    NewRecordV, Record, RecordV,
};

verus! {

/// The mathematical value of one stored kin row.
pub ghost struct KinV {
    pub id: int,
    pub num: int,
    pub name: Seq<char>,
    pub image: Seq<char>,
}

/// The mathematical value of an ingested kin submission.
pub ghost struct NewKinV {
    pub num: int,
    pub name: Seq<char>,
    pub image: Seq<char>,
}

/// The kin-shaped value of a stored row: the two text fields the kind
/// lacks are dropped.
pub open spec fn kin_of(r: RecordV) -> KinV {
    KinV { id: r.id, num: r.num, name: r.name, image: r.image }
}

/// The row a new kin is stored as: its missing text fields are empty.
pub open spec fn kin_row(n: NewKinV) -> NewRecordV {
    NewRecordV {
        num: n.num,
        name: n.name,
        image: n.image,
        preview: Seq::<char>::empty(),
        description: Seq::<char>::empty(),
    }
}

/// The kin-shaped value of an ingested submission.
pub open spec fn kin_ingested(n: NewRecordV) -> NewKinV {
    NewKinV { num: n.num, name: n.name, image: n.image }
}

/// A fully ingested kin submission, not yet persisted.
#[derive(Debug)]
pub struct NewKin {
    pub num: i32,
    pub name: String,
    pub image: String,
}

impl View for NewKin {
    type V = NewKinV;

    open spec fn view(&self) -> NewKinV {
        NewKinV { num: self.num as int, name: self.name@, image: self.image@ }
    }
}

/// One stored kin row.
#[derive(Debug)]
pub struct Kin {
    pub id: i32,
    pub num: i32,
    pub name: String,
    pub image: String,
}

impl View for Kin {
    type V = KinV;

    open spec fn view(&self) -> KinV {
        KinV { id: self.id as int, num: self.num as int, name: self.name@, image: self.image@ }
    }
}

fn kin_record(new: NewKin) -> (r: NewRecord)
    ensures
        r@ == kin_row(new@),
{
    NewRecord {
        num: new.num,
        name: new.name,
        image: new.image,
        preview: String::new(),
        description: String::new(),
    }
}

fn kin_of_record(rec: Record) -> (k: Kin)
    ensures
        k@ == kin_of(rec@),
{
    Kin { id: rec.id, num: rec.num, name: rec.name, image: rec.image }
}

impl NewKin {
    /// Ingests one kin submission, saving an uploaded image under its
    /// derived name; a malformed numeric field is rejected with
    /// `BadRequest` and then nothing is written.
    pub fn from_submission(assets: &mut Assets, sub: &Submission, prefix: &String) -> (r: Result<
        NewKin,
        DreamError,
    >)
        requires
            old(assets).wf(),
            prefix@.len() > 0,
        ensures
            final(assets).wf(),
            !num_ok(*sub) ==> r == Err::<NewKin, DreamError>(DreamError::BadRequest)
                && final(assets)@ == old(assets)@,
            num_ok(*sub) ==> {
                &&& r is Ok
                &&& r->Ok_0@ == kin_ingested(ingested_record(*sub, prefix@))
                &&& (sub.submitted_image_name() is Some ==> ingested_image(*sub, prefix@).len()
                    > 0 && final(assets)@ == old(assets)@.insert(ingested_image(*sub, prefix@)))
                &&& (sub.submitted_image_name() is None ==> final(assets)@ == old(assets)@)
            },
    {
        match ingest(assets, sub, prefix) {
            Ok(n) => Ok(NewKin { num: n.num, name: n.name, image: n.image }),
            Err(e) => Err(e),
        }
    }
}

impl Kin {
    /// All kins, ordered by ascending id.
    pub fn all(db: &Db) -> (r: Vec<Kin>)
        requires
            db.wf(),
        ensures
            r@.len() == db.kins@.len(),
            forall|i: int| 0 <= i < r@.len() ==> (#[trigger] r@[i])@ == kin_of(db.kins@[i]),
            ids_ascending(db.kins@),
    {
        let recs = db.kins.all();
        let n = recs.len();
        let mut out: Vec<Kin> = Vec::new();
        let mut i: usize = 0;
        while i < n
            invariant
                n == recs@.len(),
                views_of(recs@) == db.kins@,
                0 <= i <= n,
                out@.len() == i,
                forall|k: int| 0 <= k < i ==> (#[trigger] out@[k])@ == kin_of(db.kins@[k]),
            decreases n - i,
        {
            proof {
                assert(views_of(recs@)[i as int] == recs@[i as int]@);
            }
            out.push(kin_of_record(recs[i].duplicate()));
            i += 1;
        }
        out
    }

    /// Looks one kin up by id; a missing id fails with `NotFound`.
    pub fn get(db: &Db, id: i32) -> (r: Result<Kin, DreamError>)
        requires
            db.wf(),
        ensures
            has_id(db.kins@, id as int) ==> r is Ok && r->Ok_0@ == kin_of(
                record_of(db.kins@, id as int),
            ),
            !has_id(db.kins@, id as int) ==> r == Err::<Kin, DreamError>(DreamError::NotFound),
    {
        match db.kins.get(id) {
            Ok(rec) => Ok(kin_of_record(rec)),
            Err(e) => Err(e),
        }
    }

    /// Persists a new kin under a freshly assigned id; the image file it
    /// references, if any, was already saved by ingestion.
    pub fn insert(db: &mut Db, new_kin: NewKin) -> (r: Result<Kin, DreamError>)
        requires
            old(db).wf(),
        ensures
            final(db).wf(),
            final(db).glyphs@ == old(db).glyphs@,
            final(db).tones@ == old(db).tones@,
            final(db).assets@ == old(db).assets@,
            old(db).kins.next_id() < i32::MAX as int ==> {
                &&& r is Ok
                &&& r->Ok_0@ == kin_of(record_from(kin_row(new_kin@), old(db).kins.next_id()))
                &&& final(db).kins@ == old(db).kins@.push(
                    record_from(kin_row(new_kin@), old(db).kins.next_id()),
                )
                &&& final(db).kins.next_id() == old(db).kins.next_id() + 1
            },
            old(db).kins.next_id() == i32::MAX as int ==> r == Err::<Kin, DreamError>(
                DreamError::InternalServerError,
            ) && final(db).kins@ == old(db).kins@,
    {
        match db.kins.insert(kin_record(new_kin)) {
            Ok(rec) => Ok(kin_of_record(rec)),
            Err(e) => Err(e),
        }
    }

    /// Replaces the kin with the given id under the merge policy: an
    /// empty submitted image keeps the old image and touches no file, a
    /// non-empty one replaces it and the old file is deleted.
    pub fn update(db: &mut Db, new_kin: NewKin, id: i32) -> (r: Result<Kin, DreamError>)
        requires
            old(db).wf(),
        ensures
            final(db).wf(),
            final(db).glyphs@ == old(db).glyphs@,
            final(db).tones@ == old(db).tones@,
            !has_id(old(db).kins@, id as int) ==> r == Err::<Kin, DreamError>(DreamError::NotFound)
                && final(db).kins@ == old(db).kins@ && final(db).assets@ == old(db).assets@,
            has_id(old(db).kins@, id as int) ==> {
                let old_rec = record_of(old(db).kins@, id as int);
                let m = merged_record(kin_row(new_kin@), id as int, old_rec.image);
                &&& r is Ok
                &&& r->Ok_0@ == kin_of(m)
                &&& final(db).kins@ == old(db).kins@.update(idx_of(old(db).kins@, id as int), m)
                &&& (new_kin@.image.len() == 0 ==> final(db).assets@ == old(db).assets@)
                &&& (new_kin@.image.len() > 0 ==> final(db).assets@ == old(db).assets@.remove(
                    old_rec.image,
                ))
            },
    {
        match db.kins.update(&mut db.assets, kin_record(new_kin), id) {
            Ok(rec) => Ok(kin_of_record(rec)),
            Err(e) => Err(e),
        }
    }

    /// Removes the kin with the given id and deletes its image file from
    /// the asset store (a no-op when it held none).
    pub fn delete(db: &mut Db, id: i32) -> (r: Result<Kin, DreamError>)
        requires
            old(db).wf(),
        ensures
            final(db).wf(),
            final(db).glyphs@ == old(db).glyphs@,
            final(db).tones@ == old(db).tones@,
            !has_id(old(db).kins@, id as int) ==> r == Err::<Kin, DreamError>(DreamError::NotFound)
                && final(db).kins@ == old(db).kins@ && final(db).assets@ == old(db).assets@,
            has_id(old(db).kins@, id as int) ==> {
                &&& r is Ok
                &&& r->Ok_0@ == kin_of(record_of(old(db).kins@, id as int))
                &&& final(db).kins@ == old(db).kins@.remove(idx_of(old(db).kins@, id as int))
                &&& !has_id(final(db).kins@, id as int)
                &&& final(db).assets@ == old(db).assets@.remove(
                    record_of(old(db).kins@, id as int).image,
                )
            },
    {
        match db.kins.delete(&mut db.assets, id) {
            Ok(rec) => Ok(kin_of_record(rec)),
            Err(e) => Err(e),
        }
    }
}

} // verus!
