//! The tone entity: its typed submission outcome, its stored record,
//! and its repository operations against the shared store.

use vstd::prelude::*;

use crate::assets::Assets;
use crate::errors::DreamError;
use crate::ingest::{ingest, ingested_image, ingested_record, num_ok, Submission};
use crate::records::{
    has_id, ids_ascending, idx_of, merged_record, record_from, record_of, views_of, Db, NewRecord,
    NewRecordV, Record, RecordV,
};

verus! {

/// A fully ingested tone submission, not yet persisted.
#[derive(Debug)]
pub struct NewTone {
    pub num: i32,
    pub name: String,
    pub image: String,
    pub preview: String,
    pub description: String,
}

impl View for NewTone {
    type V = NewRecordV;

    open spec fn view(&self) -> NewRecordV {
        NewRecordV {
            num: self.num as int,
            name: self.name@,
            image: self.image@,
            preview: self.preview@,
            description: self.description@,
        }
    }
}

/// One stored tone row.
#[derive(Debug)]
pub struct Tone {
    pub id: i32,
    pub num: i32,
    pub name: String,
    pub image: String,
    pub preview: String,
    pub description: String,
}

impl View for Tone {
    type V = RecordV;

    open spec fn view(&self) -> RecordV {
        RecordV {
            id: self.id as int,
            num: self.num as int,
            name: self.name@,
            image: self.image@,
            preview: self.preview@,
            description: self.description@,
        }
    }
}

pub open spec fn tone_views(s: Seq<Tone>) -> Seq<RecordV> {
    s.map_values(|g: Tone| g@)
}

fn tone_record(new: NewTone) -> (r: NewRecord)
    ensures
        r@ == new@,
{
    NewRecord {
        num: new.num,
        name: new.name,
        image: new.image,
        preview: new.preview,
        description: new.description,
    }
}

fn tone_of(rec: Record) -> (g: Tone)
    ensures
        g@ == rec@,
{
    Tone {
        id: rec.id,
        num: rec.num,
        name: rec.name,
        image: rec.image,
        preview: rec.preview,
        description: rec.description,
    }
}

impl NewTone {
    /// Ingests one tone submission, saving an uploaded image under its
    /// derived name; a malformed numeric field is rejected with
    /// `BadRequest` and then nothing is written.
    pub fn from_submission(assets: &mut Assets, sub: &Submission, prefix: &String) -> (r: Result<
        NewTone,
        DreamError,
    >)
        requires
            old(assets).wf(),
            prefix@.len() > 0,
        ensures
            final(assets).wf(),
            !num_ok(*sub) ==> r == Err::<NewTone, DreamError>(DreamError::BadRequest)
                && final(assets)@ == old(assets)@,
            num_ok(*sub) ==> {
                &&& r is Ok
                &&& r->Ok_0@ == ingested_record(*sub, prefix@)
                &&& (sub.submitted_image_name() is Some ==> ingested_image(*sub, prefix@).len()
                    > 0 && final(assets)@ == old(assets)@.insert(ingested_image(*sub, prefix@)))
                &&& (sub.submitted_image_name() is None ==> final(assets)@ == old(assets)@)
            },
    {
        match ingest(assets, sub, prefix) {
            Ok(n) => Ok(
                NewTone {
                    num: n.num,
                    name: n.name,
                    image: n.image,
                    preview: n.preview,
                    description: n.description,
                },
            ),
            Err(e) => Err(e),
        }
    }
}

impl Tone {
    /// All tones, ordered by ascending id.
    pub fn all(db: &Db) -> (r: Vec<Tone>)
        requires
            db.wf(),
        ensures
            tone_views(r@) == db.tones@,
            ids_ascending(db.tones@),
    {
        let recs = db.tones.all();
        let n = recs.len();
        let mut out: Vec<Tone> = Vec::new();
        let mut i: usize = 0;
        while i < n
            invariant
                n == recs@.len(),
                views_of(recs@) == db.tones@,
                0 <= i <= n,
                out@.len() == i,
                forall|k: int| 0 <= k < i ==> (#[trigger] out@[k])@ == db.tones@[k],
            decreases n - i,
        {
            proof {
                assert(views_of(recs@)[i as int] == recs@[i as int]@);
            }
            out.push(tone_of(recs[i].duplicate()));
            i += 1;
        }
        proof {
            assert(tone_views(out@) =~= db.tones@);
        }
        out
    }

    /// Looks one tone up by id; a missing id fails with `NotFound`.
    pub fn get(db: &Db, id: i32) -> (r: Result<Tone, DreamError>)
        requires
            db.wf(),
        ensures
            has_id(db.tones@, id as int) ==> r is Ok && r->Ok_0@ == record_of(
                db.tones@,
                id as int,
            ),
            !has_id(db.tones@, id as int) ==> r == Err::<Tone, DreamError>(DreamError::NotFound),
    {
        match db.tones.get(id) {
            Ok(rec) => Ok(tone_of(rec)),
            Err(e) => Err(e),
        }
    }

    /// Persists a new tone under a freshly assigned id; the image file
    /// it references, if any, was already saved by ingestion.
    pub fn insert(db: &mut Db, new_tone: NewTone) -> (r: Result<Tone, DreamError>)
        requires
            old(db).wf(),
        ensures
            final(db).wf(),
            final(db).glyphs@ == old(db).glyphs@,
            final(db).kins@ == old(db).kins@,
            final(db).assets@ == old(db).assets@,
            old(db).tones.next_id() < i32::MAX as int ==> {
                &&& r is Ok
                &&& r->Ok_0@ == record_from(new_tone@, old(db).tones.next_id())
                &&& final(db).tones@ == old(db).tones@.push(
                    record_from(new_tone@, old(db).tones.next_id()),
                )
                &&& final(db).tones.next_id() == old(db).tones.next_id() + 1
            },
            old(db).tones.next_id() == i32::MAX as int ==> r == Err::<Tone, DreamError>(
                DreamError::InternalServerError,
            ) && final(db).tones@ == old(db).tones@,
    {
        match db.tones.insert(tone_record(new_tone)) {
            Ok(rec) => Ok(tone_of(rec)),
            Err(e) => Err(e),
        }
    }

    /// Replaces the tone with the given id under the merge policy: an
    /// empty submitted image keeps the old image and touches no file, a
    /// non-empty one replaces it and the old file is deleted.
    pub fn update(db: &mut Db, new_tone: NewTone, id: i32) -> (r: Result<Tone, DreamError>)
        requires
            old(db).wf(),
        ensures
            final(db).wf(),
            final(db).glyphs@ == old(db).glyphs@,
            final(db).kins@ == old(db).kins@,
            !has_id(old(db).tones@, id as int) ==> r == Err::<Tone, DreamError>(
                DreamError::NotFound,
            ) && final(db).tones@ == old(db).tones@ && final(db).assets@ == old(db).assets@,
            has_id(old(db).tones@, id as int) ==> {
                let old_rec = record_of(old(db).tones@, id as int);
                let m = merged_record(new_tone@, id as int, old_rec.image);
                &&& r is Ok
                &&& r->Ok_0@ == m
                &&& final(db).tones@ == old(db).tones@.update(
                    idx_of(old(db).tones@, id as int),
                    m,
                )
                &&& (new_tone@.image.len() == 0 ==> final(db).assets@ == old(db).assets@)
                &&& (new_tone@.image.len() > 0 ==> final(db).assets@ == old(db).assets@.remove(
                    old_rec.image,
                ))
            },
    {
        match db.tones.update(&mut db.assets, tone_record(new_tone), id) {
            Ok(rec) => Ok(tone_of(rec)),
            Err(e) => Err(e),
        }
    }

    /// Removes the tone with the given id and deletes its image file
    /// from the asset store (a no-op when it held none).
    pub fn delete(db: &mut Db, id: i32) -> (r: Result<Tone, DreamError>)
        requires
            old(db).wf(),
        ensures
            final(db).wf(),
            final(db).glyphs@ == old(db).glyphs@,
            final(db).kins@ == old(db).kins@,
            !has_id(old(db).tones@, id as int) ==> r == Err::<Tone, DreamError>(
                DreamError::NotFound,
            ) && final(db).tones@ == old(db).tones@ && final(db).assets@ == old(db).assets@,
            has_id(old(db).tones@, id as int) ==> {
                &&& r is Ok
                &&& r->Ok_0@ == record_of(old(db).tones@, id as int)
                &&& final(db).tones@ == old(db).tones@.remove(idx_of(old(db).tones@, id as int))
                &&& !has_id(final(db).tones@, id as int)
                &&& final(db).assets@ == old(db).assets@.remove(
                    record_of(old(db).tones@, id as int).image,
                )
            },
    {
        match db.tones.delete(&mut db.assets, id) {
            Ok(rec) => Ok(tone_of(rec)),
            Err(e) => Err(e),
        }
    }
}

} // verus!
