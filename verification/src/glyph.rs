//! The glyph entity: its typed submission outcome, its stored record,
//! and its repository operations against the shared store.

use vstd::prelude::*;

use crate::assets::Assets;
use crate::errors::DreamError;
use crate::ingest::{ingest, ingested_image, ingested_record, num_ok, Submission};
use crate::records::{
    has_id, ids_ascending, idx_of, merged_record, record_from, record_of, views_of, Db, NewRecord,
    NewRecordV, Record, RecordV,
};

verus! {

/// A fully ingested glyph submission, not yet persisted.
#[derive(Debug)]
pub struct NewGlyph {
    pub num: i32,
    pub name: String,
    pub image: String,
    pub preview: String,
    pub description: String,
}

impl View for NewGlyph {
    type V = NewRecordV;

    open spec fn view(&self) -> NewRecordV {
        NewRecordV {
            num: self.num as int,
            name: self.name@,
            image: self.image@,
            preview: self.preview@,
            description: self.description@,
        }
    }
}

/// One stored glyph row.
#[derive(Debug)]
pub struct Glyph {
    pub id: i32,
    pub num: i32,
    pub name: String,
    pub image: String,
    pub preview: String,
    pub description: String,
}

impl View for Glyph {
    type V = RecordV;

    open spec fn view(&self) -> RecordV {
        RecordV {
            id: self.id as int,
            num: self.num as int,
            name: self.name@,
            image: self.image@,
            preview: self.preview@,
            description: self.description@,
        }
    }
}

pub open spec fn glyph_views(s: Seq<Glyph>) -> Seq<RecordV> {
    s.map_values(|g: Glyph| g@)
}

fn glyph_record(new: NewGlyph) -> (r: NewRecord)
    ensures
        r@ == new@,
{
    NewRecord {
        num: new.num,
        name: new.name,
        image: new.image,
        preview: new.preview,
        description: new.description,
    }
}

fn glyph_of(rec: Record) -> (g: Glyph)
    ensures
        g@ == rec@,
{
    Glyph {
        id: rec.id,
        num: rec.num,
        name: rec.name,
        image: rec.image,
        preview: rec.preview,
        description: rec.description,
    }
}

impl NewGlyph {
    /// Ingests one glyph submission, saving an uploaded image under its
    /// derived name; a malformed numeric field is rejected with
    /// `BadRequest` and then nothing is written.
    pub fn from_submission(assets: &mut Assets, sub: &Submission, prefix: &String) -> (r: Result<
        NewGlyph,
        DreamError,
    >)
        requires
            old(assets).wf(),
            prefix@.len() > 0,
        ensures
            final(assets).wf(),
            !num_ok(*sub) ==> r == Err::<NewGlyph, DreamError>(DreamError::BadRequest)
                && final(assets)@ == old(assets)@,
            num_ok(*sub) ==> {
                &&& r is Ok
                &&& r->Ok_0@ == ingested_record(*sub, prefix@)
                &&& (sub.submitted_image_name() is Some ==> ingested_image(*sub, prefix@).len()
                    > 0 && final(assets)@ == old(assets)@.insert(ingested_image(*sub, prefix@)))
                &&& (sub.submitted_image_name() is None ==> final(assets)@ == old(assets)@)
            },
    {
        match ingest(assets, sub, prefix) {
            Ok(n) => Ok(
                NewGlyph {
                    num: n.num,
                    name: n.name,
                    image: n.image,
                    preview: n.preview,
                    description: n.description,
                },
            ),
            Err(e) => Err(e),
        }
    }
}

impl Glyph {
    /// All glyphs, ordered by ascending id.
    pub fn all(db: &Db) -> (r: Vec<Glyph>)
        requires
            db.wf(),
        ensures
            glyph_views(r@) == db.glyphs@,
            ids_ascending(db.glyphs@),
    {
        let recs = db.glyphs.all();
        let n = recs.len();
        let mut out: Vec<Glyph> = Vec::new();
        let mut i: usize = 0;
        while i < n
            invariant
                n == recs@.len(),
                views_of(recs@) == db.glyphs@,
                0 <= i <= n,
                out@.len() == i,
                forall|k: int| 0 <= k < i ==> (#[trigger] out@[k])@ == db.glyphs@[k],
            decreases n - i,
        {
            proof {
                assert(views_of(recs@)[i as int] == recs@[i as int]@);
            }
            out.push(glyph_of(recs[i].duplicate()));
            i += 1;
        }
        proof {
            assert(glyph_views(out@) =~= db.glyphs@);
        }
        out
    }

    /// Looks one glyph up by id; a missing id fails with `NotFound`.
    pub fn get(db: &Db, id: i32) -> (r: Result<Glyph, DreamError>)
        requires
            db.wf(),
        ensures
            has_id(db.glyphs@, id as int) ==> r is Ok && r->Ok_0@ == record_of(
                db.glyphs@,
                id as int,
            ),
            !has_id(db.glyphs@, id as int) ==> r == Err::<Glyph, DreamError>(DreamError::NotFound),
    {
        match db.glyphs.get(id) {
            Ok(rec) => Ok(glyph_of(rec)),
            Err(e) => Err(e),
        }
    }

    /// Persists a new glyph under a freshly assigned id; the image file
    /// it references, if any, was already saved by ingestion.
    pub fn insert(db: &mut Db, new_glyph: NewGlyph) -> (r: Result<Glyph, DreamError>)
        requires
            old(db).wf(),
        ensures
            final(db).wf(),
            final(db).tones@ == old(db).tones@,
            final(db).kins@ == old(db).kins@,
            final(db).assets@ == old(db).assets@,
            old(db).glyphs.next_id() < i32::MAX as int ==> {
                &&& r is Ok
                &&& r->Ok_0@ == record_from(new_glyph@, old(db).glyphs.next_id())
                &&& final(db).glyphs@ == old(db).glyphs@.push(
                    record_from(new_glyph@, old(db).glyphs.next_id()),
                )
                &&& final(db).glyphs.next_id() == old(db).glyphs.next_id() + 1
            },
            old(db).glyphs.next_id() == i32::MAX as int ==> r == Err::<Glyph, DreamError>(
                DreamError::InternalServerError,
            ) && final(db).glyphs@ == old(db).glyphs@,
    {
        match db.glyphs.insert(glyph_record(new_glyph)) {
            Ok(rec) => Ok(glyph_of(rec)),
            Err(e) => Err(e),
        }
    }

    /// Replaces the glyph with the given id under the merge policy: an
    /// empty submitted image keeps the old image and touches no file, a
    /// non-empty one replaces it and the old file is deleted.
    pub fn update(db: &mut Db, new_glyph: NewGlyph, id: i32) -> (r: Result<Glyph, DreamError>)
        requires
            old(db).wf(),
        ensures
            final(db).wf(),
            final(db).tones@ == old(db).tones@,
            final(db).kins@ == old(db).kins@,
            !has_id(old(db).glyphs@, id as int) ==> r == Err::<Glyph, DreamError>(
                DreamError::NotFound,
            ) && final(db).glyphs@ == old(db).glyphs@ && final(db).assets@ == old(db).assets@,
            has_id(old(db).glyphs@, id as int) ==> {
                let old_rec = record_of(old(db).glyphs@, id as int);
                let m = merged_record(new_glyph@, id as int, old_rec.image);
                &&& r is Ok
                &&& r->Ok_0@ == m
                &&& final(db).glyphs@ == old(db).glyphs@.update(
                    idx_of(old(db).glyphs@, id as int),
                    m,
                )
                &&& (new_glyph@.image.len() == 0 ==> final(db).assets@ == old(db).assets@)
                &&& (new_glyph@.image.len() > 0 ==> final(db).assets@ == old(db).assets@.remove(
                    old_rec.image,
                ))
            },
    {
        match db.glyphs.update(&mut db.assets, glyph_record(new_glyph), id) {
            Ok(rec) => Ok(glyph_of(rec)),
            Err(e) => Err(e),
        }
    }

    /// Removes the glyph with the given id and deletes its image file
    /// from the asset store (a no-op when it held none).
    pub fn delete(db: &mut Db, id: i32) -> (r: Result<Glyph, DreamError>)
        requires
            old(db).wf(),
        ensures
            final(db).wf(),
            final(db).tones@ == old(db).tones@,
            final(db).kins@ == old(db).kins@,
            !has_id(old(db).glyphs@, id as int) ==> r == Err::<Glyph, DreamError>(
                DreamError::NotFound,
            ) && final(db).glyphs@ == old(db).glyphs@ && final(db).assets@ == old(db).assets@,
            has_id(old(db).glyphs@, id as int) ==> {
                &&& r is Ok
                &&& r->Ok_0@ == record_of(old(db).glyphs@, id as int)
                &&& final(db).glyphs@ == old(db).glyphs@.remove(idx_of(old(db).glyphs@, id as int))
                &&& !has_id(final(db).glyphs@, id as int)
                &&& final(db).assets@ == old(db).assets@.remove(
                    record_of(old(db).glyphs@, id as int).image,
                )
            },
    {
        match db.glyphs.delete(&mut db.assets, id) {
            Ok(rec) => Ok(glyph_of(rec)),
            Err(e) => Err(e),
        }
    }
}

} // verus!
