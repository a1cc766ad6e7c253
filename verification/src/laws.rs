//! The lifecycle laws, stated over the same spec-level values the
//! repository contracts pin the final states to: `rows.push(..)`,
//! `rows.update(..)`, `rows.remove(..)` for the table and
//! `assets.insert(..)`, `assets.remove(..)` for the asset store. Each
//! law therefore speaks about every state the verified operations can
//! produce. That a lookup, update or delete of an absent id fails with
//! `NotFound` and nothing else is not restated here: it is the literal
//! ensures of `get`, `update` and `delete`, as is the fact that an
//! update without a new image deletes no file.

use vstd::prelude::*;

use crate::ingest::{ingested_image, ingested_record, Submission};
use crate::records::{
    has_id, ids_ascending, ids_below, idx_of, lemma_ascending_remove, lemma_ascending_unique,
    lemma_ascending_update, merged_record, record_from, record_of, NewRecordV, RecordV,
};

verus! {

/// Appending a freshly assigned id keeps the ids ascending.
pub proof fn lemma_ascending_push(rows: Seq<RecordV>, r: RecordV)
    requires
        ids_ascending(rows),
        ids_below(rows, r.id),
    ensures
        ids_ascending(rows.push(r)),
        ids_below(rows.push(r), r.id + 1),
{
    let t = rows.push(r);
    assert forall|i: int, j: int| 0 <= i < j < t.len() implies t[i].id < t[j].id by {
        if j < rows.len() {
            assert(rows[i].id < rows[j].id);
        } else {
            assert(rows[i].id < r.id);
        }
    };
}

/// After a create whose submission carried an uploaded image, the stored
/// record holds a non-empty image name and the asset store holds that
/// file: the states named here are exactly the ones ingestion followed
/// by insertion leaves behind.
pub proof fn law_create_stores_image(
    rows: Seq<RecordV>,
    assets: Set<Seq<char>>,
    sub: Submission,
    prefix: Seq<char>,
    id: int,
)
    requires
        ids_ascending(rows),
        ids_below(rows, id),
        prefix.len() > 0,
        sub.submitted_image_name() is Some,
    ensures
        ({
            let n = ingested_record(sub, prefix);
            let rows2 = rows.push(record_from(n, id));
            let assets2 = assets.insert(ingested_image(sub, prefix));
            &&& has_id(rows2, id)
            &&& record_of(rows2, id) == record_from(n, id)
            &&& record_of(rows2, id).image.len() > 0
            &&& assets2.contains(record_of(rows2, id).image)
        }),
{
    let n = ingested_record(sub, prefix);
    let rows2 = rows.push(record_from(n, id));
    lemma_ascending_push(rows, record_from(n, id));
    assert(rows2[rows.len() as int].id == id);
    lemma_ascending_unique(rows2, id);
    assert(idx_of(rows2, id) == rows.len() as int);
}

/// An update that submits no replacement image leaves the stored image
/// name exactly as it was.
pub proof fn law_update_keeps_image(rows: Seq<RecordV>, n: NewRecordV, id: int)
    requires
        ids_ascending(rows),
        has_id(rows, id),
        n.image.len() == 0,
    ensures
        ({
            let m = merged_record(n, id, record_of(rows, id).image);
            let rows2 = rows.update(idx_of(rows, id), m);
            &&& has_id(rows2, id)
            &&& record_of(rows2, id) == m
            &&& record_of(rows2, id).image == record_of(rows, id).image
        }),
{
    lemma_ascending_unique(rows, id);
    let k = idx_of(rows, id);
    let m = merged_record(n, id, record_of(rows, id).image);
    lemma_ascending_update(rows, k, m);
    let rows2 = rows.update(k, m);
    assert(rows2[k].id == id);
    lemma_ascending_unique(rows2, id);
    assert(idx_of(rows2, id) == k);
}

/// An update that submits a new image stores the new name, the replaced
/// file leaves the asset store, and the new file stays in it.
pub proof fn law_update_replaces_image(
    rows: Seq<RecordV>,
    assets: Set<Seq<char>>,
    n: NewRecordV,
    id: int,
)
    requires
        ids_ascending(rows),
        has_id(rows, id),
        n.image.len() > 0,
        assets.contains(n.image),
        n.image != record_of(rows, id).image,
    ensures
        ({
            let old_img = record_of(rows, id).image;
            let m = merged_record(n, id, old_img);
            let rows2 = rows.update(idx_of(rows, id), m);
            let assets2 = assets.remove(old_img);
            &&& has_id(rows2, id)
            &&& record_of(rows2, id).image == n.image
            &&& !assets2.contains(old_img)
            &&& assets2.contains(n.image)
        }),
{
    lemma_ascending_unique(rows, id);
    let k = idx_of(rows, id);
    let m = merged_record(n, id, record_of(rows, id).image);
    lemma_ascending_update(rows, k, m);
    let rows2 = rows.update(k, m);
    assert(rows2[k].id == id);
    lemma_ascending_unique(rows2, id);
    assert(idx_of(rows2, id) == k);
}

/// A delete removes the row, so a later lookup of the id finds nothing,
/// and the row's image file leaves the asset store; a row without an
/// image causes no file change at all, since the empty name is never
/// stored.
pub proof fn law_delete_removes(
    rows: Seq<RecordV>,
    assets: Set<Seq<char>>,
    id: int,
    bound: int,
)
    requires
        ids_ascending(rows),
        ids_below(rows, bound),
        has_id(rows, id),
        !assets.contains(Seq::<char>::empty()),
    ensures
        ({
            let rows2 = rows.remove(idx_of(rows, id));
            let assets2 = assets.remove(record_of(rows, id).image);
            &&& !has_id(rows2, id)
            &&& !assets2.contains(record_of(rows, id).image)
            &&& (record_of(rows, id).image.len() == 0 ==> assets2 == assets)
        }),
{
    lemma_ascending_unique(rows, id);
    let k = idx_of(rows, id);
    lemma_ascending_remove(rows, k, bound);
    if record_of(rows, id).image.len() == 0 {
        assert(record_of(rows, id).image =~= Seq::<char>::empty());
        assert(assets.remove(record_of(rows, id).image) =~= assets);
    }
}

/// Submitting the same "no new image" edit twice is idempotent: the
/// second update writes exactly the row the first one wrote and keeps
/// the same image name, and (by the update contract) neither update
/// touches any file.
pub proof fn law_update_idempotent(rows: Seq<RecordV>, n: NewRecordV, id: int)
    requires
        ids_ascending(rows),
        has_id(rows, id),
        n.image.len() == 0,
    ensures
        ({
            let m1 = merged_record(n, id, record_of(rows, id).image);
            let rows1 = rows.update(idx_of(rows, id), m1);
            let m2 = merged_record(n, id, record_of(rows1, id).image);
            let rows2 = rows1.update(idx_of(rows1, id), m2);
            &&& rows2 == rows1
            &&& record_of(rows2, id).image == record_of(rows, id).image
        }),
{
    law_update_keeps_image(rows, n, id);
    let m1 = merged_record(n, id, record_of(rows, id).image);
    let k = idx_of(rows, id);
    lemma_ascending_unique(rows, id);
    let rows1 = rows.update(k, m1);
    lemma_ascending_update(rows, k, m1);
    assert(rows1[k].id == id);
    lemma_ascending_unique(rows1, id);
    assert(idx_of(rows1, id) == k);
    let m2 = merged_record(n, id, record_of(rows1, id).image);
    assert(m2 == m1);
    let rows2 = rows1.update(k, m2);
    assert(rows2 =~= rows1);
    lemma_ascending_update(rows1, k, m2);
    assert(record_of(rows2, id) == m1);
}

} // verus!
