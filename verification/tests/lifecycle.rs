use dreamspell::errors::DreamError;
use dreamspell::glyph::{Glyph, NewGlyph};
use dreamspell::ingest::{FileUpload, Submission};
use dreamspell::kin::{Kin, NewKin};
use dreamspell::records::Db;
use dreamspell::tone::{NewTone, Tone};

fn kin_submission(num: &str, name: &str, image: Option<&str>) -> Submission {
    Submission {
        image: image.map(|orig| FileUpload {
            file_name: Some(orig.to_string()),
            temp_path: "/tmp/upload".to_string(),
        }),
        num: Some(num.to_string()),
        name: Some(name.to_string()),
        preview: None,
        description: None,
    }
}

#[test]
fn empty_store_lists_nothing() {
    let db = Db::new();
    assert!(Glyph::all(&db).is_empty());
    assert!(Tone::all(&db).is_empty());
    assert!(Kin::all(&db).is_empty());
}

#[test]
fn get_on_missing_id_is_not_found() {
    let db = Db::new();
    assert_eq!(Glyph::get(&db, 7).unwrap_err(), DreamError::NotFound);
    assert_eq!(Tone::get(&db, 7).unwrap_err(), DreamError::NotFound);
    assert_eq!(Kin::get(&db, 7).unwrap_err(), DreamError::NotFound);
}

#[test]
fn update_on_missing_id_is_not_found() {
    let mut db = Db::new();
    let new_kin = NewKin {
        num: 1,
        name: "Imix".to_string(),
        image: String::new(),
    };
    assert_eq!(Kin::update(&mut db, new_kin, 99).unwrap_err(), DreamError::NotFound);
}

#[test]
fn delete_on_missing_id_is_not_found() {
    let mut db = Db::new();
    assert_eq!(Kin::delete(&mut db, 99).unwrap_err(), DreamError::NotFound);
    assert_eq!(Glyph::delete(&mut db, 1).unwrap_err(), DreamError::NotFound);
}

#[test]
fn insert_assigns_ascending_ids_per_kind() {
    let mut db = Db::new();
    let g = Glyph::insert(
        &mut db,
        NewGlyph {
            num: 5,
            name: "a".to_string(),
            image: String::new(),
            preview: "p".to_string(),
            description: "d".to_string(),
        },
    )
    .unwrap();
    let t = Tone::insert(
        &mut db,
        NewTone {
            num: 6,
            name: "b".to_string(),
            image: String::new(),
            preview: String::new(),
            description: String::new(),
        },
    )
    .unwrap();
    let k = Kin::insert(
        &mut db,
        NewKin {
            num: 7,
            name: "c".to_string(),
            image: String::new(),
        },
    )
    .unwrap();
    assert_eq!(g.id, 1);
    assert_eq!(t.id, 1);
    assert_eq!(k.id, 1);
    let k2 = Kin::insert(
        &mut db,
        NewKin {
            num: 8,
            name: "e".to_string(),
            image: String::new(),
        },
    )
    .unwrap();
    assert_eq!(k2.id, 2);
}

#[test]
fn list_is_ordered_by_id_not_by_num_or_insertion() {
    let mut db = Db::new();
    for (num, name) in [(30, "x"), (10, "y"), (20, "z")] {
        Kin::insert(
            &mut db,
            NewKin {
                num,
                name: name.to_string(),
                image: String::new(),
            },
        )
        .unwrap();
    }
    // remove the middle row and add one more, so ids are no longer contiguous
    Kin::delete(&mut db, 2).unwrap();
    Kin::insert(
        &mut db,
        NewKin {
            num: 1,
            name: "w".to_string(),
            image: String::new(),
        },
    )
    .unwrap();
    let all = Kin::all(&db);
    let ids: Vec<i32> = all.iter().map(|k| k.id).collect();
    assert_eq!(ids, vec![1, 3, 4]);
    let nums: Vec<i32> = all.iter().map(|k| k.num).collect();
    assert_eq!(nums, vec![30, 20, 1]);
}

#[test]
fn glyph_round_trip_keeps_all_fields() {
    let mut db = Db::new();
    let g = Glyph::insert(
        &mut db,
        NewGlyph {
            num: 3,
            name: "Night".to_string(),
            image: "stored-night.png".to_string(),
            preview: "short".to_string(),
            description: "a longer text".to_string(),
        },
    )
    .unwrap();
    let got = Glyph::get(&db, g.id).unwrap();
    assert_eq!(got.id, g.id);
    assert_eq!(got.num, 3);
    assert_eq!(got.name, "Night");
    assert_eq!(got.image, "stored-night.png");
    assert_eq!(got.preview, "short");
    assert_eq!(got.description, "a longer text");
}

#[test]
fn update_with_empty_image_keeps_old_image_and_files() {
    let mut db = Db::new();
    let stored = "171-first.png".to_string();
    db.assets.save(&stored);
    let g = Glyph::insert(
        &mut db,
        NewGlyph {
            num: 1,
            name: "a".to_string(),
            image: stored.clone(),
            preview: String::new(),
            description: String::new(),
        },
    )
    .unwrap();
    let updated = Glyph::update(
        &mut db,
        NewGlyph {
            num: 2,
            name: "b".to_string(),
            image: String::new(),
            preview: "q".to_string(),
            description: String::new(),
        },
        g.id,
    )
    .unwrap();
    assert_eq!(updated.image, stored);
    assert_eq!(updated.num, 2);
    assert_eq!(updated.name, "b");
    assert_eq!(updated.preview, "q");
    assert!(db.assets.contains(&stored));
    let got = Glyph::get(&db, g.id).unwrap();
    assert_eq!(got.image, stored);
}

#[test]
fn update_with_new_image_replaces_row_and_file() {
    let mut db = Db::new();
    let first = "171-first.png".to_string();
    let second = "172-second.png".to_string();
    db.assets.save(&first);
    let g = Glyph::insert(
        &mut db,
        NewGlyph {
            num: 1,
            name: "a".to_string(),
            image: first.clone(),
            preview: String::new(),
            description: String::new(),
        },
    )
    .unwrap();
    db.assets.save(&second);
    let updated = Glyph::update(
        &mut db,
        NewGlyph {
            num: 1,
            name: "a".to_string(),
            image: second.clone(),
            preview: String::new(),
            description: String::new(),
        },
        g.id,
    )
    .unwrap();
    assert_eq!(updated.image, second);
    assert!(!db.assets.contains(&first));
    assert!(db.assets.contains(&second));
    assert_eq!(Glyph::get(&db, g.id).unwrap().image, second);
}

#[test]
fn repeated_edit_without_new_image_is_idempotent() {
    let mut db = Db::new();
    let stored = "171-kin.png".to_string();
    db.assets.save(&stored);
    let k = Kin::insert(
        &mut db,
        NewKin {
            num: 1,
            name: "Imix".to_string(),
            image: stored.clone(),
        },
    )
    .unwrap();
    let once = Kin::update(
        &mut db,
        NewKin {
            num: 1,
            name: "Imix".to_string(),
            image: String::new(),
        },
        k.id,
    )
    .unwrap();
    let twice = Kin::update(
        &mut db,
        NewKin {
            num: 1,
            name: "Imix".to_string(),
            image: String::new(),
        },
        k.id,
    )
    .unwrap();
    assert_eq!(once.image, twice.image);
    assert_eq!(once.image, stored);
    assert!(db.assets.contains(&stored));
}

#[test]
fn kin_scenario_create_with_image() {
    let mut db = Db::new();
    let sub = kin_submission("1", "Imix", Some("imix.png"));
    let prefix = "1700000000000".to_string();
    let new_kin = NewKin::from_submission(&mut db.assets, &sub, &prefix).unwrap();
    assert_eq!(new_kin.image, "1700000000000-imix.png");
    assert_ne!(new_kin.image, "imix.png");
    let stored = new_kin.image.clone();
    assert!(db.assets.contains(&stored));
    let kin = Kin::insert(&mut db, new_kin).unwrap();
    assert_eq!(kin.num, 1);
    assert_eq!(kin.name, "Imix");
    let got = Kin::get(&db, kin.id).unwrap();
    assert!(!got.image.is_empty());
    assert_eq!(got.image, stored);
    assert!(db.assets.contains(&got.image));
}

#[test]
fn kin_scenario_edit_without_new_image() {
    let mut db = Db::new();
    let create = kin_submission("1", "Imix", Some("imix.png"));
    let prefix = "1700000000000".to_string();
    let new_kin = NewKin::from_submission(&mut db.assets, &create, &prefix).unwrap();
    let stored = new_kin.image.clone();
    let kin = Kin::insert(&mut db, new_kin).unwrap();

    // the edit form resubmits with an empty image file name
    let edit = Submission {
        image: Some(FileUpload {
            file_name: Some(String::new()),
            temp_path: String::new(),
        }),
        num: Some("1".to_string()),
        name: Some("Imix Prime".to_string()),
        preview: None,
        description: None,
    };
    let resub = NewKin::from_submission(&mut db.assets, &edit, &prefix).unwrap();
    assert!(resub.image.is_empty());
    let updated = Kin::update(&mut db, resub, kin.id).unwrap();
    assert_eq!(updated.image, stored);
    assert_eq!(updated.name, "Imix Prime");
    assert!(db.assets.contains(&stored));
}

#[test]
fn kin_scenario_edit_with_new_image() {
    let mut db = Db::new();
    let create = kin_submission("1", "Imix", Some("imix.png"));
    let new_kin =
        NewKin::from_submission(&mut db.assets, &create, &"1700000000000".to_string()).unwrap();
    let first = new_kin.image.clone();
    let kin = Kin::insert(&mut db, new_kin).unwrap();

    let edit = kin_submission("1", "Imix", Some("imix2.png"));
    let resub =
        NewKin::from_submission(&mut db.assets, &edit, &"1700000000001".to_string()).unwrap();
    let second = resub.image.clone();
    assert_eq!(second, "1700000000001-imix2.png");
    let updated = Kin::update(&mut db, resub, kin.id).unwrap();
    assert_eq!(updated.image, second);
    assert!(!db.assets.contains(&first));
    assert!(db.assets.contains(&second));
    assert_eq!(Kin::get(&db, kin.id).unwrap().image, second);
}

#[test]
fn kin_scenario_delete_removes_row_and_file() {
    let mut db = Db::new();
    let create = kin_submission("1", "Imix", Some("imix.png"));
    let new_kin =
        NewKin::from_submission(&mut db.assets, &create, &"1700000000000".to_string()).unwrap();
    let stored = new_kin.image.clone();
    let kin = Kin::insert(&mut db, new_kin).unwrap();
    let removed = Kin::delete(&mut db, kin.id).unwrap();
    assert_eq!(removed.id, kin.id);
    assert_eq!(Kin::get(&db, kin.id).unwrap_err(), DreamError::NotFound);
    assert!(!db.assets.contains(&stored));
    assert!(Kin::all(&db).is_empty());
}

#[test]
fn delete_of_record_without_image_touches_no_file() {
    let mut db = Db::new();
    let other = "171-other.png".to_string();
    db.assets.save(&other);
    let k = Kin::insert(
        &mut db,
        NewKin {
            num: 1,
            name: "bare".to_string(),
            image: String::new(),
        },
    )
    .unwrap();
    Kin::delete(&mut db, k.id).unwrap();
    assert!(db.assets.contains(&other));
}
