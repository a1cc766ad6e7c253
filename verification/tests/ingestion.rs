use dreamspell::assets::{file_name_with_prefix, name_with_prefix, u64_to_string, Assets};
use dreamspell::errors::DreamError;
use dreamspell::glyph::NewGlyph;
use dreamspell::ingest::{parse_i32, FileUpload, Submission};
use dreamspell::pages::{login, logout, unauthorized, LoginForm, Session};

#[test]
fn parse_accepts_plain_and_signed_integers() {
    assert_eq!(parse_i32(&"123".to_string()), Some(123));
    assert_eq!(parse_i32(&"+7".to_string()), Some(7));
    assert_eq!(parse_i32(&"-42".to_string()), Some(-42));
    assert_eq!(parse_i32(&"007".to_string()), Some(7));
    assert_eq!(parse_i32(&"0".to_string()), Some(0));
}

#[test]
fn parse_rejects_malformed_text() {
    assert_eq!(parse_i32(&String::new()), None);
    assert_eq!(parse_i32(&"12a".to_string()), None);
    assert_eq!(parse_i32(&"-".to_string()), None);
    assert_eq!(parse_i32(&"+".to_string()), None);
    assert_eq!(parse_i32(&" 1".to_string()), None);
    assert_eq!(parse_i32(&"1.5".to_string()), None);
}

#[test]
fn parse_respects_the_32_bit_range() {
    assert_eq!(parse_i32(&"2147483647".to_string()), Some(i32::MAX));
    assert_eq!(parse_i32(&"2147483648".to_string()), None);
    assert_eq!(parse_i32(&"-2147483648".to_string()), Some(i32::MIN));
    assert_eq!(parse_i32(&"-2147483649".to_string()), None);
    assert_eq!(parse_i32(&"99999999999999999999".to_string()), None);
}

#[test]
fn decimal_rendering_is_exact() {
    assert_eq!(u64_to_string(0), "0");
    assert_eq!(u64_to_string(7), "7");
    assert_eq!(u64_to_string(1234567890), "1234567890");
}

#[test]
fn prefixed_name_is_exact() {
    let r = name_with_prefix(&"17".to_string(), &"a.png".to_string());
    assert_eq!(r, "17-a.png");
}

#[test]
fn clock_derived_name_differs_from_the_original() {
    let original = "imix.png".to_string();
    let r = file_name_with_prefix(&original);
    assert_ne!(r, original);
    assert!(r.len() > original.len() + 1);
    assert!(r.ends_with("-imix.png"));
    let digits = &r[..r.len() - original.len() - 1];
    assert!(!digits.is_empty() && digits.bytes().all(|b| b.is_ascii_digit()));
}

#[test]
fn malformed_num_field_is_a_bad_request_and_writes_nothing() {
    let mut assets = Assets::new();
    let sub = Submission {
        image: Some(FileUpload {
            file_name: Some("pic.png".to_string()),
            temp_path: "/tmp/u".to_string(),
        }),
        num: Some("one".to_string()),
        name: Some("x".to_string()),
        preview: None,
        description: None,
    };
    let prefix = "99".to_string();
    let r = NewGlyph::from_submission(&mut assets, &sub, &prefix);
    assert_eq!(r.unwrap_err(), DreamError::BadRequest);
    assert!(!assets.contains(&"99-pic.png".to_string()));
}

#[test]
fn absent_fields_default_to_zero_values() {
    let mut assets = Assets::new();
    let sub = Submission {
        image: None,
        num: None,
        name: None,
        preview: None,
        description: None,
    };
    let g = NewGlyph::from_submission(&mut assets, &sub, &"99".to_string()).unwrap();
    assert_eq!(g.num, 0);
    assert_eq!(g.name, "");
    assert_eq!(g.image, "");
    assert_eq!(g.preview, "");
    assert_eq!(g.description, "");
}

#[test]
fn ingestion_saves_the_uploaded_image_under_the_derived_name() {
    let mut assets = Assets::new();
    let sub = Submission {
        image: Some(FileUpload {
            file_name: Some("seal.png".to_string()),
            temp_path: "/tmp/u".to_string(),
        }),
        num: Some("13".to_string()),
        name: Some("seal".to_string()),
        preview: Some("pv".to_string()),
        description: Some("ds".to_string()),
    };
    let g = NewGlyph::from_submission(&mut assets, &sub, &"500".to_string()).unwrap();
    assert_eq!(g.image, "500-seal.png");
    assert_eq!(g.num, 13);
    assert_eq!(g.preview, "pv");
    assert_eq!(g.description, "ds");
    assert!(assets.contains(&g.image));
}

#[test]
fn speculative_delete_of_missing_file_is_a_no_op() {
    let mut assets = Assets::new();
    let kept = "7-kept.png".to_string();
    assets.save(&kept);
    assets.delete(&"absent.png".to_string());
    assets.delete(&String::new());
    assert!(assets.contains(&kept));
}

#[test]
fn error_messages_and_statuses_match_the_taxonomy() {
    assert_eq!(DreamError::NotFound.message(), "NotFound");
    assert_eq!(DreamError::BadRequest.message(), "BadRequest");
    assert_eq!(DreamError::Unauthorized.message(), "Unauthorized");
    assert_eq!(DreamError::InternalServerError.message(), "InternalServerError");
    assert_eq!(DreamError::NotFound.description(), "Record not found");
    assert_eq!(DreamError::InternalServerError.description(), "Internal server error");
    assert_eq!(DreamError::BadRequest.description(), "Bad Request");
    assert_eq!(DreamError::NotFound.status(), 404);
    assert_eq!(DreamError::BadRequest.status(), 400);
    assert_eq!(DreamError::Unauthorized.status(), 401);
    assert_eq!(DreamError::InternalServerError.status(), 500);
}

#[test]
fn storage_failures_classify_by_the_missing_row_case() {
    assert_eq!(DreamError::from_storage(true), DreamError::NotFound);
    assert_eq!(DreamError::from_storage(false), DreamError::InternalServerError);
}

#[test]
fn login_grants_the_admin_cookie_only_on_the_right_password() {
    let mut session = Session { admin: false };
    let wrong = login(
        &mut session,
        &LoginForm {
            password: "guess".to_string(),
        },
    );
    assert_eq!(wrong, "/admin/login");
    assert!(!session.admin);
    let right = login(
        &mut session,
        &LoginForm {
            password: "42".to_string(),
        },
    );
    assert_eq!(right, "/admin");
    assert!(session.admin);
    let out = logout(&mut session);
    assert_eq!(out, "/admin/login");
    assert!(!session.admin);
    assert_eq!(unauthorized(), "/admin/login");
}
