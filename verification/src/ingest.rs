//! Ingestion of a demultiplexed form submission.
//!
//! The boundary layer parses the multipart body (rejecting a missing
//! content type or a malformed structure with `BadRequest` itself) and
//! hands the fields over as plain optional values. Ingestion validates
//! the numeric field, derives and saves the stored name for an uploaded
//! image, and produces a fully populated new record. Absent text fields
//! default to their zero value; a present but non-numeric `num` field is
//! rejected with `BadRequest` before any file is written, so a failed
//! ingestion leaves the asset store exactly as it was.

use vstd::prelude::*;

use crate::assets::{is_digit_char, name_with_prefix, Assets};
use crate::errors::DreamError;
use crate::records::{NewRecord, NewRecordV};

verus! {

/// One uploaded file of the submission: the original file name as sent
/// by the client (possibly absent or empty, the "no new image" signal of
/// edit forms) and the transient path the bytes wait at.
#[derive(Debug)]
pub struct FileUpload {
    pub file_name: Option<String>,
    pub temp_path: String,
}

/// One demultiplexed multipart submission: the single allowed file field
/// and the declared text fields, each present or absent.
#[derive(Debug)]
pub struct Submission {
    pub image: Option<FileUpload>,
    pub num: Option<String>,
    pub name: Option<String>,
    pub preview: Option<String>,
    pub description: Option<String>,
}

impl Submission {
    /// The original name of a genuinely uploaded image: present only
    /// when the file field was sent with a non-empty file name.
    pub open spec fn submitted_image_name(&self) -> Option<Seq<char>> {
        match self.image {
            Some(f) => match f.file_name {
                Some(n) => if n@.len() > 0 {
                    Some(n@)
                } else {
                    None
                },
                None => None,
            },
            None => None,
        }
    }

    pub open spec fn num_text(&self) -> Option<Seq<char>> {
        match self.num {
            Some(t) => Some(t@),
            None => None,
        }
    }

    pub open spec fn name_text(&self) -> Option<Seq<char>> {
        match self.name {
            Some(t) => Some(t@),
            None => None,
        }
    }

    pub open spec fn preview_text(&self) -> Option<Seq<char>> {
        match self.preview {
            Some(t) => Some(t@),
            None => None,
        }
    }

    pub open spec fn description_text(&self) -> Option<Seq<char>> {
        match self.description {
            Some(t) => Some(t@),
            None => None,
        }
    }
}

pub open spec fn or_empty(t: Option<Seq<char>>) -> Seq<char> {
    match t {
        Some(s) => s,
        None => Seq::<char>::empty(),
    }
}

pub open spec fn digit_value(c: char) -> int {
    c as int - 48
}

pub open spec fn all_digits(s: Seq<char>) -> bool {
    s.len() > 0 && forall|k: int| 0 <= k < s.len() ==> is_digit_char(#[trigger] s[k])
}

/// The numeric value of a digit sequence, most significant digit first.
pub open spec fn digits_value(s: Seq<char>) -> int
    decreases s.len(),
{
    if s.len() == 0 {
        0
    } else {
        digits_value(s.drop_last()) * 10 + digit_value(s.last())
    }
}

/// Whether a string is an integer as the numeric form field expects it:
/// an optional sign followed by at least one decimal digit.
pub open spec fn is_int_text(s: Seq<char>) -> bool {
    if s.len() > 0 && (s[0] == '+' || s[0] == '-') {
        all_digits(s.subrange(1, s.len() as int))
    } else {
        all_digits(s)
    }
}

pub open spec fn int_text_value(s: Seq<char>) -> int {
    if s.len() > 0 && s[0] == '-' {
        -digits_value(s.subrange(1, s.len() as int))
    } else if s.len() > 0 && s[0] == '+' {
        digits_value(s.subrange(1, s.len() as int))
    } else {
        digits_value(s)
    }
}

pub proof fn lemma_digits_value_nonneg(s: Seq<char>)
    requires
        forall|k: int| 0 <= k < s.len() ==> is_digit_char(#[trigger] s[k]),
    ensures
        digits_value(s) >= 0,
    decreases s.len(),
{
    if s.len() > 0 {
        lemma_digits_value_nonneg(s.drop_last());
    }
}

/// A digit sequence is worth at least any of its prefixes.
pub proof fn lemma_digits_value_prefix(s: Seq<char>, k: int)
    requires
        forall|i: int| 0 <= i < s.len() ==> is_digit_char(#[trigger] s[i]),
        0 <= k <= s.len(),
    ensures
        digits_value(s.take(k)) <= digits_value(s),
    decreases s.len() - k,
{
    if k == s.len() {
        assert(s.take(k) =~= s);
    } else {
        assert(s.take(k + 1).drop_last() =~= s.take(k));
        lemma_digits_value_nonneg(s.take(k));
        assert(digits_value(s.take(k + 1)) == digits_value(s.take(k)) * 10 + digit_value(
            s.take(k + 1).last(),
        ));
        lemma_digits_value_prefix(s, k + 1);
    }
}

/// Parses the numeric form field as Rust's integer parser does: an
/// optional `+` or `-` sign, then decimal digits; anything else, or a
/// value outside the 32-bit range, is no integer.
pub fn parse_i32(s: &String) -> (r: Option<i32>)
    ensures
        r is Some ==> is_int_text(s@) && r->Some_0 as int == int_text_value(s@),
        (is_int_text(s@) && i32::MIN as int <= int_text_value(s@) <= i32::MAX as int) <==> r
            is Some,
{
    let n = s.as_str().unicode_len();
    if n == 0 {
        return None;
    }
    let first = s.as_str().get_char(0);
    let neg: bool = first == '-';
    let has_sign: bool = first == '-' || first == '+';
    let start: usize = if has_sign {
        1
    } else {
        0
    };
    if start == n {
        return None;
    }
    let ghost d = s@.subrange(start as int, n as int);
    let mut acc: i64 = 0;
    let mut i: usize = start;
    while i < n
        invariant
            n == s@.len(),
            0 < n,
            neg == (s@[0] == '-'),
            has_sign == (s@[0] == '-' || s@[0] == '+'),
            start == if has_sign { 1int } else { 0int },
            start <= i <= n,
            start < n,
            d == s@.subrange(start as int, n as int),
            forall|k: int| start <= k < i ==> is_digit_char(#[trigger] s@[k]),
            acc == digits_value(s@.subrange(start as int, i as int)),
            0 <= acc <= 2147483648,
        decreases n - i,
    {
        let c = s.as_str().get_char(i);
        let cv = c as u32;
        if cv < 48 || cv > 57 {
            proof {
                if is_int_text(s@) {
                    if start == 1 {
                        assert(is_digit_char(s@.subrange(1, n as int)[i as int - 1]));
                        assert(s@.subrange(1, n as int)[i as int - 1] == s@[i as int]);
                    } else {
                        assert(is_digit_char(s@[i as int]));
                    }
                    assert('0' <= c && c <= '9');
                    assert(false);
                }
            }
            return None;
        }
        proof {
            assert('0' <= c && c <= '9');
            assert(is_digit_char(s@[i as int]));
            assert(digit_value(s@[i as int]) == cv - 48);
            assert(s@.subrange(start as int, i as int + 1).drop_last() =~= s@.subrange(
                start as int,
                i as int,
            ));
            assert(s@.subrange(start as int, i as int + 1).last() == s@[i as int]);
        }
        acc = acc * 10 + ((cv - 48) as i64);
        if acc > 2147483648 {
            proof {
                if is_int_text(s@) {
                    let whole = s@.subrange(start as int, n as int);
                    if start == 0 {
                        assert(whole =~= s@);
                    }
                    assert(forall|k: int| 0 <= k < whole.len() ==> is_digit_char(
                        #[trigger] whole[k],
                    ));
                    assert(digits_value(s@.subrange(start as int, i as int + 1)) == acc);
                    assert(whole.take(i as int + 1 - start) =~= s@.subrange(
                        start as int,
                        i as int + 1,
                    ));
                    lemma_digits_value_prefix(whole, i as int + 1 - start);
                    assert(digits_value(whole) >= acc);
                    assert(int_text_value(s@) == (if neg {
                        -digits_value(whole)
                    } else {
                        digits_value(whole)
                    }));
                    assert(!(i32::MIN as int <= int_text_value(s@) <= i32::MAX as int));
                }
            }
            return None;
        }
        i += 1;
    }
    proof {
        assert(s@.subrange(start as int, n as int) =~= d);
        if start == 0 {
            assert(d =~= s@);
        }
        assert(all_digits(d));
        assert(is_int_text(s@));
        assert(int_text_value(s@) == if neg {
            -digits_value(d)
        } else {
            digits_value(d)
        });
    }
    if neg {
        let val: i64 = -acc;
        assert(val as int == int_text_value(s@));
        Some(val as i32)
    } else {
        if acc > 2147483647 {
            return None;
        }
        Some(acc as i32)
    }
}

/// The numeric field is acceptable: absent, or a well-formed 32-bit
/// integer.
pub open spec fn num_ok(sub: Submission) -> bool {
    match sub.num_text() {
        Some(t) => is_int_text(t) && i32::MIN as int <= int_text_value(t) <= i32::MAX as int,
        None => true,
    }
}

pub open spec fn num_value(sub: Submission) -> int {
    match sub.num_text() {
        Some(t) => int_text_value(t),
        None => 0,
    }
}

/// The stored image name a submission produces: the prefixed original
/// name when an image was uploaded, the empty name otherwise.
pub open spec fn ingested_image(sub: Submission, prefix: Seq<char>) -> Seq<char> {
    match sub.submitted_image_name() {
        Some(orig) => prefix + "-"@ + orig,
        None => Seq::<char>::empty(),
    }
}

/// The new record a successful ingestion produces.
pub open spec fn ingested_record(sub: Submission, prefix: Seq<char>) -> NewRecordV {
    NewRecordV {
        num: num_value(sub),
        name: or_empty(sub.name_text()),
        image: ingested_image(sub, prefix),
        preview: or_empty(sub.preview_text()),
        description: or_empty(sub.description_text()),
    }
}

/// Converts one submission into a new record, saving the uploaded image
/// under its freshly derived name as a side effect. A malformed numeric
/// field is rejected with `BadRequest` before any file is written, so on
/// failure the asset store is untouched.
pub fn ingest(assets: &mut Assets, sub: &Submission, prefix: &String) -> (r: Result<
    NewRecord,
    DreamError,
>)
    requires
        old(assets).wf(),
        prefix@.len() > 0,
    ensures
        final(assets).wf(),
        !num_ok(*sub) ==> r == Err::<NewRecord, DreamError>(DreamError::BadRequest)
            && final(assets)@ == old(assets)@,
        num_ok(*sub) ==> {
            &&& r is Ok
            &&& r->Ok_0@ == ingested_record(*sub, prefix@)
            &&& (sub.submitted_image_name() is Some ==> ingested_image(*sub, prefix@).len() > 0
                && final(assets)@ == old(assets)@.insert(ingested_image(*sub, prefix@)))
            &&& (sub.submitted_image_name() is None ==> final(assets)@ == old(assets)@)
        },
{
    let num: i32 = match &sub.num {
        Some(t) => match parse_i32(t) {
            Some(v) => v,
            None => {
                return Err(DreamError::BadRequest);
            },
        },
        None => 0,
    };
    let mut image = String::new();
    match &sub.image {
        Some(f) => match &f.file_name {
            Some(orig) => {
                if !orig.as_str().is_empty() {
                    image = name_with_prefix(prefix, orig);
                    assets.save(&image);
                }
            },
            None => {},
        },
        None => {},
    }
    let name = match &sub.name {
        Some(t) => t.clone(),
        None => String::new(),
    };
    let preview = match &sub.preview {
        Some(t) => t.clone(),
        None => String::new(),
    };
    let description = match &sub.description {
        Some(t) => t.clone(),
        None => String::new(),
    };
    Ok(NewRecord { num, name, image, preview, description })
}

} // verus!
