//! The asset store: generated file names and the set of stored files.
//!
//! File names for uploaded images are derived from the original file name
//! by prepending a time-based prefix, so that a replacement upload of the
//! same original name never reuses the stored name. The store itself is a
//! set of file names; saving is idempotent and deleting a name that is not
//! stored (the empty name in particular) is a no-op, never an error, since
//! callers delete speculatively.

use vstd::prelude::*;

verus! {

pub open spec fn is_digit_char(c: char) -> bool {
    '0' <= c && c <= '9'
}

pub open spec fn digit_char(d: int) -> char
    recommends
        0 <= d < 10,
{
    if d == 0 { '0' }
    else if d == 1 { '1' }
    else if d == 2 { '2' }
    else if d == 3 { '3' }
    else if d == 4 { '4' }
    else if d == 5 { '5' }
    else if d == 6 { '6' }
    else if d == 7 { '7' }
    else if d == 8 { '8' }
    else { '9' }
}

/// The decimal rendering of a natural number, most significant digit first.
pub open spec fn dec_digits(n: nat) -> Seq<char>
    decreases n,
{
    if n < 10 {
        seq![digit_char(n as int)]
    } else {
        dec_digits(n / 10).push(digit_char((n % 10) as int))
    }
}

pub proof fn lemma_dec_digits_form(n: nat)
    ensures
        dec_digits(n).len() >= 1,
        forall|i: int| 0 <= i < dec_digits(n).len() ==> is_digit_char(#[trigger] dec_digits(n)[i]),
    decreases n,
{
    if n >= 10 {
        lemma_dec_digits_form(n / 10);
    }
}

fn digit_str(d: u64) -> (r: &'static str)
    requires
        d < 10,
    ensures
        r@ == seq![digit_char(d as int)],
{
    proof {
        reveal_strlit("0");
        reveal_strlit("1");
        reveal_strlit("2");
        reveal_strlit("3");
        reveal_strlit("4");
        reveal_strlit("5");
        reveal_strlit("6");
        reveal_strlit("7");
        reveal_strlit("8");
        reveal_strlit("9");
    }
    match d {
        0 => "0",
        1 => "1",
        2 => "2",
        3 => "3",
        4 => "4",
        5 => "5",
        6 => "6",
        7 => "7",
        8 => "8",
        _ => "9",
    }
}

pub fn u64_to_string(n: u64) -> (r: String)
    ensures
        r@ == dec_digits(n as nat),
    decreases n,
{
    if n < 10 {
        String::from_str(digit_str(n))
    } else {
        let mut s = u64_to_string(n / 10);
        s.append(digit_str(n % 10));
        assert(s@ =~= dec_digits(n as nat));
        s
    }
}

/// Relies on chrono's `Utc::now` and `DateTime::timestamp_millis`: the
/// current time in milliseconds since the Unix epoch. The value depends on
/// the clock alone; it is nonnegative because `Utc::now` refuses a system
/// clock set before the epoch.
#[verifier::external_body]
fn clock_millis() -> (r: i64)
    ensures
        r >= 0,
{
    chrono::Utc::now().timestamp_millis()
}

/// A stored name derived from `original` by a nonempty all-digit prefix
/// and a dash; such a name is always longer than `original` itself.
pub open spec fn prefixed_name(r: Seq<char>, original: Seq<char>) -> bool {
    exists|p: Seq<char>|
        p.len() > 0
        && (forall|i: int| 0 <= i < p.len() ==> is_digit_char(#[trigger] p[i]))
        && r == p + "-"@ + original
}

/// Joins a prefix and an original file name with a dash.
pub fn name_with_prefix(prefix: &String, original: &String) -> (r: String)
    ensures
        r@ == prefix@ + "-"@ + original@,
        r@.len() == prefix@.len() + 1 + original@.len(),
{
    proof {
        reveal_strlit("-");
    }
    let mut r = prefix.clone();
    r.append("-");
    r.append(original.as_str());
    r
}

/// Derives a fresh stored name for an uploaded file: the current clock
/// reading, a dash, then the original name. Distinct calls at distinct
/// clock readings give distinct names, and the result never equals the
/// original name itself.
pub fn file_name_with_prefix(original: &String) -> (r: String)
    ensures
        prefixed_name(r@, original@),
        r@.len() > original@.len() + 1,
        r@ != original@,
{
    let stamp = clock_millis();
    let prefix = u64_to_string(stamp as u64);
    let r = name_with_prefix(&prefix, original);
    proof {
        lemma_dec_digits_form(stamp as nat);
        assert(prefixed_name(r@, original@)) by {
            assert(prefix@.len() > 0 && r@ == prefix@ + "-"@ + original@);
        }
    }
    r
}

/// The set of file names currently held by the asset store. The real
/// store is a directory on disk written by the boundary layer; this model
/// is the system of record the lifecycle contracts are stated against.
pub struct Assets {
    files: Vec<String>,
}

impl View for Assets {
    type V = Set<Seq<char>>;

    closed spec fn view(&self) -> Set<Seq<char>> {
        Set::new(|n: Seq<char>| exists|i: int| 0 <= i < self.files@.len() && self.files@[i]@ == n)
    }
}

impl Assets {
    /// Internal shape: stored names are pairwise distinct and never empty.
    pub closed spec fn wf(&self) -> bool {
        &&& forall|i: int, j: int|
            0 <= i < self.files@.len() && 0 <= j < self.files@.len() && i != j
                ==> self.files@[i]@ != self.files@[j]@
        &&& forall|i: int| 0 <= i < self.files@.len() ==> (#[trigger] self.files@[i])@.len() > 0
    }

    /// A well-formed asset store never holds the empty name, so the
    /// speculative delete of an absent image is always a no-op.
    pub proof fn lemma_no_empty_name(&self)
        requires
            self.wf(),
        ensures
            !self@.contains(Seq::<char>::empty()),
    {
        if self@.contains(Seq::<char>::empty()) {
            let i = choose|i: int|
                0 <= i < self.files@.len() && self.files@[i]@ == Seq::<char>::empty();
            assert(self.files@[i]@.len() > 0);
        }
    }

    pub fn new() -> (r: Assets)
        ensures
            r@ == Set::<Seq<char>>::empty(),
            r.wf(),
    {
        let r = Assets { files: Vec::new() };
        proof {
            assert(r@ =~= Set::<Seq<char>>::empty());
        }
        r
    }

    pub fn contains(&self, name: &String) -> (r: bool)
        ensures
            r == self@.contains(name@),
    {
        let n = self.files.len();
        let mut i: usize = 0;
        while i < n
            invariant
                n == self.files@.len(),
                0 <= i <= n,
                forall|k: int| 0 <= k < i ==> self.files@[k]@ != name@,
            decreases n - i,
        {
            if self.files[i].eq(name) {
                return true;
            }
            i += 1;
        }
        false
    }

    /// Writes uploaded bytes under `name`; a repeated save of the same
    /// name leaves the store unchanged rather than corrupting it.
    pub fn save(&mut self, name: &String)
        requires
            old(self).wf(),
            name@.len() > 0,
        ensures
            final(self).wf(),
            final(self)@ == old(self)@.insert(name@),
    {
        if !self.contains(name) {
            let ghost pre = self.files@;
            self.files.push(name.clone());
            proof {
                assert(final(self)@ =~= old(self)@.insert(name@)) by {
                    assert(forall|n: Seq<char>| old(self)@.contains(n) ==> final(self)@.contains(n)) by {
                        assert(forall|k: int| 0 <= k < pre.len() ==> self.files@[k]@ == pre[k]@);
                    }
                    assert(self.files@[pre.len() as int]@ == name@);
                };
            }
        } else {
            proof {
                assert(final(self)@ =~= old(self)@.insert(name@));
            }
        }
    }

    /// Removes `name` from the store. Deleting a name that is not stored
    /// (the empty name in particular) is a no-op, not an error.
    pub fn delete(&mut self, name: &String)
        requires
            old(self).wf(),
        ensures
            final(self).wf(),
            final(self)@ == old(self)@.remove(name@),
    {
        let n = self.files.len();
        let mut i: usize = 0;
        while i < n
            invariant
                old(self).wf(),
                self.files@ == old(self).files@,
                n == self.files@.len(),
                0 <= i <= n,
                forall|k: int| 0 <= k < i ==> self.files@[k]@ != name@,
            decreases n - i,
        {
            if self.files[i].eq(name) {
                let ghost pre = self.files@;
                self.files.remove(i);
                proof {
                    let cur = self.files@;
                    pre.remove_ensures(i as int);
                    assert(cur == pre.remove(i as int));
                    assert forall|k: int| 0 <= k < cur.len()
                        implies #[trigger] cur[k] == (if k < i { pre[k] } else { pre[k + 1] }) by {
                        if k < i {
                            assert(pre.remove(i as int)[k] == pre[k]);
                        } else {
                            assert(pre.remove(i as int)[k] == pre[k + 1]);
                        }
                    };
                    assert forall|k1: int, k2: int|
                        0 <= k1 < cur.len() && 0 <= k2 < cur.len() && k1 != k2
                        implies cur[k1]@ != cur[k2]@ by {
                        let m1: int = if k1 < i { k1 } else { k1 + 1 };
                        let m2: int = if k2 < i { k2 } else { k2 + 1 };
                        assert(old(self).files@[m1]@ != old(self).files@[m2]@);
                        assert(cur[k1] == pre[m1]);
                        assert(cur[k2] == pre[m2]);
                    };
                    assert forall|k: int| 0 <= k < cur.len()
                        implies (#[trigger] cur[k])@.len() > 0 by {
                        let m: int = if k < i { k } else { k + 1 };
                        assert(old(self).files@[m]@.len() > 0);
                        assert(cur[k] == pre[m]);
                    };
                    assert(self.wf());
                    assert forall|nm: Seq<char>| self@.contains(nm)
                        implies old(self)@.remove(name@).contains(nm) by {
                        let m = choose|m: int| 0 <= m < cur.len() && cur[m]@ == nm;
                        let m2: int = if m < i { m } else { m + 1 };
                        assert(cur[m] == pre[m2]);
                        assert(pre[i as int]@ == name@);
                        assert(old(self)@.contains(nm));
                    };
                    assert forall|nm: Seq<char>| old(self)@.remove(name@).contains(nm)
                        implies self@.contains(nm) by {
                        let m = choose|m: int| 0 <= m < pre.len() && pre[m]@ == nm;
                        assert(pre[i as int]@ == name@);
                        if m < i {
                            assert(cur[m]@ == nm);
                        } else {
                            assert(cur[m - 1]@ == nm);
                        }
                    };
                    assert(self@ =~= old(self)@.remove(name@));
                }
                return;
            }
            i += 1;
        }
        proof {
            assert(!old(self)@.contains(name@));
            assert(self@ =~= old(self)@.remove(name@));
        }
    }
}

} // verus!
