//! The report of the `status` command: one line per collection, and the migration counts.

use vstd::prelude::*;
use vstd::string::*;
use crate::scaffold::{decimal, u64_to_decimal};
use crate::text::{chars_of, push_char};
use crate::versions::{i64_to_decimal, signed_decimal};

verus! {

/// `s` padded on the right with spaces to at least `width` characters.
pub open spec fn pad_right(s: Seq<char>, width: nat) -> Seq<char> {
    if s.len() >= width {
        s
    } else {
        s + Seq::new((width - s.len()) as nat, |i: int| ' ')
    }
}

/// The tags of a collection: "auth" for auth collections, "upload" for upload ones.
pub open spec fn collection_tags(is_auth: bool, is_upload: bool) -> Seq<char> {
    if is_auth && is_upload {
        " [auth, upload]"@
    } else if is_auth {
        " [auth]"@
    } else if is_upload {
        " [upload]"@
    } else {
        Seq::empty()
    }
}

/// The status line of a collection: its slug padded to 20 characters, its row count and
/// its tags.
pub open spec fn collection_line(slug: Seq<char>, count: int, is_auth: bool, is_upload: bool) -> Seq<char> {
    "  "@ + pad_right(slug, 20) + " "@ + signed_decimal(count) + " row(s)"@ + collection_tags(is_auth, is_upload)
}

/// Render the status line of a collection (see `collection_line`).
pub fn collection_status_line(slug: &str, count: i64, is_auth: bool, is_upload: bool) -> (r: String)
    ensures
        r@ == collection_line(slug@, count as int, is_auth, is_upload),
{
    let mut r = String::from_str("  ");
    r.append(slug);
    let n = chars_of(slug).len();
    let ghost padded = r@;
    let mut k: usize = n;
    while k < 20
        invariant
            n == slug@.len(),
            k >= n,
            n < 20 ==> k <= 20,
            n >= 20 ==> k == n,
            r@ == padded + Seq::new((k - n) as nat, |i: int| ' '),
        decreases 20 - k,
    {
        push_char(&mut r, ' ');
        assert(Seq::new((k - n) as nat, |i: int| ' ').push(' ') =~= Seq::new((k + 1 - n) as nat, |i: int| ' '));
        k = k + 1;
    }
    proof {
        if n >= 20 {
            assert(Seq::new((k - n) as nat, |i: int| ' ') =~= Seq::<char>::empty());
            assert(r@ =~= padded);
        }
        assert(padded =~= "  "@ + slug@);
    }
    let ghost before = r@;
    r.append(" ");
    let c = i64_to_decimal(count);
    r.append(c.as_str());
    r.append(" row(s)");
    if is_auth && is_upload {
        r.append(" [auth, upload]");
    } else if is_auth {
        r.append(" [auth]");
    } else if is_upload {
        r.append(" [upload]");
    }
    proof {
        let t = collection_tags(is_auth, is_upload);
        if !is_auth && !is_upload {
            assert(r@ =~= before + " "@ + signed_decimal(count as int) + " row(s)"@ + t);
        }
        assert(r@ =~= "  "@ + pad_right(slug@, 20) + " "@ + signed_decimal(count as int) + " row(s)"@ + t);
    }
    r
}

/// How many of the migration files have not been applied.
pub open spec fn pending_count(all: Seq<Seq<char>>, applied: Seq<Seq<char>>) -> nat
    decreases all.len(),
{
    if all.len() == 0 {
        0
    } else {
        pending_count(all.drop_last(), applied) + if applied.contains(all.last()) {
            0nat
        } else {
            1nat
        }
    }
}

fn listed(v: &Vec<String>, s: &str) -> (r: bool)
    ensures
        r == v@.map_values(|x: String| x@).contains(s@),
{
    let ghost views = v@.map_values(|x: String| x@);
    let mut i: usize = 0;
    while i < v.len()
        invariant
            i <= v.len(),
            views == v@.map_values(|x: String| x@),
            forall|j: int| 0 <= j < i ==> views[j] != s@,
        decreases v.len() - i,
    {
        if crate::text::str_eq(v[i].as_str(), s) {
            assert(views[i as int] == s@);
            return true;
        }
        i = i + 1;
    }
    false
}

/// Count the migration files that have not been applied (see `pending_count`).
pub fn pending_migrations(all: &Vec<String>, applied: &Vec<String>) -> (r: usize)
    ensures
        r == pending_count(all@.map_values(|x: String| x@), applied@.map_values(|x: String| x@)),
{
    let ghost alls = all@.map_values(|x: String| x@);
    let ghost apps = applied@.map_values(|x: String| x@);
    let mut n: usize = 0;
    let mut i: usize = 0;
    while i < all.len()
        invariant
            i <= all.len(),
            alls == all@.map_values(|x: String| x@),
            apps == applied@.map_values(|x: String| x@),
            n == pending_count(alls.take(i as int), apps),
            n <= i,
        decreases all.len() - i,
    {
        assert(alls.take(i + 1).drop_last() =~= alls.take(i as int));
        assert(alls.take(i + 1).last() == all@[i as int]@);
        if !listed(applied, all[i].as_str()) {
            n = n + 1;
        }
        i = i + 1;
    }
    assert(alls.take(all.len() as int) =~= alls);
    n
}

/// The migration line of the status report.
pub fn migrations_summary(total: usize, applied: usize, pending: usize) -> (r: String)
    ensures
        r@ == "Migrations: "@ + decimal(total as nat) + " total, "@ + decimal(applied as nat) + " applied, "@
            + decimal(pending as nat) + " pending"@,
{
    let mut r = String::from_str("Migrations: ");
    r.append(u64_to_decimal(total as u64).as_str());
    r.append(" total, ");
    r.append(u64_to_decimal(applied as u64).as_str());
    r.append(" applied, ");
    r.append(u64_to_decimal(pending as u64).as_str());
    r.append(" pending");
    r
}

} // verus!
