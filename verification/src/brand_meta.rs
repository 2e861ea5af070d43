//! The product's entry in an ACP `_meta` object: written under both the
//! `openduck` key and the legacy `goose` key, read from `openduck` first.

use vstd::prelude::*;
use crate::json::{copy_json, copy_object, same_members, same_json, find_member, lemma_member_index_from, member, member_index_from, or_else, Json};

verus! {

/// The legacy key of the product's `_meta` entry.
pub const ACP_META_LEGACY_KEY: &'static str = "goose";

/// The key of the product's `_meta` entry.
pub const ACP_META_KEY: &'static str = "openduck";

/// The product's entry: under `openduck`, else under `goose`.
pub open spec fn brand_meta(m: Seq<(String, Json)>) -> Option<Json> {
    or_else(member(m, "openduck"@), member(m, "goose"@))
}

/// The product's entry of a `_meta` object (`get_brand_meta`).
pub fn get_brand_meta(meta: &Vec<(String, Json)>) -> (r: Option<&Json>)
    ensures
        match r {
            Some(j) => brand_meta(meta@) == Some(*j),
            None => brand_meta(meta@) is None,
        },
{
    proof {
        reveal_strlit("openduck");
        reveal_strlit("goose");
        lemma_member_index_from(meta@, "openduck"@, 0);
        lemma_member_index_from(meta@, "goose"@, 0);
    }
    match find_member(meta, ACP_META_KEY) {
        Some(i) => Some(&meta[i].1),
        None => match find_member(meta, ACP_META_LEGACY_KEY) {
            Some(i) => Some(&meta[i].1),
            None => None,
        },
    }
}

/// Member names are unchanged from position `i` on, so every lookup from
/// there finds the same position.
proof fn lemma_same_names_same_index(a: Seq<(String, Json)>, b: Seq<(String, Json)>, key: Seq<char>, i: int)
    requires
        a.len() == b.len(),
        0 <= i <= a.len(),
        forall|k: int| 0 <= k < a.len() ==> (#[trigger] a[k]).0@ == b[k].0@,
    ensures
        member_index_from(a, key, i) == member_index_from(b, key, i),
    decreases a.len() - i,
{
    if i < a.len() {
        lemma_same_names_same_index(a, b, key, i + 1);
    }
}

/// Appending a member named otherwise leaves every earlier lookup as it was.
proof fn lemma_push_other(a: Seq<(String, Json)>, e: (String, Json), key: Seq<char>, i: int)
    requires
        0 <= i <= a.len(),
        e.0@ != key,
    ensures
        member_index_from(a.push(e), key, i) == member_index_from(a, key, i),
    decreases a.len() - i,
{
    if i < a.len() {
        assert(a.push(e)[i] == a[i]);
        lemma_push_other(a, e, key, i + 1);
    } else {
        assert(a.push(e)[a.len() as int] == e);
        assert(member_index_from(a.push(e), key, (a.len() + 1) as int) == -1);
    }
}

/// A lookup from position `i` that finds nothing in `a` finds the appended member.
proof fn lemma_push_found(a: Seq<(String, Json)>, e: (String, Json), i: int)
    requires
        0 <= i <= a.len(),
        member_index_from(a, e.0@, i) == -1,
    ensures
        member_index_from(a.push(e), e.0@, i) == a.len(),
    decreases a.len() - i,
{
    if i < a.len() {
        assert(a.push(e)[i] == a[i]);
        lemma_push_found(a, e, i + 1);
    }
}

/// `Map::insert`: the member `key` now holds `value` (replacing the first
/// member of that name, or appended); every other member reads as before.
pub fn set_member(m: &mut Vec<(String, Json)>, key: &str, value: Json)
    ensures
        member(final(m)@, key@) == Some(value),
        forall|k: Seq<char>| k != key@ ==> #[trigger] member(final(m)@, k) == member(old(m)@, k),
{
    let ghost before = m@;
    proof {
        lemma_member_index_from(before, key@, 0);
    }
    match find_member(m, key) {
        Some(i) => {
            let name = m[i].0.clone();
            m.set(i, (name, value));
            proof {
                assert(m@ == before.update(i as int, (name, value)));
                assert forall|j: int| 0 <= j < m@.len() implies (#[trigger] m@[j]).0@ == before[j].0@ by {}
                assert forall|k: Seq<char>| k != key@ implies #[trigger] member(m@, k) == member(before, k) by {
                    lemma_same_names_same_index(m@, before, k, 0);
                    lemma_member_index_from(before, k, 0);
                }
                lemma_same_names_same_index(m@, before, key@, 0);
            }
        },
        None => {
            let e = (key.to_owned(), value);
            m.push(e);
            proof {
                assert(m@ == before.push(e));
                lemma_push_found(before, e, 0);
                assert forall|k: Seq<char>| k != key@ implies member(m@, k) == member(before, k) by {
                    lemma_push_other(before, e, k, 0);
                    lemma_member_index_from(before, k, 0);
                    lemma_member_index_from(m@, k, 0);
                }
            }
        },
    }
}

/// `insert_brand_meta`: writes `value` under `openduck`, and a copy under the
/// legacy `goose` key; other members are kept.
pub fn insert_brand_meta(meta: &mut Vec<(String, Json)>, value: Json)
    ensures
        member(final(meta)@, "openduck"@) == Some(value),
        member(final(meta)@, "goose"@) matches Some(c) && same_json(value, c),
        forall|k: Seq<char>| k != "openduck"@ && k != "goose"@ ==> #[trigger] member(final(meta)@, k) == member(old(meta)@, k),
{
    proof {
        reveal_strlit("openduck");
        reveal_strlit("goose");
    }
    let copy = copy_json(&value);
    set_member(meta, ACP_META_LEGACY_KEY, copy);
    let ghost mid = meta@;
    assert(member(mid, "goose"@) == Some(copy));
    set_member(meta, ACP_META_KEY, value);
    assert("goose"@.len() != "openduck"@.len());
    assert("goose"@ != "openduck"@);
    assert(member(meta@, "goose"@) == member(mid, "goose"@));
}

/// The members of the product's entry when it is an object, else none: what
/// `with_brand_meta_object` starts from before it updates and writes the entry.
pub fn brand_meta_members(meta: &Vec<(String, Json)>) -> (r: Vec<(String, Json)>)
    ensures
        match brand_meta(meta@) {
            Some(Json::Object(ms)) => r@.len() == ms@.len() && same_members(ms@, r@, 0),
            _ => r@.len() == 0,
        },
{
    match get_brand_meta(meta) {
        Some(Json::Object(ms)) => copy_object(ms),
        _ => Vec::new(),
    }
}

/// What is written is what is read: after the product's entry is written,
/// reading it gives that entry back, whatever the object held before.
pub proof fn law_brand_meta_read_after_write(meta: Seq<(String, Json)>, value: Json)
    requires
        member(meta, "openduck"@) == Some(value),
    ensures
        brand_meta(meta) == Some(value),
{
}

} // verus!
