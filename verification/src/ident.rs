//! App identifiers: drawing fresh ones and telling the old formats apart.

use crate::outside::random_chars;
use crate::text::{contains, texts};
use vstd::prelude::*;
use vstd::utf8::encode_utf8;

verus! {

/// The length of an app identifier.
pub const APP_ID_LENGTH: usize = 10;

/// How often an identifier is drawn before the search for a fresh one is
/// given up.
pub const MAX_DRAWS: u64 = 0xffff_ffff_ffff_ffff;

/// Whether `id` has the shape of a drawn identifier: `APP_ID_LENGTH`
/// lowercase letters from `a` to `z`.
pub open spec fn is_generated_id(id: Seq<char>) -> bool {
    &&& id.len() == APP_ID_LENGTH
    &&& forall|i: int| 0 <= i < id.len() ==> 'a' <= #[trigger] id[i] <= 'z'
}

/// Draws an identifier at random.
fn gen_id() -> (id: String)
    ensures
        is_generated_id(id@),
{
    random_chars('a', 'z', APP_ID_LENGTH)
}

/// Accepts a drawn identifier unless it is known already.
pub fn accept_id(app_ids: &Vec<String>, candidate: String) -> (r: Option<String>)
    ensures
        match r {
            Some(id) => id@ == candidate@ && !texts(app_ids@).contains(candidate@),
            None => texts(app_ids@).contains(candidate@),
        },
{
    if contains(app_ids, candidate.as_str()) {
        None
    } else {
        Some(candidate)
    }
}

/// Draws identifiers until one is not among `app_ids`, and returns it.
/// Where no known identifier has the shape of a drawn one, the first draw
/// is returned. `None` only if `MAX_DRAWS` draws in a row were all known.
pub fn gen_unique_id(app_ids: &Vec<String>) -> (r: Option<String>)
    ensures
        r matches Some(id) ==> is_generated_id(id@) && !texts(app_ids@).contains(id@),
        !collision_possible(texts(app_ids@)) ==> r is Some,
{
    let mut draws: u64 = 0;
    while draws < MAX_DRAWS
        invariant
            draws <= MAX_DRAWS,
            !collision_possible(texts(app_ids@)) ==> draws == 0,
        decreases MAX_DRAWS - draws,
    {
        let candidate = gen_id();
        let ghost drawn = candidate@;
        match accept_id(app_ids, candidate) {
            Some(id) => {
                return Some(id);
            },
            None => {
                proof {
                    let known = texts(app_ids@);
                    let i = choose|i: int| 0 <= i < known.len() && known[i] == drawn;
                    assert(is_generated_id(known[i]));
                }
            },
        }
        draws += 1;
    }
    None
}

/// Whether a drawn identifier can be known already: some known identifier
/// has the shape of a drawn one.
pub open spec fn collision_possible(known: Seq<Seq<char>>) -> bool {
    exists|i: int| 0 <= i < known.len() && is_generated_id(#[trigger] known[i])
}

/// Whether `id` is of an earlier format: its length in bytes, as UTF-8, is
/// not `APP_ID_LENGTH`.
pub open spec fn is_legacy(id: Seq<char>) -> bool {
    encode_utf8(id).len() as usize != APP_ID_LENGTH
}

/// Whether `id` is of an earlier format. An app with such an identifier
/// gets a new one when it is reinstalled.
pub fn is_legacy_format(id: &str) -> (r: bool)
    ensures
        r == is_legacy(id@),
{
    id.len() != APP_ID_LENGTH
}

/// Whether each of `ids` was fresh when it came: not among `known`, and not
/// among those of `ids` that came before it.
pub open spec fn drawn_fresh(known: Seq<Seq<char>>, ids: Seq<Seq<char>>) -> bool {
    forall|i: int| 0 <= i < ids.len() ==> !(known + ids.take(i)).contains(#[trigger] ids[i])
}

/// Identifiers that were each fresh when they came are pairwise distinct,
/// and none of them is among those known at the start.
pub proof fn lemma_fresh_ids_unique(known: Seq<Seq<char>>, ids: Seq<Seq<char>>)
    requires
        drawn_fresh(known, ids),
    ensures
        ids.no_duplicates(),
        forall|i: int| 0 <= i < ids.len() ==> !known.contains(#[trigger] ids[i]),
{
    assert forall|i: int, j: int| 0 <= i < ids.len() && 0 <= j < ids.len() && i
        != j implies ids[i] != ids[j] by {
        let (a, b) = if i < j {
            (i, j)
        } else {
            (j, i)
        };
        let before = known + ids.take(b);
        assert(!before.contains(ids[b]));
        assert(before[known.len() + a] == ids[a]);
    }
    assert forall|i: int| 0 <= i < ids.len() implies !known.contains(#[trigger] ids[i]) by {
        let before = known + ids.take(i);
        assert(!before.contains(ids[i]));
        if known.contains(ids[i]) {
            let k = choose|k: int| 0 <= k < known.len() && known[k] == ids[i];
            assert(before[k] == ids[i]);
        }
    }
}

} // verus!
