//! Hashes of strings and of the ids of discography items, used to key and
//! check the Bandcamp cache, and the clock that dates it.
use std::collections::hash_map::DefaultHasher;
use std::hash::Hasher;
use vstd::bytes::{spec_u64_to_le_bytes, u64_to_le_bytes};
use vstd::prelude::*;
use vstd::relations::{sorted_by, total_ordering};
use vstd::std_specs::hash::DefaultHasherAdditionalSpecFns;
use vstd::string::StringSliceAdditionalSpecFns;

verus! {

/// Seconds since the Unix epoch by the system clock, or `None` when the
/// clock reads earlier than the epoch (`SystemTime::duration_since`).
/// Nothing is claimed of the value: it is the time.
#[verifier::external_body]
fn seconds_since_epoch() -> (r: Option<u64>) {
    std::time::SystemTime::now().duration_since(std::time::UNIX_EPOCH).ok().map(|d| d.as_secs())
}

/// The timestamp for a reading of the clock: the seconds since the epoch,
/// or 0 when the clock reads earlier than the epoch.
pub fn timestamp_from(since_epoch: Option<u64>) -> (r: u64)
    ensures
        r == match since_epoch {
            Some(secs) => secs,
            None => 0,
        },
{
    match since_epoch {
        Some(secs) => secs,
        None => 0,
    }
}

/// The current Unix timestamp in seconds; 0 when the system clock reads
/// earlier than the epoch. What the clock reads is not stated: the result
/// is [`timestamp_from`] of that reading.
pub fn current_timestamp() -> (r: u64) {
    timestamp_from(seconds_since_epoch())
}

/// What `str`'s `Hash` impl feeds a hasher: the string's UTF-8 bytes, then
/// the byte `0xff`, which no UTF-8 text holds, so that no hashed string is
/// a prefix of another.
pub open spec fn str_hash_input(s: &str) -> Seq<Seq<u8>> {
    seq![s.spec_bytes(), seq![0xffu8]]
}

/// Hashes a string with the standard library's default hasher.
pub fn hash_string(input: &str) -> (r: u64)
    ensures
        r == DefaultHasher::spec_finish(str_hash_input(input)),
{
    let mut hasher = DefaultHasher::new();
    hasher.write(input.as_bytes());
    let end: [u8; 1] = [0xff];
    hasher.write(&end);
    proof {
        assert(end@ =~= seq![0xffu8]);
        assert(hasher@ =~= str_hash_input(input));
    }
    hasher.finish()
}

/// Items that may carry a numeric id.
pub trait HasId {
    /// The item's id, if it has one.
    spec fn spec_id(&self) -> Option<u64>;

    /// Returns the item's id, if it has one.
    fn get_id(&self) -> (r: Option<u64>)
        ensures
            r == self.spec_id(),
    ;
}

impl HasId for crate::bandcamp::DiscographyItem {
    open spec fn spec_id(&self) -> Option<u64> {
        self.id
    }

    fn get_id(&self) -> (r: Option<u64>) {
        self.id
    }
}

/// The ids that the items carry, in the items' order.
pub open spec fn present_ids<T: HasId>(items: Seq<T>) -> Seq<u64> {
    items.filter_map(|item: T| item.spec_id())
}

/// The ascending order of ids.
pub open spec fn id_leq() -> spec_fn(u64, u64) -> bool {
    |a: u64, b: u64| a <= b
}

/// The hash of a collection of ids: each id, in ascending order, fed to
/// the default hasher as its eight little-endian bytes.
pub open spec fn ids_hash(ids: Seq<u64>) -> u64 {
    DefaultHasher::spec_finish(ids.sort_by(id_leq()).map_values(|id: u64| spec_u64_to_le_bytes(id)))
}

/// `slice::sort` on ids: the same ids, in ascending order.
#[verifier::external_body]
fn sort_ids(ids: &mut Vec<u64>)
    ensures
        final(ids)@.to_multiset() == old(ids)@.to_multiset(),
        sorted_by(final(ids)@, id_leq()),
{
    ids.sort();
}

/// Lemma: `<=` on ids is a total order.
pub proof fn lemma_id_leq_total()
    ensures
        total_ordering(id_leq()),
{
}

/// Lemma: an ascending sequence of the same ids as `ids` is the sorted
/// sequence of `ids`.
pub proof fn lemma_sorted_is_sort(sorted: Seq<u64>, ids: Seq<u64>)
    requires
        sorted.to_multiset() == ids.to_multiset(),
        sorted_by(sorted, id_leq()),
    ensures
        sorted == ids.sort_by(id_leq()),
{
    lemma_id_leq_total();
    ids.lemma_sort_by_ensures(id_leq());
    vstd::seq_lib::lemma_sorted_unique(sorted, ids.sort_by(id_leq()), id_leq());
}

/// Hashes the ids of a collection of items so that their order does not
/// matter: the ids are sorted first, and items without an id are skipped.
pub fn hash_items_with_ids<T: HasId>(items: &[T]) -> (r: u64)
    ensures
        r == ids_hash(present_ids(items@)),
{
    let mut ids: Vec<u64> = Vec::new();
    let mut i: usize = 0;
    while i < items.len()
        invariant
            i <= items.len(),
            ids@ == present_ids(items@.subrange(0, i as int)),
        decreases items.len() - i,
    {
        let ghost prefix = items@.subrange(0, i + 1);
        assert(prefix.drop_last() =~= items@.subrange(0, i as int));
        assert(prefix.last() == items@[i as int]);
        match items[i].get_id() {
            Some(id) => ids.push(id),
            None => {},
        }
        i = i + 1;
    }
    assert(items@.subrange(0, items@.len() as int) =~= items@);
    let ghost unsorted = ids@;
    sort_ids(&mut ids);
    proof {
        lemma_sorted_is_sort(ids@, unsorted);
    }
    let ghost chunks = ids@.map_values(|id: u64| spec_u64_to_le_bytes(id));
    let mut hasher = DefaultHasher::new();
    let mut j: usize = 0;
    while j < ids.len()
        invariant
            j <= ids.len(),
            chunks == ids@.map_values(|id: u64| spec_u64_to_le_bytes(id)),
            hasher@ == chunks.subrange(0, j as int),
        decreases ids.len() - j,
    {
        let bytes = u64_to_le_bytes(ids[j]);
        hasher.write(bytes.as_slice());
        assert(hasher@ =~= chunks.subrange(0, j + 1));
        j = j + 1;
    }
    assert(chunks.subrange(0, ids@.len() as int) =~= chunks);
    hasher.finish()
}

/// The hash of a collection of items depends only on which ids the items
/// carry and how often, not on the items' order, nor on the items that
/// carry no id.
pub proof fn law_ids_hash_ignores_order<T: HasId>(a: Seq<T>, b: Seq<T>)
    requires
        present_ids(a).to_multiset() == present_ids(b).to_multiset(),
    ensures
        ids_hash(present_ids(a)) == ids_hash(present_ids(b)),
{
    let (x, y) = (present_ids(a), present_ids(b));
    lemma_id_leq_total();
    x.lemma_sort_by_ensures(id_leq());
    y.lemma_sort_by_ensures(id_leq());
    vstd::seq_lib::lemma_sorted_unique(x.sort_by(id_leq()), y.sort_by(id_leq()), id_leq());
}

} // verus!
