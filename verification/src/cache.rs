use vstd::prelude::*;
use rand::Rng;

use crate::item::{Item, ItemView};
use crate::strmap::StrMap;

verus! {

/// Relies on `rand::Rng::gen_range` over `0..n` with `rand::rngs::OsRng`:
/// it panics only on an empty range, and returns an index drawn uniformly
/// from `[0, n)`. Nothing more can be promised of a random value.
#[verifier::external_body]
fn random_below(n: usize) -> (r: usize)
    requires
        n > 0,
    ensures
        r < n,
{
    let mut rng = rand::rngs::OsRng;
    rng.gen_range(0..n)
}

/// Which item values a draw from `items` may yield: any present item when
/// the sequence is non-empty, and only the sentinel when it is empty.
pub open spec fn drawn_from_items(items: Seq<ItemView>, it: ItemView) -> bool {
    if items.len() == 0 {
        it == ItemView::empty()
    } else {
        exists|i: int| 0 <= i < items.len() && it == items[i]
    }
}

/// One random pick from `list`, each item equally likely; the sentinel empty
/// item if `list` is empty. Never consults the cache and never fails.
pub fn draw(list: &Vec<Item>) -> (r: Item)
    ensures
        drawn_from_items(list.deep_view(), r@),
{
    if list.len() == 0 {
        Item::empty()
    } else {
        let i = random_below(list.len());
        let picked = list[i].clone();
        proof {
            assert(picked@ == list.deep_view()[i as int]);
        }
        picked
    }
}

/// The same selection rule with the pick supplied by the caller, reduced
/// modulo the list's length: the injectable face of `draw`, so that a caller
/// with a seeded source can pin the exact outcome.
pub fn draw_at(list: &Vec<Item>, k: usize) -> (r: Item)
    ensures
        list.deep_view().len() == 0 ==> r@ == ItemView::empty(),
        list.deep_view().len() > 0 ==> r@ == list.deep_view()[k as int % list.deep_view().len() as int],
        drawn_from_items(list.deep_view(), r@),
{
    if list.len() == 0 {
        Item::empty()
    } else {
        let i = k % list.len();
        let picked = list[i].clone();
        proof {
            assert(picked@ == list.deep_view()[i as int]);
        }
        picked
    }
}

/// What a cache read yields: the frozen entry if one exists.
pub open spec fn spec_peek(cache: Map<Seq<char>, ItemView>, name: Seq<char>) -> Option<ItemView> {
    if cache.contains_key(name) {
        Some(cache[name])
    } else {
        None
    }
}

/// A per-list-name memo of a frozen random pick. An entry exists only while
/// frozen; absence means "recompute on next read". Stored items are snapshot
/// copies, never live references into a list.
pub struct SelectionCache {
    entries: StrMap<Item>,
}

impl View for SelectionCache {
    type V = Map<Seq<char>, ItemView>;

    closed spec fn view(&self) -> Map<Seq<char>, ItemView> {
        self.entries@
    }
}

impl SelectionCache {
    pub closed spec fn wf(&self) -> bool {
        self.entries.wf()
    }

    /// An empty cache: every list rerolls on read.
    pub fn new() -> (c: SelectionCache)
        ensures
            c.wf(),
            c@ == Map::<Seq<char>, ItemView>::empty(),
    {
        SelectionCache { entries: StrMap::new() }
    }

    /// Pins `item` for `name`, overwriting any earlier pin.
    pub fn freeze(&mut self, name: String, item: Item)
        requires
            old(self).wf(),
        ensures
            final(self).wf(),
            final(self)@ == old(self)@.insert(name@, item@),
    {
        self.entries.insert(name, item);
    }

    /// Releases the pin for `name` if there is one; no-op otherwise.
    pub fn thaw(&mut self, name: &String)
        requires
            old(self).wf(),
        ensures
            final(self).wf(),
            final(self)@ == old(self)@.remove(name@),
    {
        self.entries.remove(name);
    }

    /// Releases every pin.
    pub fn thaw_all(&mut self)
        ensures
            final(self).wf(),
            final(self)@ == Map::<Seq<char>, ItemView>::empty(),
    {
        self.entries.clear();
    }

    /// Reads the pin for `name` without drawing.
    pub fn peek(&self, name: &String) -> (r: Option<&Item>)
        requires
            self.wf(),
        ensures
            match r {
                Some(item) => spec_peek(self@, name@) == Some(item@),
                None => spec_peek(self@, name@) is None,
            },
    {
        self.entries.get(name)
    }

    /// Whether no pin at all is held.
    pub fn is_empty(&self) -> (b: bool)
        requires
            self.wf(),
        ensures
            b == (self@ == Map::<Seq<char>, ItemView>::empty()),
    {
        let n = self.entries.len();
        if n == 0 {
            proof {
                assert(self@ =~= Map::<Seq<char>, ItemView>::empty());
            }
            true
        } else {
            proof {
                crate::strmap::lemma_assoc_map_at(
                    self.entries.keys_seq(),
                    self.entries.vals_seq(),
                    0,
                );
            }
            false
        }
    }
}

} // verus!
