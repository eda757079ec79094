use vstd::prelude::*;
use vstd::pervasive::VecAdditionalExecFns;

use crate::item::{Field, Item, ItemView, with_field};
use crate::strmap::{StrMap, assoc_map, distinct_keys, key_index, lemma_key_index_works};

verus! {

/// The durable domain model: named lists of items, and named groups of
/// list-name references. Group membership allows duplicates; removing a
/// member removes every occurrence. Deleting a list scrubs its name from
/// every group.
pub struct State {
    pub lists: StrMap<Vec<Item>>,
    pub groups: StrMap<Vec<String>>,
}

/// The mathematical value of a `State`.
#[verifier::ext_equal]
pub ghost struct StateView {
    pub lists: Map<Seq<char>, Seq<ItemView>>,
    pub groups: Map<Seq<char>, Seq<Seq<char>>>,
}

impl StateView {
    pub open spec fn empty() -> StateView {
        StateView { lists: Map::empty(), groups: Map::empty() }
    }
}

impl View for State {
    type V = StateView;

    open spec fn view(&self) -> StateView {
        StateView { lists: self.lists@, groups: self.groups@ }
    }
}

/// Creation is idempotent: an absent name gets an empty entry, a present
/// name is left exactly as it was.
pub open spec fn created<T>(m: Map<Seq<char>, Seq<T>>, name: Seq<char>) -> Map<Seq<char>, Seq<T>> {
    if m.contains_key(name) {
        m
    } else {
        m.insert(name, Seq::empty())
    }
}

/// A member sequence with every occurrence of `name` removed, order of the
/// rest preserved.
pub open spec fn without_name(s: Seq<Seq<char>>, name: Seq<char>) -> Seq<Seq<char>>
    decreases s.len(),
{
    if s.len() == 0 {
        Seq::empty()
    } else {
        let rest = without_name(s.drop_last(), name);
        if s.last() == name {
            rest
        } else {
            rest.push(s.last())
        }
    }
}

/// Every group's membership with every occurrence of `name` removed.
pub open spec fn scrubbed(groups: Map<Seq<char>, Seq<Seq<char>>>, name: Seq<char>) -> Map<
    Seq<char>,
    Seq<Seq<char>>,
> {
    Map::new(|k: Seq<char>| groups.contains_key(k), |k: Seq<char>| without_name(groups[k], name))
}

/// `without_name` removes every occurrence: nothing left equals `name`, and
/// everything else survives in order.
pub proof fn lemma_without_name_removes_all(s: Seq<Seq<char>>, name: Seq<char>)
    ensures
        !without_name(s, name).contains(name),
        forall|i: int|
            0 <= i < without_name(s, name).len() ==> #[trigger] without_name(s, name)[i] != name,
    decreases s.len(),
{
    if s.len() > 0 {
        lemma_without_name_removes_all(s.drop_last(), name);
        let rest = without_name(s.drop_last(), name);
        if s.last() != name {
            assert forall|i: int| 0 <= i < rest.push(s.last()).len() implies #[trigger] rest.push(
                s.last(),
            )[i] != name by {
                if i < rest.len() {
                    assert(rest.push(s.last())[i] == rest[i]);
                }
            }
        }
    }
    let out = without_name(s, name);
    if out.contains(name) {
        let i = choose|i: int| 0 <= i < out.len() && out[i] == name;
        assert(out[i] != name);
    }
}

/// Pointwise scrubbing of the stored values is scrubbing of the map.
proof fn lemma_scrub_map(
    ks: Seq<Seq<char>>,
    vs1: Seq<Seq<Seq<char>>>,
    vs2: Seq<Seq<Seq<char>>>,
    name: Seq<char>,
)
    requires
        distinct_keys(ks),
        ks.len() == vs1.len(),
        vs1.len() == vs2.len(),
        forall|j: int| 0 <= j < vs1.len() ==> vs2[j] == without_name(#[trigger] vs1[j], name),
    ensures
        assoc_map(ks, vs2) == scrubbed(assoc_map(ks, vs1), name),
{
    let m1 = assoc_map(ks, vs2);
    let m2 = scrubbed(assoc_map(ks, vs1), name);
    assert(m1.dom() =~= m2.dom());
    assert forall|k: Seq<char>| m1.dom().contains(k) implies m1[k] == m2[k] by {
        lemma_key_index_works(ks, k);
        let j = key_index(ks, k);
        assert(assoc_map(ks, vs1)[k] == vs1[j]);
        assert(m1[k] == vs2[j]);
    }
    assert(m1 =~= m2);
}

/// Copies a vector of items, value for value.
fn clone_items(v: &Vec<Item>) -> (r: Vec<Item>)
    ensures
        r.deep_view() == v.deep_view(),
        r@.len() == v@.len(),
{
    let mut r: Vec<Item> = Vec::new();
    let mut i: usize = 0;
    while i < v.len()
        invariant
            i <= v@.len(),
            r.deep_view().len() == i,
            forall|j: int| 0 <= j < i ==> r.deep_view()[j] == v.deep_view()[j],
        decreases v@.len() - i,
    {
        r.push(v[i].clone());
        i = i + 1;
    }
    proof {
        assert(r.deep_view() =~= v.deep_view());
    }
    r
}

/// Copies a vector of names, value for value.
fn clone_names(v: &Vec<String>) -> (r: Vec<String>)
    ensures
        r.deep_view() == v.deep_view(),
        r@.len() == v@.len(),
{
    let mut r: Vec<String> = Vec::new();
    let mut i: usize = 0;
    while i < v.len()
        invariant
            i <= v@.len(),
            r.deep_view().len() == i,
            forall|j: int| 0 <= j < i ==> r.deep_view()[j] == v.deep_view()[j],
        decreases v@.len() - i,
    {
        r.push(v[i].clone());
        i = i + 1;
    }
    proof {
        assert(r.deep_view() =~= v.deep_view());
    }
    r
}

/// The members of `v` that are not `name`, in order.
fn kept_members(v: &Vec<String>, name: &String) -> (r: Vec<String>)
    ensures
        r.deep_view() == without_name(v.deep_view(), name@),
{
    let mut r: Vec<String> = Vec::new();
    let mut i: usize = 0;
    while i < v.len()
        invariant
            i <= v@.len(),
            r.deep_view() == without_name(v.deep_view().take(i as int), name@),
        decreases v@.len() - i,
    {
        let ghost pre = r.deep_view();
        let ghost dv = v.deep_view();
        if !v[i].eq(name) {
            r.push(v[i].clone());
            proof {
                assert(r.deep_view() =~= pre.push(dv[i as int]));
            }
        }
        proof {
            assert(dv.take(i + 1).drop_last() =~= dv.take(i as int));
            assert(dv.take(i + 1).last() == dv[i as int]);
        }
        i = i + 1;
    }
    proof {
        assert(v.deep_view().take(v@.len() as int) =~= v.deep_view());
    }
    r
}

impl State {
    /// Well-formed: both maps keep each name at most once.
    pub open spec fn wf(&self) -> bool {
        &&& self.lists.wf()
        &&& self.groups.wf()
    }

    /// The empty state: no lists, no groups.
    pub fn new() -> (s: State)
        ensures
            s.wf(),
            s@ == StateView::empty(),
            s.lists.keys_seq().len() == 0,
            s.groups.keys_seq().len() == 0,
    {
        let s = State { lists: StrMap::new(), groups: StrMap::new() };
        proof {
            assert(s@ =~~= StateView::empty());
        }
        s
    }

    /// Inserts an empty list at `name` if absent; idempotent, always succeeds.
    pub fn create_list(&mut self, name: String)
        requires
            old(self).wf(),
        ensures
            final(self).wf(),
            final(self)@.lists == created(old(self)@.lists, name@),
            final(self)@.groups == old(self)@.groups,
            old(self)@.lists.contains_key(name@) ==> final(self).lists.keys_seq() == old(
                self,
            ).lists.keys_seq(),
            !old(self)@.lists.contains_key(name@) ==> final(self).lists.keys_seq() == old(
                self,
            ).lists.keys_seq().push(name@),
    {
        if !self.lists.contains_key(&name) {
            let fresh: Vec<Item> = Vec::new();
            proof {
                assert(fresh.deep_view() =~= Seq::<ItemView>::empty());
            }
            self.lists.insert(name, fresh);
        }
    }

    /// Inserts an empty group at `name` if absent; idempotent, always succeeds.
    pub fn create_group(&mut self, name: String)
        requires
            old(self).wf(),
        ensures
            final(self).wf(),
            final(self)@.groups == created(old(self)@.groups, name@),
            final(self)@.lists == old(self)@.lists,
            old(self)@.groups.contains_key(name@) ==> final(self).groups.keys_seq() == old(
                self,
            ).groups.keys_seq(),
            !old(self)@.groups.contains_key(name@) ==> final(self).groups.keys_seq() == old(
                self,
            ).groups.keys_seq().push(name@),
    {
        if !self.groups.contains_key(&name) {
            let fresh: Vec<String> = Vec::new();
            proof {
                assert(fresh.deep_view() =~= Seq::<Seq<char>>::empty());
            }
            self.groups.insert(name, fresh);
        }
    }

    /// Appends a default (all-fields-empty) item to the named list and
    /// returns its index; no-op, returning `None`, if the list is absent.
    pub fn add_item(&mut self, list_name: &String) -> (r: Option<usize>)
        requires
            old(self).wf(),
        ensures
            final(self).wf(),
            final(self)@.groups == old(self)@.groups,
            match r {
                Some(i) => {
                    &&& old(self)@.lists.contains_key(list_name@)
                    &&& i == old(self)@.lists[list_name@].len()
                    &&& final(self)@.lists == old(self)@.lists.insert(
                        list_name@,
                        old(self)@.lists[list_name@].push(ItemView::empty()),
                    )
                },
                None => {
                    &&& !old(self)@.lists.contains_key(list_name@)
                    &&& final(self)@ == old(self)@
                },
            },
    {
        let found = self.lists.get(list_name);
        match found {
            Some(items) => {
                let n = items.len();
                let mut new_items = clone_items(items);
                new_items.push(Item::empty());
                proof {
                    assert(new_items.deep_view() =~= old(self)@.lists[list_name@].push(
                        ItemView::empty(),
                    ));
                }
                self.lists.insert(list_name.clone(), new_items);
                Some(n)
            },
            None => None,
        }
    }

    /// Sets one field of one item to (normalized) `text`; no-op if the list
    /// or the index is invalid.
    pub fn edit_item(&mut self, list_name: &String, idx: usize, field: Field, text: String)
        requires
            old(self).wf(),
        ensures
            final(self).wf(),
            ({
                let pre = old(self)@;
                if pre.lists.contains_key(list_name@) && idx < pre.lists[list_name@].len() {
                    &&& final(self)@.lists == pre.lists.insert(
                        list_name@,
                        pre.lists[list_name@].update(
                            idx as int,
                            with_field(pre.lists[list_name@][idx as int], field, text@),
                        ),
                    )
                    &&& final(self)@.groups == pre.groups
                } else {
                    final(self)@ == pre
                }
            }),
    {
        let found = self.lists.get(list_name);
        match found {
            Some(items) => {
                if idx < items.len() {
                    let mut new_items = clone_items(items);
                    let mut edited = new_items[idx].clone();
                    edited.set_field(field, text);
                    new_items.set(idx, edited);
                    proof {
                        assert(new_items.deep_view() =~= old(self)@.lists[list_name@].update(
                            idx as int,
                            with_field(old(self)@.lists[list_name@][idx as int], field, text@),
                        ));
                    }
                    self.lists.insert(list_name.clone(), new_items);
                }
            },
            None => {},
        }
    }

    /// Removes the item at `idx` by position; later items shift down by one.
    /// No-op if the list or the index is invalid.
    pub fn remove_item(&mut self, list_name: &String, idx: usize) -> (removed: bool)
        requires
            old(self).wf(),
        ensures
            final(self).wf(),
            removed == (old(self)@.lists.contains_key(list_name@) && idx < old(
                self,
            )@.lists[list_name@].len()),
            ({
                let pre = old(self)@;
                if pre.lists.contains_key(list_name@) && idx < pre.lists[list_name@].len() {
                    &&& final(self)@.lists == pre.lists.insert(
                        list_name@,
                        pre.lists[list_name@].remove(idx as int),
                    )
                    &&& final(self)@.groups == pre.groups
                } else {
                    final(self)@ == pre
                }
            }),
    {
        let found = self.lists.get(list_name);
        match found {
            Some(items) => {
                if idx < items.len() {
                    let mut new_items = clone_items(items);
                    new_items.remove(idx);
                    proof {
                        assert(new_items.deep_view() =~= old(self)@.lists[list_name@].remove(
                            idx as int,
                        ));
                    }
                    self.lists.insert(list_name.clone(), new_items);
                    true
                } else {
                    false
                }
            },
            None => false,
        }
    }

    /// Removes the named list. If it existed, also removes every occurrence
    /// of its name from every group's membership, and reports `true`.
    pub fn remove_list(&mut self, name: &String) -> (removed: bool)
        requires
            old(self).wf(),
        ensures
            final(self).wf(),
            removed == old(self)@.lists.contains_key(name@),
            if removed {
                final(self)@.lists == old(self)@.lists.remove(name@) && final(self)@.groups
                    == scrubbed(old(self)@.groups, name@)
            } else {
                final(self)@ == old(self)@
            },
    {
        let was = self.lists.remove(name);
        if was {
            let ghost lists_now = self.lists;
            let ghost gks = self.groups.keys_seq();
            let ghost gvs = self.groups.vals_seq();
            let n = self.groups.len();
            let mut i: usize = 0;
            while i < n
                invariant
                    self.groups.wf(),
                    n == self.groups.keys_seq().len(),
                    i <= n,
                    self.groups.keys_seq() == gks,
                    self.groups.vals_seq().len() == gvs.len(),
                    gks.len() == gvs.len(),
                    forall|j: int|
                        0 <= j < i ==> self.groups.vals_seq()[j] == without_name(
                            #[trigger] gvs[j],
                            name@,
                        ),
                    forall|j: int| i <= j < n ==> self.groups.vals_seq()[j] == #[trigger] gvs[j],
                    self.lists == lists_now,
                decreases n - i,
            {
                let filtered = kept_members(self.groups.value_at(i), name);
                self.groups.replace_value_at(i, filtered);
                i = i + 1;
            }
            proof {
                lemma_scrub_map(gks, gvs, self.groups.vals_seq(), name@);
            }
        } else {
            proof {
                assert(final(self)@ =~~= old(self)@);
            }
        }
        was
    }

    /// Removes the named group; lists are untouched (groups do not own lists).
    pub fn remove_group(&mut self, name: &String) -> (removed: bool)
        requires
            old(self).wf(),
        ensures
            final(self).wf(),
            removed == old(self)@.groups.contains_key(name@),
            final(self)@.groups == old(self)@.groups.remove(name@),
            final(self)@.lists == old(self)@.lists,
    {
        self.groups.remove(name)
    }

    /// Appends `member` to the named group's membership, duplicates allowed;
    /// no-op if the group is absent.
    pub fn add_group_member(&mut self, group: &String, member: String)
        requires
            old(self).wf(),
        ensures
            final(self).wf(),
            final(self)@.lists == old(self)@.lists,
            if old(self)@.groups.contains_key(group@) {
                final(self)@.groups == old(self)@.groups.insert(
                    group@,
                    old(self)@.groups[group@].push(member@),
                )
            } else {
                final(self)@ == old(self)@
            },
    {
        let found = self.groups.get(group);
        match found {
            Some(members) => {
                let mut new_members = clone_names(members);
                new_members.push(member);
                proof {
                    assert(new_members.deep_view() =~= old(self)@.groups[group@].push(member@));
                }
                self.groups.insert(group.clone(), new_members);
            },
            None => {},
        }
    }

    /// Removes every occurrence of `member` from the named group's
    /// membership; no-op if the group is absent.
    pub fn remove_group_member(&mut self, group: &String, member: &String)
        requires
            old(self).wf(),
        ensures
            final(self).wf(),
            final(self)@.lists == old(self)@.lists,
            if old(self)@.groups.contains_key(group@) {
                final(self)@.groups == old(self)@.groups.insert(
                    group@,
                    without_name(old(self)@.groups[group@], member@),
                )
            } else {
                final(self)@ == old(self)@
            },
    {
        let found = self.groups.get(group);
        match found {
            Some(members) => {
                let filtered = kept_members(members, member);
                self.groups.insert(group.clone(), filtered);
            },
            None => {},
        }
    }

    /// Clears both maps.
    pub fn purge(&mut self)
        ensures
            final(self).wf(),
            final(self)@ == StateView::empty(),
    {
        self.lists.clear();
        self.groups.clear();
        proof {
            assert(final(self)@ =~~= StateView::empty());
        }
    }
}

} // verus!
