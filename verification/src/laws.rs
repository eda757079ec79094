use vstd::prelude::*;

use crate::cache::spec_peek;
use crate::engine::{AppView, drawn_from, removed_item};
use crate::item::ItemView;
use crate::state::{created, lemma_without_name_removes_all, scrubbed, without_name};

verus! {

/// Creating a name twice leaves exactly what one creation left: creation is
/// idempotent, so there is never more than one entry under a name.
pub proof fn law_create_idempotent<T>(m: Map<Seq<char>, Seq<T>>, name: Seq<char>)
    ensures
        created(created(m, name), name) == created(m, name),
        created(m, name).contains_key(name),
{
}

/// Deleting a list removes it from the lists and removes every occurrence of
/// its name from every group's membership — also from groups that held the
/// name more than once — while no group itself disappears.
pub proof fn law_remove_list_scrubs(
    lists: Map<Seq<char>, Seq<ItemView>>,
    groups: Map<Seq<char>, Seq<Seq<char>>>,
    name: Seq<char>,
)
    ensures
        !lists.remove(name).contains_key(name),
        scrubbed(groups, name).dom() == groups.dom(),
        forall|g: Seq<char>|
            scrubbed(groups, name).contains_key(g) ==> !#[trigger] scrubbed(groups, name)[g].contains(
                name,
            ),
{
    assert(scrubbed(groups, name).dom() =~= groups.dom());
    assert forall|g: Seq<char>|
        scrubbed(groups, name).contains_key(g) implies !#[trigger] scrubbed(groups, name)[g].contains(
        name,
    ) by {
        lemma_without_name_removes_all(groups[g], name);
    }
}

/// A draw against an absent or empty list can only yield the sentinel empty
/// item; it never fails.
pub proof fn law_draw_sentinel(
    lists: Map<Seq<char>, Seq<ItemView>>,
    name: Seq<char>,
    it: ItemView,
)
    requires
        drawn_from(lists, name, it),
        !lists.contains_key(name) || lists[name].len() == 0,
    ensures
        it == ItemView::empty(),
{
}

/// After `freeze(name, item)`, `peek(name)` returns exactly `item`.
pub proof fn law_freeze_then_peek(
    cache: Map<Seq<char>, ItemView>,
    name: Seq<char>,
    item: ItemView,
)
    ensures
        spec_peek(cache.insert(name, item), name) == Some(item),
{
}

/// After `thaw(name)`, `peek(name)` returns nothing.
pub proof fn law_thaw_then_peek(cache: Map<Seq<char>, ItemView>, name: Seq<char>)
    ensures
        spec_peek(cache.remove(name), name) is None,
{
}

/// Removing the item at index `i` from a list of length `L` keeps earlier
/// items in place and shifts every item at an index above `i` down by one.
pub proof fn law_remove_item_shifts(items: Seq<ItemView>, i: int)
    requires
        0 <= i < items.len(),
    ensures
        items.remove(i).len() == items.len() - 1,
        forall|j: int| 0 <= j < i ==> items.remove(i)[j] == items[j],
        forall|j: int| i <= j < items.len() - 1 ==> items.remove(i)[j] == items[j + 1],
{
}

/// Removing the item the focus points at clears the focus, and whatever
/// focus survives a removal still lies inside the shortened list: the engine
/// never leaves the item focus dangling past a removal.
pub proof fn law_removed_focus_valid(pre: AppView, idx: usize)
    requires
        pre.lists.contains_key(pre.current_list),
        idx < pre.lists[pre.current_list].len(),
        match pre.current_item {
            Some(j) => j >= 0,
            None => true,
        },
    ensures
        removed_item(pre, idx as int).current_item != Some(idx as int),
        match removed_item(pre, idx as int).current_item {
            Some(j) => {
                let post = removed_item(pre, idx as int);
                0 <= j < post.lists[post.current_list].len()
            },
            None => true,
        },
{
}

/// Removing a group member removes every occurrence of that name, so a
/// membership scrubbed of `member` never still contains it.
pub proof fn law_remove_member_removes_all(members: Seq<Seq<char>>, member: Seq<char>)
    ensures
        !without_name(members, member).contains(member),
{
    lemma_without_name_removes_all(members, member);
}

} // verus!
