use vstd::prelude::*;

use crate::cache::{SelectionCache, draw, drawn_from_items, spec_peek};
use crate::item::{Field, Item, ItemView, with_field};
use crate::state::{State, created, scrubbed, without_name};

verus! {

/// Transient per-session state: focus, staged name buffers, and the
/// selection cache. Not part of the durable snapshot.
pub struct ViewState {
    pub current_list: String,
    pub new_list_name: String,
    pub current_group: String,
    pub new_group_name: String,
    pub cache: SelectionCache,
    pub current_item: Option<usize>,
}

impl ViewState {
    /// A fresh session view focused on the given list and group names, with
    /// empty name buffers, an empty cache and no item focus.
    pub fn new(current_list: String, current_group: String) -> (v: ViewState)
        ensures
            v.cache.wf(),
            v.current_list == current_list,
            v.current_group == current_group,
            v.new_list_name@ == Seq::<char>::empty(),
            v.new_group_name@ == Seq::<char>::empty(),
            v.cache@ == Map::<Seq<char>, ItemView>::empty(),
            v.current_item == None::<usize>,
    {
        ViewState {
            current_list,
            new_list_name: String::new(),
            current_group,
            new_group_name: String::new(),
            cache: SelectionCache::new(),
            current_item: None,
        }
    }
}

/// One discrete intent, dispatched by `App::update`.
pub enum Msg {
    CreateItem,
    EditItemName(String),
    EditItemImage(String),
    EditItemLink(String),
    EditItemComment(String),
    FocusItem(usize),
    BlurItem,
    CreateList,
    FocusList(String),
    BlurList,
    UpdateListName(String),
    RemoveList(String),
    RemoveListItem(usize),
    CreateGroup,
    FocusGroup(String),
    BlurGroup,
    AddToGroup(String),
    UpdateGroupName(String),
    RemoveGroup(String),
    RemoveGroupItem(String),
    ThawAllLists,
    FreezeList(String),
    ThawList(String),
    Purge,
    Tick,
    Nothing,
}

/// The combined engine: the durable state and the transient session view.
pub struct App {
    pub state: State,
    pub view: ViewState,
}

/// The mathematical value of the whole engine.
#[verifier::ext_equal]
pub ghost struct AppView {
    pub lists: Map<Seq<char>, Seq<ItemView>>,
    pub groups: Map<Seq<char>, Seq<Seq<char>>>,
    pub current_list: Seq<char>,
    pub new_list_name: Seq<char>,
    pub current_group: Seq<char>,
    pub new_group_name: Seq<char>,
    pub cache: Map<Seq<char>, ItemView>,
    pub current_item: Option<int>,
}

pub open spec fn opt_index_view(o: Option<usize>) -> Option<int> {
    match o {
        Some(i) => Some(i as int),
        None => None,
    }
}

impl View for App {
    type V = AppView;

    open spec fn view(&self) -> AppView {
        AppView {
            lists: self.state@.lists,
            groups: self.state@.groups,
            current_list: self.view.current_list@,
            new_list_name: self.view.new_list_name@,
            current_group: self.view.current_group@,
            new_group_name: self.view.new_group_name@,
            cache: self.view.cache@,
            current_item: opt_index_view(self.view.current_item),
        }
    }
}

/// Which item values a draw against list `name` may yield: any item of the
/// list when it exists and is non-empty, and only the sentinel otherwise.
pub open spec fn drawn_from(
    lists: Map<Seq<char>, Seq<ItemView>>,
    name: Seq<char>,
    it: ItemView,
) -> bool {
    if lists.contains_key(name) {
        drawn_from_items(lists[name], it)
    } else {
        it == ItemView::empty()
    }
}

/// Whether the current-item focus points at an existing item of the current
/// list. Focus is an index and may silently go stale; every read path checks
/// this rather than following it blindly.
pub open spec fn has_current_item(v: AppView) -> bool {
    match v.current_item {
        Some(j) => v.lists.contains_key(v.current_list) && 0 <= j < v.lists[v.current_list].len(),
        None => false,
    }
}

/// The engine after one field edit against the current focus; untouched when
/// the focus does not point at an existing item.
pub open spec fn edited_item(pre: AppView, field: Field, text: Seq<char>) -> AppView {
    if has_current_item(pre) {
        let idx = pre.current_item->Some_0;
        AppView {
            lists: pre.lists.insert(
                pre.current_list,
                pre.lists[pre.current_list].update(
                    idx,
                    with_field(pre.lists[pre.current_list][idx], field, text),
                ),
            ),
            ..pre
        }
    } else {
        pre
    }
}

/// The engine after removing the item at `idx` from the current list: later
/// items shift down by one, and an item focus that named the removed slot or
/// now lies outside the list is cleared rather than left dangling.
pub open spec fn removed_item(pre: AppView, idx: int) -> AppView {
    if pre.lists.contains_key(pre.current_list) && 0 <= idx < pre.lists[pre.current_list].len() {
        let new_len = pre.lists[pre.current_list].len() - 1;
        AppView {
            lists: pre.lists.insert(pre.current_list, pre.lists[pre.current_list].remove(idx)),
            current_item: match pre.current_item {
                Some(j) => if j == idx || j >= new_len {
                    None
                } else {
                    Some(j)
                },
                None => None,
            },
            ..pre
        }
    } else {
        pre
    }
}

/// The engine after every deterministic message. `FreezeList` involves a
/// random draw and is specified separately, by `App::update`'s contract;
/// here it leaves the state unchanged.
pub open spec fn step(pre: AppView, msg: Msg, confirmed: bool) -> AppView {
    match msg {
        Msg::CreateList => AppView {
            lists: created(pre.lists, pre.new_list_name),
            current_list: pre.new_list_name,
            new_list_name: Seq::empty(),
            ..pre
        },
        Msg::CreateGroup => AppView {
            groups: created(pre.groups, pre.new_group_name),
            current_group: pre.new_group_name,
            new_group_name: Seq::empty(),
            ..pre
        },
        Msg::FocusList(name) => AppView { current_list: name@, ..pre },
        Msg::FocusGroup(name) => AppView { current_group: name@, ..pre },
        Msg::BlurList => AppView { current_list: Seq::empty(), current_item: None, ..pre },
        Msg::BlurGroup => AppView { current_group: Seq::empty(), ..pre },
        Msg::CreateItem => if pre.lists.contains_key(pre.current_list) {
            AppView {
                lists: pre.lists.insert(
                    pre.current_list,
                    pre.lists[pre.current_list].push(ItemView::empty()),
                ),
                current_item: Some(pre.lists[pre.current_list].len() as int),
                ..pre
            }
        } else {
            AppView { current_item: None, ..pre }
        },
        Msg::FocusItem(idx) => AppView { current_item: Some(idx as int), ..pre },
        Msg::BlurItem => AppView { current_item: None, ..pre },
        Msg::AddToGroup(entry) => if pre.groups.contains_key(pre.current_group) {
            AppView {
                groups: pre.groups.insert(
                    pre.current_group,
                    pre.groups[pre.current_group].push(entry@),
                ),
                ..pre
            }
        } else {
            pre
        },
        Msg::UpdateListName(text) => AppView { new_list_name: text@, ..pre },
        Msg::UpdateGroupName(text) => AppView { new_group_name: text@, ..pre },
        Msg::EditItemName(text) => edited_item(pre, Field::Name, text@),
        Msg::EditItemImage(text) => edited_item(pre, Field::Image, text@),
        Msg::EditItemLink(text) => edited_item(pre, Field::Link, text@),
        Msg::EditItemComment(text) => edited_item(pre, Field::Comment, text@),
        Msg::RemoveList(name) => if confirmed && pre.lists.contains_key(name@) {
            AppView {
                lists: pre.lists.remove(name@),
                groups: scrubbed(pre.groups, name@),
                ..pre
            }
        } else {
            pre
        },
        Msg::RemoveListItem(idx) => removed_item(pre, idx as int),
        Msg::RemoveGroup(name) => if confirmed {
            AppView { groups: pre.groups.remove(name@), ..pre }
        } else {
            pre
        },
        Msg::RemoveGroupItem(name) => if pre.groups.contains_key(pre.current_group) {
            AppView {
                groups: pre.groups.insert(
                    pre.current_group,
                    without_name(pre.groups[pre.current_group], name@),
                ),
                ..pre
            }
        } else {
            pre
        },
        Msg::FreezeList(_) => pre,
        Msg::ThawList(name) => AppView { cache: pre.cache.remove(name@), ..pre },
        Msg::ThawAllLists => AppView { cache: Map::empty(), ..pre },
        Msg::Purge => if confirmed {
            AppView {
                lists: Map::empty(),
                groups: Map::empty(),
                current_list: Seq::empty(),
                new_list_name: Seq::empty(),
                current_group: Seq::empty(),
                new_group_name: Seq::empty(),
                cache: Map::empty(),
                current_item: None,
            }
        } else {
            pre
        },
        Msg::Tick => pre,
        Msg::Nothing => pre,
    }
}

/// Whether a message is gated behind a yes/no confirmation before it takes
/// effect.
pub open spec fn msg_needs_confirmation(msg: Msg) -> bool {
    match msg {
        Msg::RemoveList(_) => true,
        Msg::RemoveGroup(_) => true,
        Msg::Purge => true,
        _ => false,
    }
}

/// Destructive messages ask first. The caller puts the question to its
/// confirmation capability and hands the answer to `update`; for any other
/// message the answer is ignored.
pub fn needs_confirmation(msg: &Msg) -> (b: bool)
    ensures
        b == msg_needs_confirmation(*msg),
{
    match msg {
        Msg::RemoveList(_) => true,
        Msg::RemoveGroup(_) => true,
        Msg::Purge => true,
        _ => false,
    }
}

impl App {
    pub open spec fn wf(&self) -> bool {
        &&& self.state.wf()
        &&& self.view.cache.wf()
    }

    /// Builds a session around a restored (or fresh) state: focus starts on
    /// the first list and the first group in storage order, when there are
    /// any; buffers, cache and item focus start empty.
    pub fn create(state: State) -> (app: App)
        requires
            state.wf(),
        ensures
            app.wf(),
            app@.lists == state@.lists,
            app@.groups == state@.groups,
            app@.cache == Map::<Seq<char>, ItemView>::empty(),
            app@.new_list_name == Seq::<char>::empty(),
            app@.new_group_name == Seq::<char>::empty(),
            app@.current_item is None,
            app@.current_list == if state.lists.keys_seq().len() > 0 {
                state.lists.keys_seq()[0]
            } else {
                Seq::<char>::empty()
            },
            app@.current_group == if state.groups.keys_seq().len() > 0 {
                state.groups.keys_seq()[0]
            } else {
                Seq::<char>::empty()
            },
    {
        let current_list = if state.lists.len() > 0 {
            state.lists.key_at(0).clone()
        } else {
            String::new()
        };
        let current_group = if state.groups.len() > 0 {
            state.groups.key_at(0).clone()
        } else {
            String::new()
        };
        App { view: ViewState::new(current_list, current_group), state }
    }

    /// The current list, when the list focus names one.
    pub fn get_current_list(&self) -> (r: Option<&Vec<Item>>)
        requires
            self.wf(),
        ensures
            match r {
                Some(items) => self@.lists.contains_key(self@.current_list) && items.deep_view()
                    == self@.lists[self@.current_list],
                None => !self@.lists.contains_key(self@.current_list),
            },
    {
        self.state.lists.get(&self.view.current_list)
    }

    /// The focused item with its index, after re-validating the focus
    /// against the current list's bounds.
    pub fn get_current_index_and_item(&self) -> (r: Option<(usize, &Item)>)
        requires
            self.wf(),
        ensures
            match r {
                Some(p) => {
                    &&& has_current_item(self@)
                    &&& self@.current_item == Some(p.0 as int)
                    &&& p.1@ == self@.lists[self@.current_list][p.0 as int]
                },
                None => !has_current_item(self@),
            },
    {
        match self.view.current_item {
            Some(idx) => match self.state.lists.get(&self.view.current_list) {
                Some(items) => if idx < items.len() {
                    Some((idx, &items[idx]))
                } else {
                    None
                },
                None => None,
            },
            None => None,
        }
    }

    /// One fresh random pick against list `name`: any of its items when it
    /// exists and has items, the sentinel empty item otherwise. Never fails.
    pub fn choose_from_list(&self, name: &String) -> (r: Item)
        requires
            self.wf(),
        ensures
            drawn_from(self@.lists, name@, r@),
    {
        match self.state.lists.get(name) {
            Some(items) => draw(items),
            None => Item::empty(),
        }
    }

    /// The read-path policy for one group member: a frozen pick is returned
    /// as-is (and marked stable) while its list still exists; with no pin,
    /// or with a pin orphaned by list deletion, a fresh draw is made.
    pub fn display_choice(&self, name: &String) -> (r: (Item, bool))
        requires
            self.wf(),
        ensures
            r.1 == (self@.lists.contains_key(name@) && self@.cache.contains_key(name@)),
            r.1 ==> spec_peek(self@.cache, name@) == Some(r.0@),
            !r.1 ==> drawn_from(self@.lists, name@, r.0@),
    {
        if self.state.lists.contains_key(name) {
            match self.view.cache.peek(name) {
                Some(item) => (item.clone(), true),
                None => (self.choose_from_list(name), false),
            }
        } else {
            (Item::empty(), false)
        }
    }

    /// Dispatches one message: mutates the state, the cache and the focus as
    /// the message demands, and reports that the caller should re-render and
    /// persist a fresh snapshot. Destructive messages take effect only with
    /// `confirmed`; a declined confirmation is the user's explicit no-op.
    pub fn update(&mut self, msg: Msg, confirmed: bool) -> (render: bool)
        requires
            old(self).wf(),
        ensures
            final(self).wf(),
            render,
            match msg {
                Msg::FreezeList(name) => exists|it: ItemView|
                    drawn_from(old(self)@.lists, name@, it) && final(self)@ == (AppView {
                        cache: old(self)@.cache.insert(name@, it),
                        ..old(self)@
                    }),
                _ => final(self)@ == step(old(self)@, msg, confirmed),
            },
    {
        let ghost m = msg;
        let ghost pre = self@;
        match msg {
            Msg::CreateList => {
                let name = self.view.new_list_name.clone();
                self.view.new_list_name = String::new();
                self.view.current_list = name.clone();
                self.state.create_list(name);
                proof {
                    assert(self@ =~~= step(pre, m, confirmed));
                }
            },
            Msg::CreateGroup => {
                let name = self.view.new_group_name.clone();
                self.view.new_group_name = String::new();
                self.view.current_group = name.clone();
                self.state.create_group(name);
                proof {
                    assert(self@ =~~= step(pre, m, confirmed));
                }
            },
            Msg::FocusList(name) => {
                self.view.current_list = name;
                proof {
                    assert(self@ =~~= step(pre, m, confirmed));
                }
            },
            Msg::FocusGroup(name) => {
                self.view.current_group = name;
                proof {
                    assert(self@ =~~= step(pre, m, confirmed));
                }
            },
            Msg::BlurList => {
                self.view.current_list = String::new();
                self.view.current_item = None;
                proof {
                    assert(self@ =~~= step(pre, m, confirmed));
                }
            },
            Msg::BlurGroup => {
                self.view.current_group = String::new();
                proof {
                    assert(self@ =~~= step(pre, m, confirmed));
                }
            },
            Msg::CreateItem => {
                let added = self.state.add_item(&self.view.current_list);
                self.view.current_item = added;
                proof {
                    assert(self@ =~~= step(pre, m, confirmed));
                }
            },
            Msg::FocusItem(idx) => {
                self.view.current_item = Some(idx);
                proof {
                    assert(self@ =~~= step(pre, m, confirmed));
                }
            },
            Msg::BlurItem => {
                self.view.current_item = None;
                proof {
                    assert(self@ =~~= step(pre, m, confirmed));
                }
            },
            Msg::AddToGroup(entry) => {
                self.state.add_group_member(&self.view.current_group, entry);
                proof {
                    assert(self@ =~~= step(pre, m, confirmed));
                }
            },
            Msg::UpdateListName(text) => {
                self.view.new_list_name = text;
                proof {
                    assert(self@ =~~= step(pre, m, confirmed));
                }
            },
            Msg::UpdateGroupName(text) => {
                self.view.new_group_name = text;
                proof {
                    assert(self@ =~~= step(pre, m, confirmed));
                }
            },
            Msg::EditItemName(text) => {
                self.edit_current(Field::Name, text);
                proof {
                    assert(self@ =~~= step(pre, m, confirmed));
                }
            },
            Msg::EditItemImage(text) => {
                self.edit_current(Field::Image, text);
                proof {
                    assert(self@ =~~= step(pre, m, confirmed));
                }
            },
            Msg::EditItemLink(text) => {
                self.edit_current(Field::Link, text);
                proof {
                    assert(self@ =~~= step(pre, m, confirmed));
                }
            },
            Msg::EditItemComment(text) => {
                self.edit_current(Field::Comment, text);
                proof {
                    assert(self@ =~~= step(pre, m, confirmed));
                }
            },
            Msg::RemoveList(name) => {
                if confirmed {
                    self.state.remove_list(&name);
                }
                proof {
                    assert(self@ =~~= step(pre, m, confirmed));
                }
            },
            Msg::RemoveListItem(idx) => {
                let removed = self.state.remove_item(&self.view.current_list, idx);
                if removed {
                    let new_len = match self.state.lists.get(&self.view.current_list) {
                        Some(items) => {
                            proof {
                                assert(items.deep_view().len() == items@.len());
                            }
                            items.len()
                        },
                        None => 0,
                    };
                    proof {
                        assert(self@.lists.contains_key(pre.current_list));
                        assert(new_len == pre.lists[pre.current_list].len() - 1);
                    }
                    match self.view.current_item {
                        Some(j) => {
                            if j == idx || j >= new_len {
                                self.view.current_item = None;
                            }
                        },
                        None => {},
                    }
                }
                proof {
                    assert(self@ =~~= step(pre, m, confirmed));
                }
            },
            Msg::RemoveGroup(name) => {
                if confirmed {
                    self.state.remove_group(&name);
                }
                proof {
                    assert(self@ =~~= step(pre, m, confirmed));
                }
            },
            Msg::RemoveGroupItem(name) => {
                self.state.remove_group_member(&self.view.current_group, &name);
                proof {
                    assert(self@ =~~= step(pre, m, confirmed));
                }
            },
            Msg::ThawAllLists => {
                self.view.cache.thaw_all();
                proof {
                    assert(self@ =~~= step(pre, m, confirmed));
                }
            },
            Msg::FreezeList(name) => {
                let ghost nm = name@;
                let item = self.choose_from_list(&name);
                let ghost itv = item@;
                self.view.cache.freeze(name, item);
                proof {
                    assert(self@ =~~= (AppView { cache: pre.cache.insert(nm, itv), ..pre }));
                    assert(exists|it: ItemView|
                        drawn_from(pre.lists, nm, it) && self@ == (AppView {
                            cache: pre.cache.insert(nm, it),
                            ..pre
                        })) by {
                        assert(drawn_from(pre.lists, nm, itv) && self@ == (AppView {
                            cache: pre.cache.insert(nm, itv),
                            ..pre
                        }));
                    }
                }
            },
            Msg::ThawList(name) => {
                self.view.cache.thaw(&name);
                proof {
                    assert(self@ =~~= step(pre, m, confirmed));
                }
            },
            Msg::Purge => {
                if confirmed {
                    self.state.purge();
                    self.view = ViewState::new(String::new(), String::new());
                }
                proof {
                    assert(self@ =~~= step(pre, m, confirmed));
                }
            },
            Msg::Tick => {},
            Msg::Nothing => {},
        }
        true
    }

    /// One field edit against the current focus, shared by the four edit
    /// messages.
    fn edit_current(&mut self, field: Field, text: String)
        requires
            old(self).wf(),
        ensures
            final(self).wf(),
            final(self)@ == edited_item(old(self)@, field, text@),
    {
        match self.view.current_item {
            Some(idx) => {
                self.state.edit_item(&self.view.current_list, idx, field, text);
                proof {
                    assert(self@ =~~= edited_item(old(self)@, field, text@));
                }
            },
            None => {},
        }
    }
}

} // verus!
