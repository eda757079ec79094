use vstd::prelude::*;

verus! {

/// One entry of a list: four independently optional text fields. Identity
/// within its owning list is positional; there is no separate identifier.
#[derive(Debug, PartialEq, Eq)]
pub struct Item {
    pub name: Option<String>,
    pub image: Option<String>,
    pub link: Option<String>,
    pub comment: Option<String>,
}

/// The mathematical value of an `Item`: each field as an optional character
/// sequence.
#[verifier::ext_equal]
pub ghost struct ItemView {
    pub name: Option<Seq<char>>,
    pub image: Option<Seq<char>>,
    pub link: Option<Seq<char>>,
    pub comment: Option<Seq<char>>,
}

impl ItemView {
    /// The sentinel item: all four fields absent.
    pub open spec fn empty() -> ItemView {
        ItemView { name: None, image: None, link: None, comment: None }
    }
}

/// The view of one optional text field.
pub open spec fn opt_text_view(o: Option<String>) -> Option<Seq<char>> {
    match o {
        Some(s) => Some(s@),
        None => None,
    }
}

impl View for Item {
    type V = ItemView;

    open spec fn view(&self) -> ItemView {
        ItemView {
            name: opt_text_view(self.name),
            image: opt_text_view(self.image),
            link: opt_text_view(self.link),
            comment: opt_text_view(self.comment),
        }
    }
}

impl DeepView for Item {
    type V = ItemView;

    open spec fn deep_view(&self) -> ItemView {
        self.view()
    }
}

/// Which of the four text fields of an `Item` an edit addresses.
#[derive(Clone, Copy, Debug, PartialEq, Eq)]
pub enum Field {
    Name,
    Image,
    Link,
    Comment,
}

/// Text as stored in a field: empty input clears the field, anything else is
/// kept as given. An empty string is never stored.
pub open spec fn normalized(text: Seq<char>) -> Option<Seq<char>> {
    if text.len() == 0 {
        None
    } else {
        Some(text)
    }
}

/// The item value after one field is set to (normalized) `text`.
pub open spec fn with_field(it: ItemView, field: Field, text: Seq<char>) -> ItemView {
    match field {
        Field::Name => ItemView { name: normalized(text), ..it },
        Field::Image => ItemView { image: normalized(text), ..it },
        Field::Link => ItemView { link: normalized(text), ..it },
        Field::Comment => ItemView { comment: normalized(text), ..it },
    }
}

impl Item {
    /// The sentinel empty item; also the shape of a freshly created item.
    pub fn empty() -> (r: Item)
        ensures
            r@ == ItemView::empty(),
    {
        Item { name: None, image: None, link: None, comment: None }
    }

    /// Sets or clears one field. Empty text is normalized to "absent".
    pub fn set_field(&mut self, field: Field, text: String)
        ensures
            final(self)@ == with_field(old(self)@, field, text@),
    {
        let value = if text.as_str().is_empty() {
            None
        } else {
            Some(text)
        };
        match field {
            Field::Name => {
                self.name = value;
            },
            Field::Image => {
                self.image = value;
            },
            Field::Link => {
                self.link = value;
            },
            Field::Comment => {
                self.comment = value;
            },
        }
    }
}

fn clone_opt_text(o: &Option<String>) -> (r: Option<String>)
    ensures
        opt_text_view(r) == opt_text_view(*o),
{
    match o {
        Some(s) => Some(s.clone()),
        None => None,
    }
}

impl Clone for Item {
    fn clone(&self) -> (r: Item)
        ensures
            r@ == self@,
    {
        Item {
            name: clone_opt_text(&self.name),
            image: clone_opt_text(&self.image),
            link: clone_opt_text(&self.link),
            comment: clone_opt_text(&self.comment),
        }
    }
}

impl Default for Item {
    fn default() -> (r: Item)
        ensures
            r@ == ItemView::empty(),
    {
        Item::empty()
    }
}

} // verus!
