//! The item model of a submitted compilation unit.
//!
//! The scanner splits the source into a sequence of items, each carrying
//! its verbatim text; nothing of the original text is lost, reordered or
//! changed.  A public function additionally carries the facts the export
//! planner reads: its name, its parsed parameter list and its return type
//! text.  Everything else (types, constants, implementation blocks,
//! private functions, attributes, comments, whitespace) rides along as an
//! opaque run of text.

use vstd::prelude::*;
use crate::text::is_ident_char_at;

verus! {

/// One parameter of a public function: a plain identifier binding and the
/// text of its declared type, both trimmed.
pub struct Param {
    pub name: Vec<char>,
    pub ty: Vec<char>,
}

/// The outcome of parsing a parameter list.
pub enum SigParse {
    /// Every parameter is a typed plain-identifier binding.
    Good(Vec<Param>),
    /// Some parameter pattern is not a plain identifier; carries its text.
    BadName(Vec<char>),
    /// Some parameter is not a typed binding (a receiver, for example);
    /// carries its text.
    BadArg(Vec<char>),
}

pub enum Item {
    /// A public function declaration: its verbatim text, its name, its
    /// parameter list and the text of its declared return type, if any.
    Func { text: Vec<char>, name: Vec<char>, sig: SigParse, ret: Option<Vec<char>> },
    /// A namespace declaration with an inline body: the verbatim text up
    /// to and including the opening brace, the namespace name, the items
    /// of the body, and the closing brace text.
    Namespace { open: Vec<char>, name: Vec<char>, body: Vec<Item>, close: Vec<char> },
    /// Any other run of source text, kept verbatim.
    Other { text: Vec<char> },
}

/// The exact source text an item stands for.
pub open spec fn item_text(it: Item) -> Seq<char>
    decreases it,
{
    match it {
        Item::Func { text, .. } => text@,
        Item::Namespace { open, body, close, .. } => open@ + items_text(body@) + close@,
        Item::Other { text } => text@,
    }
}

/// The concatenated text of a sequence of items.
pub open spec fn items_text(items: Seq<Item>) -> Seq<char>
    decreases items,
{
    if items.len() == 0 {
        Seq::empty()
    } else {
        item_text(items[0]) + items_text(items.drop_first())
    }
}

pub proof fn lemma_items_text_snoc(items: Seq<Item>, it: Item)
    ensures
        items_text(items.push(it)) == items_text(items) + item_text(it),
    decreases items.len(),
{
    if items.len() == 0 {
        assert(items.push(it)[0] == it);
        assert(items.push(it).drop_first() =~= Seq::<Item>::empty());
        assert(items_text(Seq::<Item>::empty()) == Seq::<char>::empty());
        assert(items_text(items.push(it)) == item_text(it) + Seq::<char>::empty());
        assert(item_text(it) + Seq::<char>::empty() =~= Seq::<char>::empty() + item_text(it));
    } else {
        lemma_items_text_snoc(items.drop_first(), it);
        assert(items.push(it)[0] == items[0]);
        assert(items.push(it).drop_first() =~= items.drop_first().push(it));
        assert(item_text(items[0]) + (items_text(items.drop_first()) + item_text(it)) =~= (
        item_text(items[0]) + items_text(items.drop_first())) + item_text(it));
    }
}


/// A plain identifier: nonempty, over the identifier alphabet.
pub open spec fn ident_seq(s: Seq<char>) -> bool {
    s.len() >= 1 && forall|i: int| 0 <= i < s.len() ==> is_ident_char_at(#[trigger] s[i])
}

/// Every function and namespace name in the item tree is a plain
/// identifier.
pub open spec fn wf_item(it: Item) -> bool
    decreases it,
{
    match it {
        Item::Func { name, .. } => ident_seq(name@),
        Item::Namespace { name, body, .. } => ident_seq(name@) && wf_items(body@),
        Item::Other { .. } => true,
    }
}

pub open spec fn wf_items(items: Seq<Item>) -> bool
    decreases items,
{
    if items.len() == 0 {
        true
    } else {
        wf_item(items[0]) && wf_items(items.drop_first())
    }
}

pub proof fn lemma_wf_items_snoc(items: Seq<Item>, it: Item)
    ensures
        wf_items(items.push(it)) == (wf_items(items) && wf_item(it)),
    decreases items.len(),
{
    if items.len() == 0 {
        assert(items.push(it)[0] == it);
        assert(items.push(it).drop_first() =~= Seq::<Item>::empty());
        assert(wf_items(Seq::<Item>::empty()));
    } else {
        lemma_wf_items_snoc(items.drop_first(), it);
        assert(items.push(it)[0] == items[0]);
        assert(items.push(it).drop_first() =~= items.drop_first().push(it));
    }
}

} // verus!
