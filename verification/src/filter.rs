//! Filter selections, as the reader's interface hands them over, and what a
//! list of them selects.
//!
//! A list of selections fills three slots: the search text, the category and
//! the tag. The list is read in order and a later selection for a slot
//! replaces an earlier one, so each slot holds the value of the last
//! selection made for it, or nothing.

use vstd::prelude::*;

verus! {

/// One selection made in the filter panel.
#[derive(Clone, Debug, PartialEq, Eq)]
pub enum FilterValue {
    /// Free text typed into a text field.
    Text { id: String, value: String },
    /// One option picked from the list with the identifier `id`.
    Select { id: String, value: String },
    /// Any other kind of selection; none of them selects anything here.
    Other,
}

/// The mathematical value of a [`FilterValue`].
pub enum FilterValueView {
    Text { id: Seq<char>, value: Seq<char> },
    Select { id: Seq<char>, value: Seq<char> },
    Other,
}

impl View for FilterValue {
    type V = FilterValueView;

    open spec fn view(&self) -> FilterValueView {
        match self {
            FilterValue::Text { id, value } => FilterValueView::Text { id: id@, value: value@ },
            FilterValue::Select { id, value } => FilterValueView::Select {
                id: id@,
                value: value@,
            },
            FilterValue::Other => FilterValueView::Other,
        }
    }
}

/// The values of a list of selections, in the same order.
pub open spec fn views(filters: Seq<FilterValue>) -> Seq<FilterValueView> {
    filters.map_values(|f: FilterValue| f@)
}

/// Whether `id` names one of the four category lists.
pub open spec fn is_category_id(id: Seq<char>) -> bool {
    id == "doujinshi-category"@ || id == "tankoubon-category"@ || id
        == "magazine-shortstory-category"@ || id == "korean-manga-category"@
}

/// Whether `id` names the list of tags.
pub open spec fn is_tag_id(id: Seq<char>) -> bool {
    id == "genre"@
}

/// No identifier names both a category list and the list of tags.
pub proof fn lemma_category_id_is_no_tag_id(id: Seq<char>)
    ensures
        !(is_category_id(id) && is_tag_id(id)),
{
    reveal_strlit("doujinshi-category");
    reveal_strlit("tankoubon-category");
    reveal_strlit("magazine-shortstory-category");
    reveal_strlit("korean-manga-category");
    reveal_strlit("genre");
    assert("genre"@.len() == 5);
    assert("doujinshi-category"@.len() == 18);
    assert("tankoubon-category"@.len() == 18);
    assert("magazine-shortstory-category"@.len() == 28);
    assert("korean-manga-category"@.len() == 21);
}

/// What a selection can fill.
pub enum Slot {
    /// The search text.
    Text,
    /// The category.
    Category,
    /// The tag.
    Tag,
}

/// Whether the selection `f` fills `slot`: any text filter fills the search
/// text, whatever its identifier; an option picked from a category list fills
/// the category; an option picked from the list of tags fills the tag.
pub open spec fn fills(f: FilterValueView, slot: Slot) -> bool {
    match slot {
        Slot::Text => f is Text,
        Slot::Category => f matches FilterValueView::Select { id, .. } && is_category_id(id),
        Slot::Tag => f matches FilterValueView::Select { id, .. } && is_tag_id(id),
    }
}

/// The value that `f` carries; empty for a selection that carries none.
pub open spec fn value_of(f: FilterValueView) -> Seq<char> {
    match f {
        FilterValueView::Text { value, .. } => value,
        FilterValueView::Select { value, .. } => value,
        FilterValueView::Other => Seq::empty(),
    }
}

/// What `slot` holds once `filters` has been read: the value of the last
/// selection that fills it; empty if there is none.
pub open spec fn last_value(filters: Seq<FilterValueView>, slot: Slot) -> Seq<char>
    decreases filters.len(),
{
    if filters.len() == 0 {
        Seq::empty()
    } else if fills(filters.last(), slot) {
        value_of(filters.last())
    } else {
        last_value(filters.drop_last(), slot)
    }
}

/// Whether the selection at `index` fills `slot` and none after it does.
pub open spec fn is_last_for(filters: Seq<FilterValueView>, slot: Slot, index: int) -> bool {
    &&& 0 <= index < filters.len()
    &&& fills(filters[index], slot)
    &&& forall|j: int| index < j < filters.len() ==> !fills(filters[j], slot)
}

/// Whether no selection in `filters` fills `slot`.
pub open spec fn none_for(filters: Seq<FilterValueView>, slot: Slot) -> bool {
    forall|j: int| 0 <= j < filters.len() ==> !fills(filters[j], slot)
}

/// A slot holds the value of the last selection made for it, whatever was
/// selected before and whatever else comes after.
pub proof fn lemma_last_value(filters: Seq<FilterValueView>, slot: Slot, index: int)
    requires
        is_last_for(filters, slot, index),
    ensures
        last_value(filters, slot) == value_of(filters[index]),
    decreases filters.len(),
{
    if index < filters.len() - 1 {
        let front = filters.drop_last();
        assert(forall|j: int| 0 <= j < front.len() ==> front[j] == filters[j]);
        lemma_last_value(front, slot, index);
    }
}

/// A slot for which nothing was selected is empty.
pub proof fn lemma_no_value(filters: Seq<FilterValueView>, slot: Slot)
    requires
        none_for(filters, slot),
    ensures
        last_value(filters, slot) == Seq::<char>::empty(),
    decreases filters.len(),
{
    if filters.len() > 0 {
        let front = filters.drop_last();
        assert(forall|j: int| 0 <= j < front.len() ==> front[j] == filters[j]);
        lemma_no_value(front, slot);
    }
}

} // verus!
