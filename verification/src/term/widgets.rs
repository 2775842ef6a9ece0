//! A list with a selection and a filter that can be switched on and off.
//!
//! The list decides what is shown and which row is selected; drawing is
//! left to the caller, who gets a [`Frame`] to draw.

use std::rc::Rc;
use vstd::prelude::*;

verus! {

/// Whether `keep` can be what `filter` says of `items`, one verdict for each
/// item.
pub open spec fn verdicts_of<T, F: Fn(&T) -> bool>(
    filter: F,
    items: Seq<Rc<T>>,
    keep: Seq<bool>,
) -> bool {
    &&& keep.len() == items.len()
    &&& forall|i: int|
        0 <= i < items.len() ==> call_ensures(filter, (&*items[i],), #[trigger] keep[i])
}

/// The items that `keep` keeps, in their order.
pub open spec fn kept<A>(items: Seq<A>, keep: Seq<bool>) -> Seq<A>
    decreases items.len(),
{
    if items.len() == 0 || keep.len() != items.len() {
        Seq::empty()
    } else if keep.last() {
        kept(items.drop_last(), keep.drop_last()).push(items.last())
    } else {
        kept(items.drop_last(), keep.drop_last())
    }
}

/// `value`, brought below `upper_bound` where there is anything below it.
pub open spec fn bounded(value: usize, upper_bound: usize) -> usize {
    if value >= upper_bound && upper_bound > 0 {
        (upper_bound - 1) as usize
    } else {
        value
    }
}

/// The row after `selected` in a list of `rows` rows; `selected` itself on
/// the last row and in a list without rows.
pub open spec fn following(selected: usize, rows: nat) -> usize {
    if rows > 0 && selected < rows - 1 {
        (selected + 1) as usize
    } else {
        selected
    }
}

/// The row before `selected`; `selected` itself on the first row.
pub open spec fn preceding(selected: usize) -> usize {
    if selected > 0 {
        (selected - 1) as usize
    } else {
        selected
    }
}

/// Another pointer to the item, by `Rc::clone`.
///
/// Taken on trust of the standard library: the new pointer points to the
/// value that `item` points to.
#[verifier::external_body]
fn share<T>(item: &Rc<T>) -> (shared: Rc<T>)
    ensures
        shared == *item,
{
    Rc::clone(item)
}

fn within_upper_bound(value: usize, upper_bound: usize) -> (r: usize)
    ensures
        r == bounded(value, upper_bound),
{
    if value >= upper_bound && upper_bound > 0 {
        upper_bound - 1
    } else {
        value
    }
}

/// What there is to draw of a list.
pub struct Frame<T> {
    /// The number of items in the list, shown or not.
    pub total: usize,
    /// The number of items that pass the filter, where the filter is on.
    pub filtered: Option<usize>,
    /// The items to show, first row first.
    pub rows: Vec<Rc<T>>,
    /// The row to highlight. It names no row where it is not below the
    /// number of rows.
    pub selected: usize,
}

/// A titled list of items of which one row is selected. While its filter is
/// on, only the items that pass it are shown.
pub struct ListView<T, F: Fn(&T) -> bool> {
    title: String,
    filter: F,
    items: Vec<Rc<T>>,
    selected: usize,
    filter_enabled: bool,
}

impl<T, F: Fn(&T) -> bool> ListView<T, F> {
    /// The title.
    pub closed spec fn heading(&self) -> Seq<char> {
        self.title@
    }

    /// The predicate that an item must pass to be shown while the filter is
    /// on.
    pub closed spec fn predicate(&self) -> F {
        self.filter
    }

    /// All the items, shown or not.
    pub closed spec fn data(&self) -> Seq<Rc<T>> {
        self.items@
    }

    /// The selected row.
    pub closed spec fn selection(&self) -> usize {
        self.selected
    }

    /// Whether the filter is on.
    pub closed spec fn filtering(&self) -> bool {
        self.filter_enabled
    }

    #[verifier::type_invariant]
    spec fn inv(&self) -> bool {
        forall|t: &T| call_requires(self.filter, (t,))
    }

    /// Whether `keep` can be what the filter says of the items now. While
    /// the filter is off it is not asked, so anything can.
    pub open spec fn possible(&self, keep: Seq<bool>) -> bool {
        self.filtering() ==> verdicts_of(self.predicate(), self.data(), keep)
    }

    /// The items shown, given what the filter says of each.
    pub open spec fn shown(&self, keep: Seq<bool>) -> Seq<Rc<T>> {
        if self.filtering() {
            kept(self.data(), keep)
        } else {
            self.data()
        }
    }

    /// An empty list with the first row selected and the filter off.
    /// `filter` must accept every item as its argument.
    pub fn new(title: String, filter: F) -> (view: Self)
        requires
            forall|t: &T| call_requires(filter, (t,)),
        ensures
            view.heading() == title@,
            view.predicate() == filter,
            view.data() == Seq::<Rc<T>>::empty(),
            view.selection() == 0,
            !view.filtering(),
    {
        Self { title, filter, items: Vec::new(), selected: 0, filter_enabled: false }
    }

    /// The title.
    pub fn title(&self) -> (title: &String)
        ensures
            title@ == self.heading(),
    {
        &self.title
    }

    /// Decides what is to be drawn: the items shown, their counts, and the
    /// selected row, which is brought back onto the last row where it lies
    /// behind it.
    pub fn render(&mut self) -> (frame: Frame<T>)
        ensures
            final(self).heading() == old(self).heading(),
            final(self).predicate() == old(self).predicate(),
            final(self).data() == old(self).data(),
            final(self).filtering() == old(self).filtering(),
            final(self).selection() == frame.selected,
            frame.total == old(self).data().len(),
            frame.filtered == (if old(self).filtering() {
                Some(frame.rows@.len() as usize)
            } else {
                None
            }),
            frame.selected == bounded(old(self).selection(), frame.rows@.len() as usize),
            exists|keep: Seq<bool>| old(self).possible(keep) && frame.rows@ == old(self).shown(keep),
    {
        let total = self.items.len();
        let rows = self.get_filtered_items();
        let filtered = if self.filter_enabled {
            Some(rows.len())
        } else {
            None
        };
        self.selection_within(rows.len());
        Frame { total, filtered, rows, selected: self.selected }
    }

    /// Replaces the items. The selection and the filter stay as they are.
    pub fn set_data(&mut self, data: Vec<Rc<T>>)
        ensures
            final(self).data() == data@,
            final(self).heading() == old(self).heading(),
            final(self).predicate() == old(self).predicate(),
            final(self).selection() == old(self).selection(),
            final(self).filtering() == old(self).filtering(),
    {
        proof {
            use_type_invariant(&*self);
        }
        self.items = data;
    }

    /// Moves the selection one row down, unless it is on the last row shown
    /// or nothing is shown.
    pub fn select_next_item(&mut self)
        ensures
            final(self).heading() == old(self).heading(),
            final(self).predicate() == old(self).predicate(),
            final(self).data() == old(self).data(),
            final(self).filtering() == old(self).filtering(),
            exists|keep: Seq<bool>|
                old(self).possible(keep) && final(self).selection() == following(
                    old(self).selection(),
                    old(self).shown(keep).len(),
                ),
    {
        proof {
            use_type_invariant(&*self);
        }
        let rows = self.get_filtered_items().len();
        self.selected = if rows > 0 && self.selected < rows - 1 {
            self.selected + 1
        } else {
            self.selected
        };
    }

    /// Moves the selection one row up, unless it is on the first row.
    pub fn select_prev_item(&mut self)
        ensures
            final(self).heading() == old(self).heading(),
            final(self).predicate() == old(self).predicate(),
            final(self).data() == old(self).data(),
            final(self).filtering() == old(self).filtering(),
            final(self).selection() == preceding(old(self).selection()),
    {
        proof {
            use_type_invariant(&*self);
        }
        self.selected = if self.selected > 0 {
            self.selected - 1
        } else {
            self.selected
        };
    }

    /// Switches the filter on where it is off, and off where it is on.
    pub fn toggle_filter(&mut self)
        ensures
            final(self).heading() == old(self).heading(),
            final(self).predicate() == old(self).predicate(),
            final(self).data() == old(self).data(),
            final(self).selection() == old(self).selection(),
            final(self).filtering() == !old(self).filtering(),
    {
        proof {
            use_type_invariant(&*self);
        }
        self.filter_enabled = !self.filter_enabled;
    }

    fn selection_within(&mut self, bound: usize)
        ensures
            final(self).heading() == old(self).heading(),
            final(self).predicate() == old(self).predicate(),
            final(self).data() == old(self).data(),
            final(self).filtering() == old(self).filtering(),
            final(self).selection() == bounded(old(self).selection(), bound),
    {
        proof {
            use_type_invariant(&*self);
        }
        self.selected = within_upper_bound(self.selected, bound);
    }

    /// The items shown: all of them while the filter is off, those that pass
    /// it while it is on, in the order of the list.
    pub fn get_filtered_items(&self) -> (rows: Vec<Rc<T>>)
        ensures
            exists|keep: Seq<bool>| self.possible(keep) && rows@ == self.shown(keep),
    {
        proof {
            use_type_invariant(self);
        }
        let mut rows: Vec<Rc<T>> = Vec::new();
        let ghost mut keep: Seq<bool> = Seq::empty();
        let mut i: usize = 0;
        while i < self.items.len()
            invariant
                i <= self.items@.len(),
                forall|t: &T| call_requires(self.filter, (t,)),
                keep.len() == i,
                self.filter_enabled ==> verdicts_of(self.filter, self.items@.take(i as int), keep),
                rows@ == (if self.filter_enabled {
                    kept(self.items@.take(i as int), keep)
                } else {
                    self.items@.take(i as int)
                }),
            decreases self.items@.len() - i,
        {
            let item = &self.items[i];
            let pass = !self.filter_enabled || (self.filter)(item);
            if pass {
                rows.push(share(item));
            }
            proof {
                let ghost before = keep;
                keep = keep.push(pass);
                assert(self.items@.take(i + 1).drop_last() =~= self.items@.take(i as int));
                assert(keep.drop_last() =~= before);
                assert(self.items@.take(i + 1) =~= self.items@.take(i as int).push(*item));
            }
            i += 1;
        }
        proof {
            assert(self.items@.take(i as int) =~= self.items@);
            assert(self.possible(keep) && rows@ == self.shown(keep));
        }
        rows
    }
}

} // verus!
