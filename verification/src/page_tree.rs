//! A page with the labels known for it and the label actions recorded
//! against it.

use vstd::prelude::*;

use crate::errors::ConfluenceError;
use crate::strutil::strings_view;

verus! {

broadcast use vstd::std_specs::vec::group_vec_axioms;

/// Actions that can be executed against page labels. Each variant holds the
/// data required to perform that operation.
#[derive(Debug, PartialEq)]
pub enum PageLabelAction {
    /// Add a label to the page.
    Add { tag: String },
    /// Update an existing label (named `from`) to a new label (`to`).
    Update { from: String, to: String },
    /// Remove a label from the page.
    Delete { tag: String },
    /// List labels (no additional data).
    List,
}

/// Mathematical view of a label action.
#[verifier::ext_equal]
pub enum PageLabelActionView {
    Add { tag: Seq<char> },
    Update { from: Seq<char>, to: Seq<char> },
    Delete { tag: Seq<char> },
    List,
}

impl View for PageLabelAction {
    type V = PageLabelActionView;

    open spec fn view(&self) -> PageLabelActionView {
        match self {
            PageLabelAction::Add { tag } => PageLabelActionView::Add { tag: tag@ },
            PageLabelAction::Update { from, to } => PageLabelActionView::Update {
                from: from@,
                to: to@,
            },
            PageLabelAction::Delete { tag } => PageLabelActionView::Delete { tag: tag@ },
            PageLabelAction::List => PageLabelActionView::List,
        }
    }
}

/// The views of recorded actions, in order.
pub open spec fn actions_view(s: Seq<PageLabelAction>) -> Seq<PageLabelActionView> {
    s.map_values(|a: PageLabelAction| a@)
}

/// The labels with every occurrence of one renamed to another.
pub open spec fn rename_labels(labels: Seq<Seq<char>>, from: Seq<char>, to: Seq<char>) -> Seq<
    Seq<char>,
> {
    labels.map_values(
        |l: Seq<char>|
            if l == from {
                to
            } else {
                l
            },
    )
}

/// The labels with every occurrence of one removed.
pub open spec fn remove_label(labels: Seq<Seq<char>>, tag: Seq<char>) -> Seq<Seq<char>>
    decreases labels.len(),
{
    if labels.len() == 0 {
        Seq::empty()
    } else if labels[0] == tag {
        remove_label(labels.drop_first(), tag)
    } else {
        seq![labels[0]] + remove_label(labels.drop_first(), tag)
    }
}

/// A page with additional metadata information about actions to take.
#[derive(Debug, PartialEq)]
pub struct ConfluencePageTree {
    /// The root page URL.
    pub root_page: String,
    /// The current labels on the page.
    pub current_page_labels: Vec<String>,
    /// The label actions that should take place.
    pub tag_actions: Vec<PageLabelAction>,
}

impl ConfluencePageTree {
    /// Convenience constructor.
    pub fn new(root_page: String) -> (r: Self)
        ensures
            r.root_page == root_page,
            r.current_page_labels@.len() == 0,
            r.tag_actions@.len() == 0,
    {
        ConfluencePageTree {
            root_page,
            current_page_labels: Vec::new(),
            tag_actions: Vec::new(),
        }
    }

    /// Return a copy of the current labels known for the page.
    pub fn list_labels(&self) -> (r: Vec<String>)
        ensures
            strings_view(r@) == strings_view(self.current_page_labels@),
    {
        let mut r: Vec<String> = Vec::new();
        let mut i: usize = 0;
        while i < self.current_page_labels.len()
            invariant
                i <= self.current_page_labels@.len(),
                r@.len() == i,
                forall|k: int| 0 <= k < i ==> (#[trigger] r@[k])@ == self.current_page_labels@[k]@,
            decreases self.current_page_labels@.len() - i,
        {
            r.push(self.current_page_labels[i].clone());
            i = i + 1;
        }
        proof {
            assert(strings_view(r@) =~= strings_view(self.current_page_labels@));
        }
        r
    }

    /// Add a label locally and record the intended action.
    pub fn add_label(&mut self, tag: String)
        ensures
            final(self).root_page == old(self).root_page,
            final(self).current_page_labels@.len() == old(self).current_page_labels@.len() + 1,
            strings_view(final(self).current_page_labels@) == strings_view(
                old(self).current_page_labels@,
            ).push(tag@),
            actions_view(final(self).tag_actions@) == actions_view(old(self).tag_actions@).push(
                PageLabelActionView::Add { tag: tag@ },
            ),
    {
        let tag_for_action = tag.clone();
        self.current_page_labels.push(tag);
        self.tag_actions.push(PageLabelAction::Add { tag: tag_for_action });
        proof {
            assert(strings_view(self.current_page_labels@) =~= strings_view(
                old(self).current_page_labels@,
            ).push(strings_view(self.current_page_labels@).last()));
            assert(actions_view(self.tag_actions@) =~= actions_view(old(self).tag_actions@).push(
                self.tag_actions@.last()@,
            ));
        }
    }

    /// Update a label locally (replace occurrences) and record the action.
    #[verifier::loop_isolation(false)]
    pub fn update_label(&mut self, from: &str, to: &str)
        ensures
            final(self).root_page == old(self).root_page,
            strings_view(final(self).current_page_labels@) == rename_labels(
                strings_view(old(self).current_page_labels@),
                from@,
                to@,
            ),
            actions_view(final(self).tag_actions@) == actions_view(old(self).tag_actions@).push(
                PageLabelActionView::Update { from: from@, to: to@ },
            ),
    {
        let mut i: usize = 0;
        while i < self.current_page_labels.len()
            invariant
                i <= self.current_page_labels@.len(),
                self.current_page_labels@.len() == old(self).current_page_labels@.len(),
                self.root_page == old(self).root_page,
                self.tag_actions == old(self).tag_actions,
                forall|k: int|
                    i <= k < self.current_page_labels@.len()
                        ==> (#[trigger] self.current_page_labels@[k])@ == old(
                        self,
                    ).current_page_labels@[k]@,
                forall|k: int|
                    0 <= k < i ==> (#[trigger] self.current_page_labels@[k])@ == (
                    if old(self).current_page_labels@[k]@ == from@ {
                        to@
                    } else {
                        old(self).current_page_labels@[k]@
                    }),
            decreases self.current_page_labels@.len() - i,
        {
            if crate::strutil::str_eq(self.current_page_labels[i].as_str(), from) {
                let replacement = to.to_owned();
                vstd::pervasive::VecAdditionalExecFns::set(
                    &mut self.current_page_labels,
                    i,
                    replacement,
                );
            }
            i = i + 1;
        }
        self.tag_actions.push(PageLabelAction::Update { from: from.to_owned(), to: to.to_owned() });
        proof {
            assert(strings_view(self.current_page_labels@) =~= rename_labels(
                strings_view(old(self).current_page_labels@),
                from@,
                to@,
            ));
            assert(actions_view(self.tag_actions@) =~= actions_view(old(self).tag_actions@).push(
                self.tag_actions@.last()@,
            ));
        }
    }

    /// Remove a label locally and record the action.
    #[verifier::loop_isolation(false)]
    pub fn delete_label(&mut self, tag: &str)
        ensures
            final(self).root_page == old(self).root_page,
            strings_view(final(self).current_page_labels@) == remove_label(
                strings_view(old(self).current_page_labels@),
                tag@,
            ),
            actions_view(final(self).tag_actions@) == actions_view(old(self).tag_actions@).push(
                PageLabelActionView::Delete { tag: tag@ },
            ),
    {
        let ghost orig = strings_view(old(self).current_page_labels@);
        let mut kept: Vec<String> = Vec::new();
        let mut i: usize = 0;
        proof {
            assert(orig.skip(0) =~= orig);
            assert(strings_view(kept@) + remove_label(orig, tag@) =~= remove_label(orig, tag@));
        }
        while i < self.current_page_labels.len()
            invariant
                i <= self.current_page_labels@.len(),
                *self == *old(self),
                orig.len() == self.current_page_labels@.len(),
                forall|k: int|
                    0 <= k < orig.len() ==> orig[k] == (
                    #[trigger] self.current_page_labels@[k])@,
                remove_label(orig, tag@) == strings_view(kept@) + remove_label(
                    orig.skip(i as int),
                    tag@,
                ),
            decreases self.current_page_labels@.len() - i,
        {
            proof {
                assert(orig.skip(i as int)[0] == orig[i as int]);
                assert(orig.skip(i as int).drop_first() =~= orig.skip(i as int + 1));
            }
            if !crate::strutil::str_eq(self.current_page_labels[i].as_str(), tag) {
                let ghost prev = kept@;
                kept.push(self.current_page_labels[i].clone());
                proof {
                    assert(strings_view(kept@) =~= strings_view(prev).push(orig[i as int]));
                }
            }
            i = i + 1;
        }
        proof {
            assert(orig.skip(orig.len() as int) =~= Seq::<Seq<char>>::empty());
            assert(remove_label(Seq::<Seq<char>>::empty(), tag@) =~= Seq::<Seq<char>>::empty());
            assert(strings_view(kept@) =~= remove_label(orig, tag@));
        }
        self.current_page_labels = kept;
        self.tag_actions.push(PageLabelAction::Delete { tag: tag.to_owned() });
        proof {
            assert(actions_view(self.tag_actions@) =~= actions_view(old(self).tag_actions@).push(
                self.tag_actions@.last()@,
            ));
        }
    }

    /// Apply all recorded actions. With `dry_run` no destructive operation is
    /// performed; the in-memory surface always succeeds.
    pub fn apply_actions(&self, dry_run: bool) -> (r: Result<(), ConfluenceError>)
        ensures
            r is Ok,
    {
        if dry_run {
            return Ok(());
        }
        Ok(())
    }
}

} // verus!
