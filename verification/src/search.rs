//! Search: a live fuzzy filter over the flattened tree rows, with results
//! that stay traceable back to the unfiltered rows.

use vstd::prelude::*;
use vstd::string::StringExecFns;

use crate::tree_navigation::{rows_view, SpecRow};
use crate::ui::Ui;

verus! {

broadcast use vstd::std_specs::vec::group_vec_axioms, vstd::seq_lib::group_to_multiset_ensures;

/// A filtered row: display text, depth, selection flag, match score, matched
/// character positions in the cleaned text, and the row's index in the
/// unfiltered flattened view it was computed from.
pub type FilteredItem = (String, usize, bool, isize, Vec<usize>, usize);

/// Mathematical view of a filtered row.
pub type FilteredItemView = (Seq<char>, int, bool, int, Seq<int>, int);

/// The views of positions, in order.
pub open spec fn indices_view(s: Seq<usize>) -> Seq<int> {
    s.map_values(|u: usize| u as int)
}

/// The view of a filtered row.
pub open spec fn item_view(r: FilteredItem) -> FilteredItemView {
    (r.0@, r.1 as int, r.2, r.3 as int, indices_view(r.4@), r.5 as int)
}

/// The views of filtered rows, in order.
pub open spec fn items_view(s: Seq<FilteredItem>) -> Seq<FilteredItemView> {
    s.map_values(|r: FilteredItem| item_view(r))
}

/// What the fuzzy matcher returns for a query over a target, when the full
/// query matches at all.
pub uninterp spec fn fuzzy_score(query: Seq<char>, target: Seq<char>) -> Option<int>;

/// Relies on sublime_fuzzy's `FuzzySearch::best_match` with case-insensitive
/// matching and the word-start-emphasizing scoring: the best score is a
/// function of the query and target strings alone, and no match exists in an
/// empty target.
#[verifier::external_body]
fn fuzzy_best_score(query: &str, target: &str) -> (r: Option<isize>)
    ensures
        r is Some <==> fuzzy_score(query@, target@) is Some,
        r is Some ==> r->0 as int == fuzzy_score(query@, target@)->0,
        target@.len() == 0 ==> r is None,
{
    sublime_fuzzy::FuzzySearch::new(query, target)
        .case_insensitive()
        .score_with(&sublime_fuzzy::Scoring::emphasize_word_starts())
        .best_match()
        .map(|m| m.score())
}

/// What Unicode lowercasing returns for a string.
pub uninterp spec fn lower_of(s: Seq<char>) -> Seq<char>;

/// Relies on `str::to_lowercase` of std: the result depends on the characters
/// alone.
#[verifier::external_body]
fn lowercase(s: &str) -> (r: String)
    ensures
        r@ == lower_of(s@),
{
    s.to_lowercase()
}

/// Relies on `String::pop` of std: removes and returns the last character.
#[verifier::external_body]
fn pop_char(s: &mut String) -> (r: Option<char>)
    ensures
        old(s)@.len() > 0 ==> final(s)@ == old(s)@.drop_last() && r == Some(old(s)@.last()),
        old(s)@.len() == 0 ==> final(s)@ == old(s)@ && r is None,
{
    s.pop()
}

/// The structural decorations that are stripped before matching.
pub open spec fn is_marker(c: char) -> bool {
    c == '▼' || c == '▶' || c == '🌐' || c == '📊' || c == '📋' || c == '🎫' || c == '⭕'
        || c == '📁'
}

/// The string with all decoration characters removed.
pub open spec fn strip_markers(s: Seq<char>) -> Seq<char>
    decreases s.len(),
{
    if s.len() == 0 {
        Seq::empty()
    } else if is_marker(s[0]) {
        strip_markers(s.drop_first())
    } else {
        seq![s[0]] + strip_markers(s.drop_first())
    }
}

/// The string with every run of spaces collapsed to a single space.
pub open spec fn collapse_spaces(s: Seq<char>) -> Seq<char>
    decreases s.len(),
{
    if s.len() == 0 {
        Seq::empty()
    } else if s.len() >= 2 && s[0] == ' ' && s[1] == ' ' {
        collapse_spaces(s.drop_first())
    } else {
        seq![s[0]] + collapse_spaces(s.drop_first())
    }
}

/// Display text cleaned for matching: decorations stripped, whitespace
/// normalized, ends trimmed — the query matches semantic content only.
pub open spec fn clean_text(s: Seq<char>) -> Seq<char> {
    crate::strutil::spec_trim(collapse_spaces(strip_markers(s)))
}

/// The character positions a greedy left-to-right subsequence match of the
/// query takes in the text, scanning from `ti`.
pub open spec fn greedy_match(t: Seq<char>, q: Seq<char>, ti: int) -> Seq<int>
    decreases t.len() - ti,
{
    if q.len() == 0 || ti < 0 || ti >= t.len() {
        Seq::empty()
    } else if t[ti] == q[0] {
        seq![ti] + greedy_match(t, q.drop_first(), ti + 1)
    } else {
        greedy_match(t, q, ti + 1)
    }
}

/// The positions the simple highlighter reports: a greedy subsequence match
/// of the lowercased query in the lowercased cleaned text.
pub open spec fn match_positions_of(text: Seq<char>, query: Seq<char>) -> Seq<int> {
    greedy_match(lower_of(text), lower_of(query), 0)
}

/// The row a matching flattened row becomes.
pub open spec fn matched_row(row: SpecRow, i: int, q: Seq<char>) -> FilteredItemView {
    (
        row.0,
        row.1,
        row.2,
        fuzzy_score(q, clean_text(row.0))->0,
        match_positions_of(clean_text(row.0), q),
        i,
    )
}

/// The rows of the flattened view that match the query, in their original
/// order, each carrying its original index (starting at `base`).
pub open spec fn matched_rows(rows: Seq<SpecRow>, q: Seq<char>, base: int) -> Seq<FilteredItemView>
    decreases rows.len(),
{
    if rows.len() == 0 {
        Seq::empty()
    } else {
        (if fuzzy_score(q, clean_text(rows[0].0)) is Some {
            seq![matched_row(rows[0], base, q)]
        } else {
            Seq::empty()
        }) + matched_rows(rows.drop_first(), q, base + 1)
    }
}

/// A row inserted into a score-descending list: it goes in front of the first
/// row whose score is no larger, so earlier rows keep their place among equal
/// scores.
pub open spec fn insert_desc(x: FilteredItemView, s: Seq<FilteredItemView>) -> Seq<
    FilteredItemView,
>
    decreases s.len(),
{
    if s.len() == 0 {
        seq![x]
    } else if x.3 >= s[0].3 {
        seq![x] + s
    } else {
        seq![s[0]] + insert_desc(x, s.drop_first())
    }
}

/// The rows sorted by descending score, stably: rows with equal scores keep
/// their original relative order.
pub open spec fn sort_desc(s: Seq<FilteredItemView>) -> Seq<FilteredItemView>
    decreases s.len(),
{
    if s.len() == 0 {
        Seq::empty()
    } else {
        insert_desc(s[0], sort_desc(s.drop_first()))
    }
}

/// What one filter pass returns for a query over the flattened rows.
pub open spec fn filter_result(rows: Seq<SpecRow>, q: Seq<char>) -> Seq<FilteredItemView> {
    sort_desc(matched_rows(rows, q, 0))
}

/// Search manager for fuzzy finding in tree items.
pub struct SearchManager {
    /// Search mode state.
    pub search_mode: bool,
    /// Current search query.
    pub search_query: String,
    /// Filtered tree items (when searching).
    pub filtered_tree_items: Option<Vec<FilteredItem>>,
}

impl SearchManager {
    /// Create a new search manager.
    pub fn new() -> (r: Self)
        ensures
            !r.search_mode,
            r.search_query@ == Seq::<char>::empty(),
            r.filtered_tree_items is None,
    {
        SearchManager { search_mode: false, search_query: String::new(), filtered_tree_items: None }
    }

    /// Enter search mode.
    pub fn enter_search_mode(&mut self, ui: &mut Ui)
        ensures
            final(self).search_mode,
            final(self).search_query@ == Seq::<char>::empty(),
            final(self).filtered_tree_items is None,
            final(ui).status_message@ == "Search mode: type to filter, Esc to exit"@,
            final(ui).is_loading == old(ui).is_loading,
    {
        self.search_mode = true;
        self.search_query = String::new();
        self.filtered_tree_items = None;
        ui.set_status(String::from_str("Search mode: type to filter, Esc to exit"));
    }

    /// Exit search mode.
    pub fn exit_search_mode(&mut self, ui: &mut Ui)
        ensures
            !final(self).search_mode,
            final(self).search_query@ == Seq::<char>::empty(),
            final(self).filtered_tree_items is None,
            final(ui).status_message@ == "Ready"@,
            final(ui).is_loading == old(ui).is_loading,
    {
        self.search_mode = false;
        self.search_query = String::new();
        self.filtered_tree_items = None;
        ui.set_status(String::from_str("Ready"));
    }

    /// Exit search mode but keep the filter active when a query stands.
    pub fn exit_search_mode_keep_filter(&mut self, ui: &mut Ui)
        ensures
            !final(self).search_mode,
            old(self).search_query@.len() > 0 ==> final(self).search_query == old(
                self,
            ).search_query && final(self).filtered_tree_items == old(self).filtered_tree_items
                && final(ui).status_message@ == "Filtered by: '"@ + old(self).search_query@ + "'"@,
            old(self).search_query@.len() == 0 ==> final(self).search_query@ == Seq::<
                char,
            >::empty() && final(self).filtered_tree_items is None && final(ui).status_message@
                == "Ready"@,
            final(ui).is_loading == old(ui).is_loading,
    {
        if !self.search_query.as_str().is_empty() {
            self.search_mode = false;
            let mut msg = String::from_str("Filtered by: '");
            msg.append(self.search_query.as_str());
            msg.append("'");
            ui.set_status(msg);
        } else {
            self.exit_search_mode(ui);
        }
    }

    /// Add a character to the search query and recompute the filter from the
    /// given unfiltered rows; returns the new cursor position (the top).
    pub fn add_to_query(&mut self, c: char, tree_items: &Vec<(String, usize, bool)>) -> (r: usize)
        ensures
            final(self).search_mode == old(self).search_mode,
            final(self).search_query@ == old(self).search_query@.push(c),
            r == 0,
            ({
                let q = old(self).search_query@.push(c);
                &&& final(self).filtered_tree_items matches Some(v) && items_view(v@)
                    == filter_result(rows_view(tree_items@), q)
            }),
    {
        crate::strutil::push_char(&mut self.search_query, c);
        self.update_search_filter(tree_items)
    }

    /// Remove a character from the search query and recompute the filter;
    /// an emptied query clears the filter.
    pub fn remove_from_query(&mut self, tree_items: &Vec<(String, usize, bool)>) -> (r: usize)
        ensures
            final(self).search_mode == old(self).search_mode,
            r == 0,
            old(self).search_query@.len() == 0 ==> final(self).search_query == old(
                self,
            ).search_query && final(self).filtered_tree_items == old(self).filtered_tree_items,
            old(self).search_query@.len() > 0 ==> final(self).search_query@ == old(
                self,
            ).search_query@.drop_last(),
            old(self).search_query@.len() > 1 ==> (final(self).filtered_tree_items matches Some(v)
                && items_view(v@) == filter_result(
                rows_view(tree_items@),
                old(self).search_query@.drop_last(),
            )),
            old(self).search_query@.len() == 1 ==> final(self).filtered_tree_items is None,
    {
        if !self.search_query.as_str().is_empty() {
            pop_char(&mut self.search_query);
            self.update_search_filter(tree_items)
        } else {
            0
        }
    }

    /// Recompute the filter for the current query over the given unfiltered
    /// rows: rows without a match are dropped; the rest are ranked by
    /// descending score, stably, each keeping its original row index.
    /// An empty query clears the filter. Returns the new cursor position.
    #[verifier::loop_isolation(false)]
    pub fn update_search_filter(&mut self, tree_items: &Vec<(String, usize, bool)>) -> (r: usize)
        ensures
            final(self).search_mode == old(self).search_mode,
            final(self).search_query == old(self).search_query,
            r == 0,
            old(self).search_query@.len() == 0 ==> final(self).filtered_tree_items is None,
            old(self).search_query@.len() > 0 ==> (final(self).filtered_tree_items matches Some(v)
                && items_view(v@) == filter_result(rows_view(tree_items@), old(self).search_query@)),
    {
        if self.search_query.as_str().is_empty() {
            self.filtered_tree_items = None;
            return 0;
        }
        let ghost q = self.search_query@;
        let ghost rows = rows_view(tree_items@);

        let mut matches: Vec<FilteredItem> = Vec::new();
        let mut i: usize = 0;
        proof {
            assert(matched_rows(rows.take(0), q, 0) =~= Seq::<FilteredItemView>::empty());
            assert(items_view(matches@) =~= Seq::<FilteredItemView>::empty());
        }
        while i < tree_items.len()
            invariant
                i <= tree_items@.len(),
                self == old(self),
                rows == rows_view(tree_items@),
                rows.len() == tree_items@.len(),
                items_view(matches@) == matched_rows(rows.take(i as int), q, 0),
            decreases tree_items@.len() - i,
        {
            let item = &tree_items[i];
            proof {
                assert(rows[i as int] == (item.0@, item.1 as int, item.2));
            }
            let clean = self.extract_clean_text(item.0.as_str());
            let score = fuzzy_best_score(self.search_query.as_str(), clean.as_str());
            if let Some(score_value) = score {
                let positions = self.find_match_positions(clean.as_str(), &self.search_query);
                let row = (item.0.clone(), item.1, item.2, score_value, positions, i);
                proof {
                    assert(item_view(row) == matched_row(rows[i as int], i as int, q));
                }
                matches.push(row);
            }
            proof {
                lemma_matched_rows_snoc(rows, q, i as int);
            }
            i = i + 1;
        }
        proof {
            assert(rows.take(rows.len() as int) =~= rows);
        }

        let sorted = sort_matches_desc(matches);
        self.filtered_tree_items = Some(sorted);
        0
    }

    /// Extract clean text from a tree item name, removing decorations and
    /// normalizing whitespace.
    #[verifier::loop_isolation(false)]
    pub fn extract_clean_text(&self, display_text: &str) -> (r: String)
        ensures
            r@ == clean_text(display_text@),
    {
        let chars = crate::strutil::str_chars(display_text);
        let s = display_text;

        // strip decorations
        let mut stripped: Vec<char> = Vec::new();
        let mut i: usize = 0;
        proof {
            assert(s@.skip(0) =~= s@);
            assert(stripped@ + strip_markers(s@) =~= strip_markers(s@));
        }
        while i < chars.len()
            invariant
                i <= chars@.len(),
                chars@ == s@,
                strip_markers(s@) == stripped@ + strip_markers(s@.skip(i as int)),
            decreases chars@.len() - i,
        {
            let c = chars[i];
            proof {
                assert(s@.skip(i as int)[0] == c);
                assert(s@.skip(i as int).drop_first() =~= s@.skip(i as int + 1));
            }
            if !(c == '▼' || c == '▶' || c == '🌐' || c == '📊' || c == '📋' || c == '🎫' || c
                == '⭕' || c == '📁') {
                stripped.push(c);
            }
            i = i + 1;
        }
        proof {
            assert(s@.skip(s@.len() as int) =~= Seq::<char>::empty());
            assert(stripped@ == strip_markers(s@));
        }

        // collapse runs of spaces
        let ghost t = stripped@;
        let mut collapsed: Vec<char> = Vec::new();
        let mut j: usize = 0;
        proof {
            assert(t.skip(0) =~= t);
            assert(collapsed@ + collapse_spaces(t) =~= collapse_spaces(t));
        }
        while j < stripped.len()
            invariant
                j <= t.len(),
                stripped@ == t,
                collapse_spaces(t) == collapsed@ + collapse_spaces(t.skip(j as int)),
            decreases t.len() - j,
        {
            let c = stripped[j];
            proof {
                assert(t.skip(j as int)[0] == c);
                assert(t.skip(j as int).drop_first() =~= t.skip(j as int + 1));
                if j + 1 < t.len() {
                    assert(t.skip(j as int)[1] == t[j as int + 1]);
                }
            }
            if c == ' ' && j + 1 < stripped.len() && stripped[j + 1] == ' ' {
            } else {
                collapsed.push(c);
            }
            j = j + 1;
        }
        proof {
            assert(t.skip(t.len() as int) =~= Seq::<char>::empty());
            assert(collapsed@ == collapse_spaces(t));
        }

        // trim outer spaces
        let trimmed = crate::strutil::trim_spaces(&collapsed);
        crate::strutil::chars_to_string(&trimmed)
    }

    /// Find the character positions of a greedy subsequence match of the
    /// query in the text, both lowercased.
    #[verifier::loop_isolation(false)]
    pub fn find_match_positions(&self, text: &str, query: &str) -> (r: Vec<usize>)
        ensures
            indices_view(r@) == match_positions_of(text@, query@),
    {
        let text_lower = lowercase(text);
        let query_lower = lowercase(query);
        let text_chars = crate::strutil::str_chars(text_lower.as_str());
        let query_chars = crate::strutil::str_chars(query_lower.as_str());
        let ghost t = lower_of(text@);
        let ghost q = lower_of(query@);

        let mut positions: Vec<usize> = Vec::new();
        let mut ti: usize = 0;
        let mut qi: usize = 0;
        proof {
            assert(indices_view(positions@) =~= Seq::<int>::empty());
            assert(q.skip(0) =~= q);
            assert(indices_view(positions@) + greedy_match(t, q, 0) =~= greedy_match(t, q, 0));
        }
        while ti < text_chars.len() && qi < query_chars.len()
            invariant
                ti <= t.len(),
                qi <= q.len(),
                text_chars@ == t,
                query_chars@ == q,
                greedy_match(t, q, 0) == indices_view(positions@) + greedy_match(
                    t,
                    q.skip(qi as int),
                    ti as int,
                ),
            decreases t.len() - ti,
        {
            proof {
                assert(q.skip(qi as int)[0] == q[qi as int]);
                assert(q.skip(qi as int).drop_first() =~= q.skip(qi as int + 1));
            }
            if text_chars[ti] == query_chars[qi] {
                positions.push(ti);
                proof {
                    assert(indices_view(positions@) =~= indices_view(
                        positions@.drop_last(),
                    ).push(ti as int));
                }
                ti = ti + 1;
                qi = qi + 1;
            } else {
                ti = ti + 1;
            }
        }
        proof {
            assert(greedy_match(t, q.skip(qi as int), ti as int) =~= Seq::<int>::empty());
        }
        positions
    }

    /// Get the items to display: the filtered rows when a filter stands, else
    /// the full rows.
    pub fn get_display_items(&self, tree_items: &Vec<(String, usize, bool)>) -> (r: Vec<
        (String, usize, bool),
    >)
        ensures
            self.filtered_tree_items is None ==> crate::tree_navigation::rows_view(r@)
                == crate::tree_navigation::rows_view(tree_items@),
            self.filtered_tree_items matches Some(f) ==> r@.len() == f@.len() && forall|i: int|
                0 <= i < f@.len() ==> #[trigger] crate::tree_navigation::rows_view(r@)[i] == (
                items_view(f@)[i].0,
                items_view(f@)[i].1,
                items_view(f@)[i].2,
                ),
    {
        let mut r: Vec<(String, usize, bool)> = Vec::new();
        if let Some(filtered) = &self.filtered_tree_items {
            let mut i: usize = 0;
            while i < filtered.len()
                invariant
                    i <= filtered@.len(),
                    r@.len() == i,
                    forall|k: int|
                        0 <= k < i ==> #[trigger] crate::tree_navigation::rows_view(r@)[k] == (
                        items_view(filtered@)[k].0,
                        items_view(filtered@)[k].1,
                        items_view(filtered@)[k].2,
                        ),
                decreases filtered@.len() - i,
            {
                let item = &filtered[i];
                let ghost r_prev = r@;
                r.push((item.0.clone(), item.1, item.2));
                proof {
                    assert(crate::tree_navigation::rows_view(r@)[i as int] == (
                        item.0@,
                        item.1 as int,
                        item.2,
                    ));
                    assert(items_view(filtered@)[i as int] == item_view(filtered@[i as int]));
                    assert forall|k: int| 0 <= k < i implies #[trigger] crate::tree_navigation::rows_view(
                        r@,
                    )[k] == crate::tree_navigation::rows_view(r_prev)[k] by {
                        assert(r@[k] == r_prev[k]);
                    }
                }
                i = i + 1;
            }
            r
        } else {
            let mut i: usize = 0;
            while i < tree_items.len()
                invariant
                    i <= tree_items@.len(),
                    r@.len() == i,
                    forall|k: int|
                        0 <= k < i ==> #[trigger] crate::tree_navigation::rows_view(r@)[k]
                            == crate::tree_navigation::rows_view(tree_items@)[k],
                decreases tree_items@.len() - i,
            {
                let item = &tree_items[i];
                let ghost r_prev = r@;
                r.push((item.0.clone(), item.1, item.2));
                proof {
                    assert(crate::tree_navigation::rows_view(r@)[i as int] == (
                        item.0@,
                        item.1 as int,
                        item.2,
                    ));
                    assert(crate::tree_navigation::rows_view(tree_items@)[i as int] == (
                        item.0@,
                        item.1 as int,
                        item.2,
                    ));
                    assert forall|k: int| 0 <= k < i implies #[trigger] crate::tree_navigation::rows_view(
                        r@,
                    )[k] == crate::tree_navigation::rows_view(r_prev)[k] by {
                        assert(r@[k] == r_prev[k]);
                    }
                }
                i = i + 1;
            }
            proof {
                assert(crate::tree_navigation::rows_view(r@) =~= crate::tree_navigation::rows_view(
                    tree_items@,
                ));
            }
            r
        }
    }

    /// Get fuzzy search results with highlighting information.
    pub fn get_fuzzy_display_items(&self) -> (r: Option<&Vec<FilteredItem>>)
        ensures
            match r {
                Some(v) => self.filtered_tree_items == Some(*v),
                None => self.filtered_tree_items is None,
            },
    {
        self.filtered_tree_items.as_ref()
    }

    /// Get the original tree index for a filtered result at the given
    /// position: defined exactly when a filter stands and the position is in
    /// its range.
    pub fn get_original_index_for_filtered_item(&self, filtered_index: usize) -> (r: Option<usize>)
        ensures
            match r {
                Some(idx) => self.filtered_tree_items matches Some(f) && filtered_index < f@.len()
                    && idx == f@[filtered_index as int].5,
                None => self.filtered_tree_items is None || (self.filtered_tree_items matches Some(
                    f,
                ) && filtered_index >= f@.len()),
            },
    {
        if let Some(filtered) = &self.filtered_tree_items {
            if filtered_index < filtered.len() {
                Some(filtered[filtered_index].5)
            } else {
                None
            }
        } else {
            None
        }
    }

    /// Clear search data.
    pub fn cleanup(&mut self)
        ensures
            !final(self).search_mode,
            final(self).search_query@ == Seq::<char>::empty(),
            final(self).filtered_tree_items is None,
    {
        self.search_query = String::new();
        self.filtered_tree_items = None;
        self.search_mode = false;
    }
}

/// One more matching row appends one more entry (or none) to the matches.
pub proof fn lemma_matched_rows_snoc(rows: Seq<SpecRow>, q: Seq<char>, i: int)
    requires
        0 <= i < rows.len(),
    ensures
        matched_rows(rows.take(i + 1), q, 0) == matched_rows(rows.take(i), q, 0) + (
        if fuzzy_score(q, clean_text(rows[i].0)) is Some {
            seq![matched_row(rows[i], i, q)]
        } else {
            Seq::empty()
        }),
{
    lemma_matched_rows_snoc_base(rows, q, i + 1, 0);
}

/// Splitting the matches of a prefix at its last row, for any base index.
pub proof fn lemma_matched_rows_snoc_base(rows: Seq<SpecRow>, q: Seq<char>, n: int, base: int)
    requires
        0 < n <= rows.len(),
    ensures
        matched_rows(rows.take(n), q, base) == matched_rows(rows.take(n - 1), q, base) + (
        if fuzzy_score(q, clean_text(rows[n - 1].0)) is Some {
            seq![matched_row(rows[n - 1], base + n - 1, q)]
        } else {
            Seq::empty()
        }),
    decreases n,
{
    let a = rows.take(n);
    let b = rows.take(n - 1);
    if n == 1 {
        assert(a.drop_first() =~= Seq::<SpecRow>::empty());
        assert(b =~= Seq::<SpecRow>::empty());
        assert(matched_rows(Seq::<SpecRow>::empty(), q, base + 1) =~= Seq::<
            FilteredItemView,
        >::empty());
        assert(matched_rows(a, q, base) =~= matched_rows(b, q, base) + (
        if fuzzy_score(q, clean_text(rows[0].0)) is Some {
            seq![matched_row(rows[0], base, q)]
        } else {
            Seq::empty()
        }));
    } else {
        assert(a[0] == rows[0]);
        assert(b[0] == rows[0]);
        assert(a.drop_first() =~= rows.drop_first().take(n - 1));
        assert(b.drop_first() =~= rows.drop_first().take(n - 2));
        lemma_matched_rows_snoc_base(rows.drop_first(), q, n - 1, base + 1);
        assert(rows.drop_first()[n - 2] == rows[n - 1]);
        assert(matched_rows(a, q, base) =~= matched_rows(b, q, base) + (
        if fuzzy_score(q, clean_text(rows[n - 1].0)) is Some {
            seq![matched_row(rows[n - 1], base + n - 1, q)]
        } else {
            Seq::empty()
        }));
    }
}

/// Sort the matched rows by descending score with a stable insertion sort.
#[verifier::loop_isolation(false)]
fn sort_matches_desc(matches: Vec<FilteredItem>) -> (r: Vec<FilteredItem>)
    ensures
        items_view(r@) == sort_desc(items_view(matches@)),
{
    let ghost orig = items_view(matches@);
    let mut r: Vec<FilteredItem> = Vec::new();
    let mut i: usize = matches.len();
    proof {
        assert(items_view(matches@).skip(matches@.len() as int) =~= Seq::<FilteredItemView>::empty());
        assert(sort_desc(Seq::<FilteredItemView>::empty()) =~= Seq::<FilteredItemView>::empty());
        assert(items_view(r@) =~= Seq::<FilteredItemView>::empty());
    }
    while i > 0
        invariant
            i <= matches@.len(),
            items_view(r@) == sort_desc(items_view(matches@).skip(i as int)),
        decreases i,
    {
        i = i - 1;
        let ghost pre = items_view(matches@).skip(i as int);
        proof {
            assert(pre[0] == items_view(matches@)[i as int]);
            assert(pre.drop_first() =~= items_view(matches@).skip(i as int + 1));
        }
        let row = clone_filtered_item(&matches[i]);
        insert_sorted_desc(&mut r, row);
    }
    proof {
        assert(items_view(matches@).skip(0) =~= items_view(matches@));
    }
    r
}

/// Copy one filtered row.
fn clone_filtered_item(item: &FilteredItem) -> (r: FilteredItem)
    ensures
        item_view(r) == item_view(*item),
{
    let positions = crate::tree_navigation::clone_indices(&item.4);
    (item.0.clone(), item.1, item.2, item.3, positions, item.5)
}

/// Insert one row into a score-descending vector, in front of the first row
/// whose score is no larger.
#[verifier::loop_isolation(false)]
fn insert_sorted_desc(r: &mut Vec<FilteredItem>, row: FilteredItem)
    ensures
        items_view(final(r)@) == insert_desc(item_view(row), items_view(old(r)@)),
{
    let mut pos: usize = 0;
    proof {
        assert(items_view(old(r)@).take(0) =~= Seq::<FilteredItemView>::empty());
        assert(items_view(old(r)@).skip(0) =~= items_view(old(r)@));
        assert(items_view(old(r)@).take(0) + insert_desc(item_view(row), items_view(old(r)@))
            =~= insert_desc(item_view(row), items_view(old(r)@)));
    }
    while pos < r.len() && row.3 < r[pos].3
        invariant
            pos <= r@.len(),
            r == old(r),
            insert_desc(item_view(row), items_view(old(r)@)) == items_view(old(r)@).take(
                pos as int,
            ) + insert_desc(item_view(row), items_view(old(r)@).skip(pos as int)),
        decreases r@.len() - pos,
    {
        proof {
            let s = items_view(old(r)@).skip(pos as int);
            assert(s[0] == items_view(old(r)@)[pos as int]);
            assert(s.drop_first() =~= items_view(old(r)@).skip(pos as int + 1));
            assert(items_view(old(r)@).take(pos as int).push(items_view(old(r)@)[pos as int]) =~=
                items_view(old(r)@).take(pos as int + 1));
            assert(items_view(old(r)@).take(pos as int) + (seq![s[0]] + insert_desc(
                item_view(row),
                s.drop_first(),
            )) =~= items_view(old(r)@).take(pos as int + 1) + insert_desc(
                item_view(row),
                items_view(old(r)@).skip(pos as int + 1),
            ));
        }
        pos = pos + 1;
    }
    proof {
        let s = items_view(old(r)@).skip(pos as int);
        if pos < r@.len() {
            assert(s[0] == items_view(old(r)@)[pos as int]);
        } else {
            assert(s =~= Seq::<FilteredItemView>::empty());
        }
        assert(insert_desc(item_view(row), s) =~= seq![item_view(row)] + s);
    }
    r.insert(pos, row);
    proof {
        assert(items_view(r@) =~= items_view(old(r)@).take(pos as int) + (seq![item_view(row)]
            + items_view(old(r)@).skip(pos as int)));
    }
}

/// P5: one filter pass never grows the row count; every retained row carries
/// a match for the query; and every retained row is a faithful copy of the
/// input row its original index names.
pub proof fn lemma_filter_sound(rows: Seq<SpecRow>, q: Seq<char>)
    ensures
        filter_result(rows, q).len() <= rows.len(),
        forall|k: int|
            0 <= k < filter_result(rows, q).len() ==> {
                let row = #[trigger] filter_result(rows, q)[k];
                &&& 0 <= row.5 < rows.len()
                &&& fuzzy_score(q, clean_text(rows[row.5].0)) is Some
                &&& row == matched_row(rows[row.5], row.5, q)
            },
{
    lemma_matched_rows_sound(rows, q, 0);
    lemma_sort_desc_keeps_rows(matched_rows(rows, q, 0));
    assert forall|k: int| 0 <= k < filter_result(rows, q).len() implies {
        let row = #[trigger] filter_result(rows, q)[k];
        &&& 0 <= row.5 < rows.len()
        &&& fuzzy_score(q, clean_text(rows[row.5].0)) is Some
        &&& row == matched_row(rows[row.5], row.5, q)
    } by {
        let row = filter_result(rows, q)[k];
        let m = matched_rows(rows, q, 0);
        assert(sort_desc(m).contains(row)) by {
            assert(sort_desc(m)[k] == row);
        }
        assert(sort_desc(m).to_multiset().count(row) > 0);
        assert(m.to_multiset().count(row) > 0);
        assert(m.contains(row));
        let j = choose|j: int| 0 <= j < m.len() && m[j] == row;
    }
}

/// Each matched row carries a valid original index, a match, and the fields
/// of the row it came from; the matches are no more than the items.
pub proof fn lemma_matched_rows_sound(rows: Seq<SpecRow>, q: Seq<char>, base: int)
    ensures
        matched_rows(rows, q, base).len() <= rows.len(),
        forall|k: int|
            0 <= k < matched_rows(rows, q, base).len() ==> {
                let row = #[trigger] matched_rows(rows, q, base)[k];
                &&& base <= row.5 < base + rows.len()
                &&& fuzzy_score(q, clean_text(rows[row.5 - base].0)) is Some
                &&& row == matched_row(rows[row.5 - base], row.5, q)
            },
    decreases rows.len(),
{
    if rows.len() > 0 {
        lemma_matched_rows_sound(rows.drop_first(), q, base + 1);
    }
}

/// Sorting keeps exactly the rows: the sorted list is a permutation.
pub proof fn lemma_sort_desc_keeps_rows(s: Seq<FilteredItemView>)
    ensures
        sort_desc(s).len() == s.len(),
        sort_desc(s).to_multiset() == s.to_multiset(),
    decreases s.len(),
{
    if s.len() == 0 {
        assert(sort_desc(s) =~= Seq::<FilteredItemView>::empty());
    } else {
        lemma_sort_desc_keeps_rows(s.drop_first());
        lemma_insert_desc_keeps_rows(s[0], sort_desc(s.drop_first()));
        assert(s =~= seq![s[0]] + s.drop_first());
        lemma_multiset_cons(s[0], s.drop_first());
        lemma_multiset_cons(s[0], sort_desc(s.drop_first()));
    }
}

/// Inserting keeps exactly the rows.
pub proof fn lemma_insert_desc_keeps_rows(x: FilteredItemView, s: Seq<FilteredItemView>)
    ensures
        insert_desc(x, s).len() == s.len() + 1,
        insert_desc(x, s).to_multiset() == (seq![x] + s).to_multiset(),
    decreases s.len(),
{
    if s.len() == 0 {
        assert(insert_desc(x, s) =~= seq![x] + s);
    } else if x.3 >= s[0].3 {
    } else {
        lemma_insert_desc_keeps_rows(x, s.drop_first());
        lemma_multiset_cons(s[0], insert_desc(x, s.drop_first()));
        lemma_multiset_cons(s[0], seq![x] + s.drop_first());
        lemma_multiset_cons(x, s);
        lemma_multiset_cons(x, s.drop_first());
        assert((seq![s[0]] + (seq![x] + s.drop_first())).to_multiset() =~= (seq![x]
            + s).to_multiset()) by {
            lemma_multiset_cons(s[0], seq![x] + s.drop_first());
            lemma_multiset_cons(x, s.drop_first());
            lemma_multiset_cons(x, s);
            assert(s =~= seq![s[0]] + s.drop_first());
            lemma_multiset_cons(s[0], s.drop_first());
        }
    }
}

/// Prepending one row adds it to the multiset of rows.
pub proof fn lemma_multiset_cons(x: FilteredItemView, s: Seq<FilteredItemView>)
    ensures
        (seq![x] + s).to_multiset() == s.to_multiset().insert(x),
{
    assert(seq![x] + s =~= s.insert(0, x));
    assert(s.insert(0, x).to_multiset() == s.to_multiset().insert(x));
}

/// Every row of an insertion stays bounded by a bound on the inserted row
/// and the list.
pub proof fn lemma_insert_desc_bound(x: FilteredItemView, s: Seq<FilteredItemView>, b: int)
    requires
        x.3 <= b,
        forall|i: int| 0 <= i < s.len() ==> (#[trigger] s[i]).3 <= b,
    ensures
        forall|i: int|
            0 <= i < insert_desc(x, s).len() ==> (#[trigger] insert_desc(x, s)[i]).3 <= b,
    decreases s.len(),
{
    if s.len() == 0 {
    } else if x.3 >= s[0].3 {
    } else {
        lemma_insert_desc_bound(x, s.drop_first(), b);
        assert forall|i: int|
            0 <= i < insert_desc(x, s).len() implies (#[trigger] insert_desc(x, s)[i]).3 <= b by {
            if i > 0 {
                assert(insert_desc(x, s)[i] == insert_desc(x, s.drop_first())[i - 1]);
            }
        }
    }
}

/// Whether the rows stand in descending score order.
pub open spec fn scores_descending(s: Seq<FilteredItemView>) -> bool {
    forall|i: int, j: int| 0 <= i < j < s.len() ==> (#[trigger] s[i]).3 >= (#[trigger] s[j]).3
}

/// Whether rows with equal scores stand in the order of the rows they came
/// from.
pub open spec fn stable_by_origin(s: Seq<FilteredItemView>) -> bool {
    forall|i: int, j: int|
        0 <= i < j < s.len() && (#[trigger] s[i]).3 == (#[trigger] s[j]).3 ==> s[i].5 < s[j].5
}

/// The matched rows carry strictly increasing original indices: matching
/// keeps the input order.
pub proof fn lemma_matched_rows_increasing(rows: Seq<SpecRow>, q: Seq<char>, base: int)
    ensures
        forall|i: int, j: int|
            0 <= i < j < matched_rows(rows, q, base).len() ==> (#[trigger] matched_rows(
                rows,
                q,
                base,
            )[i]).5 < (#[trigger] matched_rows(rows, q, base)[j]).5,
    decreases rows.len(),
{
    if rows.len() > 0 {
        let m = matched_rows(rows, q, base);
        let tail = matched_rows(rows.drop_first(), q, base + 1);
        lemma_matched_rows_increasing(rows.drop_first(), q, base + 1);
        lemma_matched_rows_sound(rows.drop_first(), q, base + 1);
        if fuzzy_score(q, clean_text(rows[0].0)) is Some {
            assert forall|i: int, j: int| 0 <= i < j < m.len() implies (#[trigger] m[i]).5 < (
            #[trigger] m[j]).5 by {
                if i == 0 {
                    assert(m[j] == tail[j - 1]);
                } else {
                    assert(m[i] == tail[i - 1]);
                    assert(m[j] == tail[j - 1]);
                }
            }
        } else {
            assert forall|i: int, j: int| 0 <= i < j < m.len() implies (#[trigger] m[i]).5 < (
            #[trigger] m[j]).5 by {
                assert(m[i] == tail[i]);
                assert(m[j] == tail[j]);
            }
        }
    }
}

/// Inserting a row whose origin is below every origin of a descending,
/// origin-stable list keeps the list descending and origin-stable.
pub proof fn lemma_insert_desc_stable(x: FilteredItemView, s: Seq<FilteredItemView>)
    requires
        scores_descending(s),
        stable_by_origin(s),
        forall|i: int| 0 <= i < s.len() ==> x.5 < (#[trigger] s[i]).5,
    ensures
        scores_descending(insert_desc(x, s)),
        stable_by_origin(insert_desc(x, s)),
    decreases s.len(),
{
    lemma_insert_desc_keeps_rows(x, s);
    if s.len() == 0 {
    } else if x.3 >= s[0].3 {
        let r = insert_desc(x, s);
        assert forall|i: int, j: int| 0 <= i < j < r.len() implies (#[trigger] r[i]).3 >= (
        #[trigger] r[j]).3 by {
            if i > 0 {
                assert(r[i] == s[i - 1]);
                assert(r[j] == s[j - 1]);
            } else {
                assert(r[j] == s[j - 1]);
                if j - 1 > 0 {
                    assert(s[0].3 >= s[j - 1].3);
                }
            }
        }
        assert forall|i: int, j: int|
            0 <= i < j < r.len() && (#[trigger] r[i]).3 == (#[trigger] r[j]).3 implies r[i].5
            < r[j].5 by {
            if i > 0 {
                assert(r[i] == s[i - 1]);
                assert(r[j] == s[j - 1]);
            } else {
                assert(r[j] == s[j - 1]);
            }
        }
    } else {
        let tail = s.drop_first();
        lemma_insert_desc_stable(x, tail);
        lemma_insert_desc_bound(x, tail, s[0].3);
        lemma_insert_desc_keeps_rows(x, tail);
        let t = insert_desc(x, tail);
        let r = insert_desc(x, s);
        assert(r == seq![s[0]] + t);
        assert forall|i: int, j: int| 0 <= i < j < r.len() implies (#[trigger] r[i]).3 >= (
        #[trigger] r[j]).3 by {
            if i > 0 {
                assert(r[i] == t[i - 1]);
                assert(r[j] == t[j - 1]);
            } else {
                assert(r[j] == t[j - 1]);
            }
        }
        assert forall|i: int, j: int|
            0 <= i < j < r.len() && (#[trigger] r[i]).3 == (#[trigger] r[j]).3 implies r[i].5
            < r[j].5 by {
            if i > 0 {
                assert(r[i] == t[i - 1]);
                assert(r[j] == t[j - 1]);
            } else {
                let e = t[j - 1];
                assert(r[j] == e);
                // the element beside the head is the inserted row or a row of
                // the tail; the inserted row's score differs from the head's
                assert(t.to_multiset().count(e) > 0);
                if e == x {
                } else {
                    assert((seq![x] + tail).to_multiset().count(e) > 0) by {
                        lemma_multiset_cons(x, tail);
                    }
                    assert(tail.to_multiset().count(e) > 0) by {
                        lemma_multiset_cons(x, tail);
                    }
                    assert(tail.contains(e));
                    let k = choose|k: int| 0 <= k < tail.len() && tail[k] == e;
                    assert(s[k + 1] == e);
                    assert(s[0].5 < s[k + 1].5);
                }
            }
        }
    }
}

/// Sorting a list of strictly increasing origins is stable: rows with equal
/// scores keep their original relative order, and scores descend.
pub proof fn lemma_sort_desc_stable(s: Seq<FilteredItemView>)
    requires
        forall|i: int, j: int| 0 <= i < j < s.len() ==> (#[trigger] s[i]).5 < (#[trigger] s[j]).5,
    ensures
        scores_descending(sort_desc(s)),
        stable_by_origin(sort_desc(s)),
    decreases s.len(),
{
    if s.len() > 0 {
        let tail = s.drop_first();
        lemma_sort_desc_stable(tail);
        lemma_sort_desc_keeps_rows(tail);
        assert forall|i: int| 0 <= i < sort_desc(tail).len() implies s[0].5 < (
        #[trigger] sort_desc(tail)[i]).5 by {
            let e = sort_desc(tail)[i];
            assert(sort_desc(tail).contains(e));
            assert(sort_desc(tail).to_multiset().count(e) > 0);
            assert(tail.to_multiset().count(e) > 0);
            assert(tail.contains(e));
            let k = choose|k: int| 0 <= k < tail.len() && tail[k] == e;
            assert(s[k + 1] == e);
        }
        lemma_insert_desc_stable(s[0], sort_desc(tail));
    }
}

/// The ranking law of one filter pass: retained rows stand in descending
/// score order, and rows with equal scores keep the order they held in the
/// unfiltered rows.
pub proof fn lemma_filter_ranking(rows: Seq<SpecRow>, q: Seq<char>)
    ensures
        scores_descending(filter_result(rows, q)),
        stable_by_origin(filter_result(rows, q)),
{
    lemma_matched_rows_increasing(rows, q, 0);
    lemma_sort_desc_stable(matched_rows(rows, q, 0));
}

} // verus!
