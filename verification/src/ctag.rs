//! The label-management command surface: its argument shapes, the parsing of
//! tag lists and updates, and the rendering of matched pages. Printing and
//! remote queries happen outside the library.

use vstd::prelude::*;
use vstd::string::StringExecFns;

use crate::confluence::ConfluencePage;
use crate::strutil::{join_with, spec_trim, strings_view};

verus! {

broadcast use vstd::std_specs::vec::group_vec_axioms;

/// ctag command: operate on Confluence page labels matched by a CQL
/// expression.
#[derive(Debug, PartialEq)]
pub struct CtagCmd {
    pub operation: CtagOp,
}

/// The operations of the ctag command, with their arguments.
#[derive(Debug, PartialEq)]
pub enum CtagOp {
    /// List labels for pages matching the CQL expression.
    List {
        /// CQL expression selecting pages to operate on.
        cql: String,
        /// Optional comma-separated list of tags to highlight in the output.
        tags: Option<String>,
        /// Display results in tree format.
        tree: bool,
    },
    /// Add labels to pages matching the CQL expression.
    Add {
        /// CQL expression selecting pages to operate on.
        cql: String,
        /// Comma-separated list of labels to add.
        tags: String,
    },
    /// Update labels on pages matching the CQL expression.
    Update {
        /// CQL expression selecting pages to operate on.
        cql: String,
        /// Comma-separated list of label updates in the form "old:new".
        tags: String,
    },
    /// Remove labels from pages matching the CQL expression.
    Remove {
        /// CQL expression selecting pages to operate on.
        cql: String,
        /// Comma-separated list of labels to remove.
        tags: String,
    },
}

/// The pieces a string splits into at a separator; splitting always yields at
/// least one (possibly empty) piece.
pub open spec fn split_rec(s: Seq<char>, sep: char, current: Seq<char>, acc: Seq<Seq<char>>) -> Seq<
    Seq<char>,
>
    decreases s.len(),
{
    if s.len() == 0 {
        acc.push(current)
    } else if s[0] == sep {
        split_rec(s.drop_first(), sep, Seq::empty(), acc.push(current))
    } else {
        split_rec(s.drop_first(), sep, current.push(s[0]), acc)
    }
}

/// The pieces a string splits into at a separator.
pub open spec fn split_on(s: Seq<char>, sep: char) -> Seq<Seq<char>> {
    split_rec(s, sep, Seq::empty(), Seq::empty())
}

/// The comma-separated tags of a tag list, each trimmed.
pub open spec fn spec_tag_list(s: Seq<char>) -> Seq<Seq<char>> {
    split_on(s, ',').map_values(|p: Seq<char>| spec_trim(p))
}

/// Split a string at a separator into its pieces.
pub fn split_string(s: &str, sep: char) -> (r: Vec<Vec<char>>)
    ensures
        r@.map_values(|p: Vec<char>| p@) == split_on(s@, sep),
{
    let chars = crate::strutil::str_chars(s);
    split_chars(&chars, sep)
}

/// Split characters at a separator into the pieces between its occurrences.
#[verifier::loop_isolation(false)]
pub fn split_chars(chars: &Vec<char>, sep: char) -> (r: Vec<Vec<char>>)
    ensures
        r@.map_values(|p: Vec<char>| p@) == split_on(chars@, sep),
{
    let ghost u = chars@;
    let mut pieces: Vec<Vec<char>> = Vec::new();
    let mut current: Vec<char> = Vec::new();
    let mut i: usize = 0;
    proof {
        assert(u.skip(0) =~= u);
        assert(current@ =~= Seq::<char>::empty());
        assert(pieces@.map_values(|p: Vec<char>| p@) =~= Seq::<Seq<char>>::empty());
    }
    while i < chars.len()
        invariant
            i <= u.len(),
            chars@ == u,
            split_on(u, sep) == split_rec(
                u.skip(i as int),
                sep,
                current@,
                pieces@.map_values(|p: Vec<char>| p@),
            ),
        decreases u.len() - i,
    {
        let c = chars[i];
        proof {
            assert(u.skip(i as int)[0] == c);
            assert(u.skip(i as int).drop_first() =~= u.skip(i as int + 1));
        }
        if c == sep {
            let ghost prev = pieces@;
            pieces.push(current);
            current = Vec::new();
            proof {
                assert(pieces@.map_values(|p: Vec<char>| p@) =~= prev.map_values(
                    |p: Vec<char>| p@,
                ).push(pieces@.last()@));
            }
        } else {
            current.push(c);
        }
        i = i + 1;
    }
    proof {
        assert(u.skip(u.len() as int) =~= Seq::<char>::empty());
    }
    let ghost prev = pieces@;
    pieces.push(current);
    proof {
        assert(pieces@.map_values(|p: Vec<char>| p@) =~= prev.map_values(|p: Vec<char>| p@).push(
            pieces@.last()@,
        ));
    }
    pieces
}

/// Parse a comma-separated tag list: the tags, each trimmed.
pub fn parse_tag_list(tags: &str) -> (r: Vec<String>)
    ensures
        strings_view(r@) == spec_tag_list(tags@),
{
    let pieces = split_string(tags, ',');
    let mut r: Vec<String> = Vec::new();
    let mut i: usize = 0;
    while i < pieces.len()
        invariant
            i <= pieces@.len(),
            r@.len() == i,
            forall|k: int| 0 <= k < i ==> (#[trigger] r@[k])@ == spec_trim(pieces@[k]@),
        decreases pieces@.len() - i,
    {
        let trimmed = crate::strutil::trim_spaces(&pieces[i]);
        r.push(crate::strutil::chars_to_string(&trimmed));
        i = i + 1;
    }
    proof {
        assert(strings_view(r@) =~= spec_tag_list(tags@));
    }
    r
}

/// What one comma-piece of an update list means: trimmed, it must split at a
/// colon into exactly an old and a new label, each trimmed.
pub open spec fn spec_update_of(piece: Seq<char>) -> Result<(Seq<char>, Seq<char>), Seq<char>> {
    let p = spec_trim(piece);
    let parts = split_on(p, ':');
    if parts.len() != 2 {
        Err("Invalid update format '"@ + p + "'. Expected 'old:new'"@)
    } else {
        Ok((spec_trim(parts[0]), spec_trim(parts[1])))
    }
}

/// What an update list means: every piece must be a valid update; the first
/// invalid piece names the failure.
pub open spec fn parse_updates_rec(pieces: Seq<Seq<char>>) -> Result<
    Seq<(Seq<char>, Seq<char>)>,
    Seq<char>,
>
    decreases pieces.len(),
{
    if pieces.len() == 0 {
        Ok(Seq::empty())
    } else {
        match spec_update_of(pieces[0]) {
            Err(e) => Err(e),
            Ok(u) => match parse_updates_rec(pieces.drop_first()) {
                Ok(rest) => Ok(seq![u] + rest),
                Err(e) => Err(e),
            },
        }
    }
}

/// The label updates a comma-separated "old:new" list means.
pub open spec fn spec_label_updates(s: Seq<char>) -> Result<
    Seq<(Seq<char>, Seq<char>)>,
    Seq<char>,
> {
    parse_updates_rec(split_on(s, ','))
}

/// The views of label update pairs, in order.
pub open spec fn updates_view(s: Seq<(String, String)>) -> Seq<(Seq<char>, Seq<char>)> {
    s.map_values(|u: (String, String)| (u.0@, u.1@))
}

/// How the remaining pieces extend what is already parsed: a failure among
/// them is the whole result; otherwise the whole result appends them.
pub open spec fn updates_continue(
    total: Result<Seq<(Seq<char>, Seq<char>)>, Seq<char>>,
    done: Seq<(Seq<char>, Seq<char>)>,
    rest: Result<Seq<(Seq<char>, Seq<char>)>, Seq<char>>,
) -> bool {
    match rest {
        Ok(r) => total == Ok::<_, Seq<char>>(done + r),
        Err(e) => total == Err::<Seq<(Seq<char>, Seq<char>)>, _>(e),
    }
}

/// Parse a comma-separated list of "old:new" label updates. Succeeds exactly
/// when every piece has that shape; the error message names the first piece
/// that does not.
#[verifier::loop_isolation(false)]
pub fn parse_label_updates(tags: &str) -> (r: Result<Vec<(String, String)>, String>)
    ensures
        match r {
            Ok(updates) => spec_label_updates(tags@) == Ok::<_, Seq<char>>(updates_view(updates@)),
            Err(e) => spec_label_updates(tags@) == Err::<Seq<(Seq<char>, Seq<char>)>, _>(e@),
        },
{
    let pieces = split_string(tags, ',');
    let ghost pviews = pieces@.map_values(|p: Vec<char>| p@);
    let mut out: Vec<(String, String)> = Vec::new();
    let mut i: usize = 0;
    proof {
        assert(pviews.skip(0) =~= pviews);
        assert(updates_view(out@) =~= Seq::<(Seq<char>, Seq<char>)>::empty());
        match parse_updates_rec(pviews) {
            Ok(r) => {
                assert(updates_view(out@) + r =~= r);
            },
            Err(_) => {},
        }
    }
    while i < pieces.len()
        invariant
            i <= pviews.len(),
            pieces@.map_values(|p: Vec<char>| p@) == pviews,
            updates_continue(
                spec_label_updates(tags@),
                updates_view(out@),
                parse_updates_rec(pviews.skip(i as int)),
            ),
        decreases pviews.len() - i,
    {
        proof {
            assert(pviews.skip(i as int)[0] == pviews[i as int]);
            assert(pviews.skip(i as int).drop_first() =~= pviews.skip(i as int + 1));
        }
        let trimmed = crate::strutil::trim_spaces(&pieces[i]);
        let parts = split_chars(&trimmed, ':');
        if parts.len() != 2 {
            let mut msg = String::from_str("Invalid update format '");
            let trimmed_str = crate::strutil::chars_to_string(&trimmed);
            msg.append(trimmed_str.as_str());
            msg.append("'. Expected 'old:new'");
            proof {
                assert(spec_update_of(pviews[i as int]) == Err::<(Seq<char>, Seq<char>), _>(msg@));
            }
            return Err(msg);
        }
        let old_part = crate::strutil::trim_spaces(&parts[0]);
        let new_part = crate::strutil::trim_spaces(&parts[1]);
        let update = (
            crate::strutil::chars_to_string(&old_part),
            crate::strutil::chars_to_string(&new_part),
        );
        let ghost prev = out@;
        let ghost u = (update.0@, update.1@);
        out.push(update);
        proof {
            assert(updates_view(out@) =~= updates_view(prev).push(u));
            assert(parts@.map_values(|p: Vec<char>| p@)[0] == parts@[0]@);
            assert(parts@.map_values(|p: Vec<char>| p@)[1] == parts@[1]@);
            assert(spec_update_of(pviews[i as int]) == Ok::<_, Seq<char>>(u));
            match parse_updates_rec(pviews.skip(i as int + 1)) {
                Ok(rest) => {
                    assert(updates_view(prev) + (seq![u] + rest) =~= updates_view(out@) + rest);
                },
                Err(_) => {},
            }
        }
        i = i + 1;
    }
    proof {
        assert(pviews.skip(pviews.len() as int) =~= Seq::<Seq<char>>::empty());
        assert(parse_updates_rec(Seq::<Seq<char>>::empty()) == Ok::<_, Seq<char>>(
            Seq::<(Seq<char>, Seq<char>)>::empty(),
        ));
        assert(updates_view(out@) + Seq::<(Seq<char>, Seq<char>)>::empty() =~= updates_view(out@));
    }
    Ok(out)
}

/// Extract labels from a page's metadata: the label names, in order, or
/// nothing when the page carries no label metadata.
pub fn get_page_labels(page: &ConfluencePage) -> (r: Vec<String>)
    ensures
        page.metadata matches Some(m) ==> (m.labels matches Some(l) ==> r@.len()
            == l.results@.len() && forall|i: int|
            0 <= i < l.results@.len() ==> (#[trigger] r@[i])@ == l.results@[i].name@),
        page.metadata is None ==> r@.len() == 0,
        page.metadata matches Some(m) ==> (m.labels is None ==> r@.len() == 0),
{
    match &page.metadata {
        Some(metadata) => match &metadata.labels {
            Some(labels) => crate::confluence::label_names(labels),
            None => Vec::new(),
        },
        None => Vec::new(),
    }
}

/// Whether a page should be highlighted: some of its labels is among the
/// requested highlight tags.
#[verifier::loop_isolation(false)]
pub fn should_highlight_page(page_labels: &Vec<String>, highlight_tags: Option<&Vec<String>>) -> (r:
    bool)
    ensures
        highlight_tags is None ==> !r,
        highlight_tags matches Some(tags) ==> r == exists|i: int, j: int|
            #![auto]
            0 <= i < page_labels@.len() && 0 <= j < tags@.len() && page_labels@[i]@ == tags@[j]@,
{
    if let Some(tags) = highlight_tags {
        let mut i: usize = 0;
        while i < page_labels.len()
            invariant
                i <= page_labels@.len(),
                forall|a: int, j: int|
                    0 <= a < i && 0 <= j < tags@.len() ==> page_labels@[a]@ != tags@[j]@,
            decreases page_labels@.len() - i,
        {
            let mut j: usize = 0;
            while j < tags.len()
                invariant
                    i < page_labels@.len(),
                    j <= tags@.len(),
                    forall|b: int| 0 <= b < j ==> page_labels@[i as int]@ != tags@[b]@,
                decreases tags@.len() - j,
            {
                if crate::strutil::str_eq(page_labels[i].as_str(), tags[j].as_str()) {
                    proof {
                        let a = i as int;
                        let b = j as int;
                        assert(0 <= a < page_labels@.len() && 0 <= b < tags@.len()
                            && page_labels@[a]@ == tags@[b]@);
                    }
                    return true;
                }
                j = j + 1;
            }
            i = i + 1;
        }
        false
    } else {
        false
    }
}

/// A page title as displayed: highlighted in yellow when asked.
pub fn page_display_name(title: &str, highlight: bool) -> (r: String)
    ensures
        highlight ==> r@ == "\u{1b}[1;33m"@ + title@ + "\u{1b}[0m"@,
        !highlight ==> r@ == title@,
{
    if highlight {
        let mut s = String::from_str("\u{1b}[1;33m");
        s.append(title);
        s.append("\u{1b}[0m");
        s
    } else {
        title.to_owned()
    }
}

/// One line of the tree-format listing: the prefix, the branch symbol, the
/// display name, and the labels in brackets when there are any.
pub fn tree_page_line(
    prefix: &str,
    is_last: bool,
    display_name: &str,
    labels: &Vec<String>,
) -> (r: String)
    ensures
        labels@.len() > 0 ==> r@ == prefix@ + (if is_last {
            "\u{2514}\u{2500}\u{2500} "@
        } else {
            "\u{251c}\u{2500}\u{2500} "@
        }) + display_name@ + " ["@ + join_with(strings_view(labels@), ", "@) + "]"@,
        labels@.len() == 0 ==> r@ == prefix@ + (if is_last {
            "\u{2514}\u{2500}\u{2500} "@
        } else {
            "\u{251c}\u{2500}\u{2500} "@
        }) + display_name@,
{
    let mut s = String::new();
    s.append(prefix);
    if is_last {
        s.append("\u{2514}\u{2500}\u{2500} ");
    } else {
        s.append("\u{251c}\u{2500}\u{2500} ");
    }
    s.append(display_name);
    if labels.len() > 0 {
        s.append(" [");
        let joined = crate::strutil::join_strings(labels, ", ");
        s.append(joined.as_str());
        s.append("]");
    }
    s
}

/// One line of the flat listing: the display name, and the labels in
/// brackets when there are any.
pub fn flat_page_line(display_name: &str, labels: &Vec<String>) -> (r: String)
    ensures
        labels@.len() > 0 ==> r@ == display_name@ + " ["@ + join_with(
            strings_view(labels@),
            ", "@,
        ) + "]"@,
        labels@.len() == 0 ==> r@ == display_name@,
{
    let mut s = String::new();
    s.append(display_name);
    if labels.len() > 0 {
        s.append(" [");
        let joined = crate::strutil::join_strings(labels, ", ");
        s.append(joined.as_str());
        s.append("]");
    }
    s
}

/// The prefix the children of a tree line continue with.
pub fn child_prefix(prefix: &str, is_last: bool) -> (r: String)
    ensures
        is_last ==> r@ == prefix@ + "    "@,
        !is_last ==> r@ == prefix@ + "\u{2502}   "@,
{
    let mut s = String::new();
    s.append(prefix);
    if is_last {
        s.append("    ");
    } else {
        s.append("\u{2502}   ");
    }
    s
}

} // verus!
