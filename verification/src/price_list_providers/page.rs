//! Reading a page of the market: finding elements and finding a pattern.
//!
//! Both are calls into outside crates, `scraper` for the page and `regex`
//! for the pattern. What they return is named, not described: it depends on
//! the arguments alone.

use vstd::prelude::*;
use vstd::string::StringExecFns;

verus! {

/// What `scraper` finds in `page` under the CSS selector `selector`: for
/// every element that the selector matches, in the order of the page, the
/// text nodes inside the element, in order; or nothing where the selector is
/// not valid.
pub uninterp spec fn element_texts(page: Seq<char>, selector: Seq<char>) -> Option<
    Seq<Seq<Seq<char>>>,
>;

/// What `regex` finds in `text` under the pattern `pattern`: the first
/// stretch of the text that matches, or nothing where the pattern is not
/// valid or matches nowhere.
pub uninterp spec fn first_match(pattern: Seq<char>, text: Seq<char>) -> Option<Seq<char>>;

/// The views of a list of texts, in order.
pub open spec fn string_views(texts: Seq<String>) -> Seq<Seq<char>> {
    texts.map_values(|text: String| text@)
}

/// The texts of a list of elements with their text nodes.
pub open spec fn node_views(elements: Seq<Vec<String>>) -> Seq<Seq<Seq<char>>> {
    elements.map_values(|nodes: Vec<String>| string_views(nodes@))
}

/// The texts put one behind the other.
pub open spec fn joined(texts: Seq<Seq<char>>) -> Seq<char>
    decreases texts.len(),
{
    if texts.len() == 0 {
        Seq::empty()
    } else {
        joined(texts.drop_last()) + texts.last()
    }
}

/// The text inside the first element of `page` that `selector` matches:
/// its text nodes put one behind the other. There is none where the
/// selector is not valid or matches no element.
pub open spec fn first_element_text(page: Seq<char>, selector: Seq<char>) -> Option<Seq<char>> {
    match element_texts(page, selector) {
        Some(found) => if found.len() > 0 {
            Some(joined(found[0]))
        } else {
            None
        },
        None => None,
    }
}

/// The text nodes inside every element of `page` that `selector` matches.
///
/// Parses the selector with `scraper::Selector::parse` and the page with
/// `scraper::Html::parse_document`, and hands out, element by element of
/// `Html::select`, the text nodes that `ElementRef::text` yields.
#[verifier::external_body]
pub(crate) fn select_texts(page: &str, selector: &str) -> (elements: Option<Vec<Vec<String>>>)
    ensures
        match elements {
            Some(found) => element_texts(page@, selector@) == Some(node_views(found@)),
            None => element_texts(page@, selector@) is None,
        },
{
    let selector = scraper::Selector::parse(selector).ok()?;
    let html = scraper::Html::parse_document(page);
    let texts = html.select(&selector).map(
        |element| element.text().map(|text| text.to_string()).collect(),
    );
    Some(texts.collect())
}

/// The text inside the first element of `page` that `selector` matches;
/// see [`first_element_text`].
pub fn select_first_text(page: &str, selector: &str) -> (text: Option<String>)
    ensures
        match text {
            Some(found) => first_element_text(page@, selector@) == Some(found@),
            None => first_element_text(page@, selector@) is None,
        },
{
    let elements = match select_texts(page, selector) {
        Some(elements) => elements,
        None => {
            return None;
        },
    };
    if elements.len() == 0 {
        return None;
    }
    let nodes = &elements[0];
    let ghost texts = string_views(nodes@);
    assert(node_views(elements@)[0] == texts);
    let mut text = String::new();
    let mut k: usize = 0;
    assert(texts.take(0) =~= Seq::<Seq<char>>::empty());
    while k < nodes.len()
        invariant
            k <= nodes.len(),
            texts == string_views(nodes@),
            text@ == joined(texts.take(k as int)),
        decreases nodes.len() - k,
    {
        proof {
            assert(texts.take(k + 1).drop_last() =~= texts.take(k as int));
            assert(texts.take(k + 1).last() == nodes@[k as int]@);
        }
        text = text.concat(nodes[k].as_str());
        k += 1;
    }
    assert(texts.take(k as int) =~= texts);
    Some(text)
}

/// The first stretch of `text` that matches `pattern`.
///
/// Builds the pattern with `regex::Regex::new` and searches with
/// `Regex::find`.
#[verifier::external_body]
pub(crate) fn find_first_match(pattern: &str, text: &str) -> (found: Option<String>)
    ensures
        match found {
            Some(matched) => first_match(pattern@, text@) == Some(matched@),
            None => first_match(pattern@, text@) is None,
        },
{
    let pattern = regex::Regex::new(pattern).ok()?;
    pattern.find(text).map(|found| found.as_str().to_owned())
}

/// What `scraper` finds in `page` under the CSS selector `selector`: for
/// every element that the selector matches, in the order of the page, the
/// text with which the element begins, if it begins with text; or nothing
/// where the selector is not valid.
pub uninterp spec fn first_child_texts(page: Seq<char>, selector: Seq<char>) -> Option<
    Seq<Option<Seq<char>>>,
>;

/// The texts of a list of cells that may have a text each.
pub open spec fn text_views(cells: Seq<Option<String>>) -> Seq<Option<Seq<char>>> {
    cells.map_values(
        |cell: Option<String>|
            match cell {
                Some(text) => Some(text@),
                None => None,
            },
    )
}

/// The text with which every element of `page` begins that `selector` matches.
///
/// Parses the selector with `scraper::Selector::parse` and the page with
/// `scraper::Html::parse_document`, and hands out, element by element of
/// `Html::select`, the first child of the element if it is a text node.
#[verifier::external_body]
pub(crate) fn select_first_child_texts(
    page: &str,
    selector: &str,
) -> (cells: Option<Vec<Option<String>>>)
    ensures
        match cells {
            Some(found) => first_child_texts(page@, selector@) == Some(text_views(found@)),
            None => first_child_texts(page@, selector@) is None,
        },
{
    let selector = scraper::Selector::parse(selector).ok()?;
    let html = scraper::Html::parse_document(page);
    let texts = html.select(&selector).map(
        |cell| cell.first_child().and_then(|child| child.value().as_text().map(|text| text.to_string())),
    );
    Some(texts.collect())
}

} // verus!
