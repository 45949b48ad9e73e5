//! What the crate reads out of HTML pages. The pages are parsed by
//! `scraper`; the functions here hand its findings on as plain text.

use vstd::prelude::*;

verus! {

/// One row of a table: its inner HTML and that of each of its cells.
#[derive(Clone, Debug, PartialEq, Eq)]
pub struct Row {
    pub html: String,
    pub cells: Vec<String>,
}

impl View for Row {
    type V = (Seq<char>, Seq<Seq<char>>);

    open spec fn view(&self) -> (Seq<char>, Seq<Seq<char>>) {
        (self.html@, texts(self.cells@))
    }
}

/// The text of each string of `v`.
pub open spec fn texts(v: Seq<String>) -> Seq<Seq<char>> {
    Seq::new(v.len(), |k: int| v[k]@)
}

/// The text of each string of `v`, where there is one.
pub open spec fn optional_texts(v: Seq<Option<String>>) -> Seq<Option<Seq<char>>> {
    Seq::new(
        v.len(),
        |k: int|
            match v[k] {
                Some(s) => Some(s@),
                None => None,
            },
    )
}

/// The rows of `v` as text.
pub open spec fn row_texts(v: Seq<Row>) -> Seq<(Seq<char>, Seq<Seq<char>>)> {
    Seq::new(v.len(), |k: int| v[k]@)
}

/// The rows of each table of `v` as text.
pub open spec fn table_texts(v: Seq<Vec<Row>>) -> Seq<Seq<(Seq<char>, Seq<Seq<char>>)>> {
    Seq::new(v.len(), |k: int| row_texts(v[k]@))
}

/// The attribute values of each group of `v` as text.
pub open spec fn group_texts(v: Seq<Vec<Option<String>>>) -> Seq<Seq<Option<Seq<char>>>> {
    Seq::new(v.len(), |k: int| optional_texts(v[k]@))
}

/// The inner HTML of each element of the page `document` that the CSS
/// selector `selector` matches, in the order in which `scraper` finds them;
/// `None` where `scraper` does not accept the selector.
pub uninterp spec fn selected(document: Seq<char>, selector: Seq<char>) -> Option<
    Seq<Seq<char>>,
>;

/// For each element of the page `document` that `table` matches: for each
/// element below it that `row` matches, the inner HTML of that element and
/// of each element below it that `cell` matches. `None` where `scraper` does
/// not accept one of the selectors.
pub uninterp spec fn selected_rows(
    document: Seq<char>,
    table: Seq<char>,
    row: Seq<char>,
    cell: Seq<char>,
) -> Option<Seq<Seq<(Seq<char>, Seq<Seq<char>>)>>>;

/// For each element of the page `document` that `outer` matches: for each
/// element below it that `inner` matches, the value of its attribute
/// `attribute`, if it has that attribute. `None` where `scraper` does not
/// accept one of the selectors.
pub uninterp spec fn selected_attributes(
    document: Seq<char>,
    outer: Seq<char>,
    inner: Seq<char>,
    attribute: Seq<char>,
) -> Option<Seq<Seq<Option<Seq<char>>>>>;

/// Parses the page with `scraper::Html::parse_document` and the selector
/// with `scraper::Selector::parse`, and collects
/// `scraper::ElementRef::inner_html` of what `scraper::Html::select` yields.
/// The contract only names the outcome.
#[verifier::external_body]
pub(crate) fn select(document: &str, selector: &str) -> (r: Option<Vec<String>>)
    ensures
        match r {
            Some(found) => selected(document@, selector@) == Some(texts(found@)),
            None => selected(document@, selector@) is None,
        },
{
    match scraper::Selector::parse(selector) {
        Ok(s) => {
            let page = scraper::Html::parse_document(document);
            Some(page.select(&s).map(|e| e.inner_html()).collect())
        },
        Err(_) => None,
    }
}

/// Parses the page and the three selectors as `select` does, and walks
/// `scraper::Html::select` for the tables and `scraper::ElementRef::select`
/// for the rows of each table and the cells of each row, collecting
/// `scraper::ElementRef::inner_html`. The contract only names the outcome.
#[verifier::external_body]
pub(crate) fn select_rows(document: &str, table: &str, row: &str, cell: &str) -> (r: Option<
    Vec<Vec<Row>>,
>)
    ensures
        match r {
            Some(found) => selected_rows(document@, table@, row@, cell@) == Some(
                table_texts(found@),
            ),
            None => selected_rows(document@, table@, row@, cell@) is None,
        },
{
    match (scraper::Selector::parse(table), scraper::Selector::parse(row), scraper::Selector::parse(cell)) {
        (Ok(t), Ok(r), Ok(c)) => {
            let page = scraper::Html::parse_document(document);
            Some(page.select(&t).map(|body| body.select(&r).map(|line| Row {
                html: line.inner_html(),
                cells: line.select(&c).map(|e| e.inner_html()).collect(),
            }).collect()).collect())
        },
        _ => None,
    }
}

/// Parses the page and the two selectors as `select` does, walks
/// `scraper::Html::select` and, below each element found,
/// `scraper::ElementRef::select`, and collects what
/// `scraper::ElementRef::attr` gives for each. The contract only names the
/// outcome.
#[verifier::external_body]
pub(crate) fn select_attributes(document: &str, outer: &str, inner: &str, attribute: &str) -> (r:
    Option<Vec<Vec<Option<String>>>>)
    ensures
        match r {
            Some(found) => selected_attributes(document@, outer@, inner@, attribute@) == Some(
                group_texts(found@),
            ),
            None => selected_attributes(document@, outer@, inner@, attribute@) is None,
        },
{
    match (scraper::Selector::parse(outer), scraper::Selector::parse(inner)) {
        (Ok(o), Ok(i)) => {
            let page = scraper::Html::parse_document(document);
            Some(page.select(&o).map(|group| group.select(&i).map(|e| match e.attr(attribute) {
                Some(value) => Some(value.to_string()),
                None => None,
            }).collect()).collect())
        },
        _ => None,
    }
}

} // verus!
