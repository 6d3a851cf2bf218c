//! Access to parsed HTML pages through the `scraper` crate, and the
//! conversion of a week table's elements into the rows that the table
//! extractor reads.
//!
//! What scraper finds in a page depends on the page's text alone, so each
//! query is named as a function of that text. A node is named by the selector
//! whose first match is its root and by the path of child positions from that
//! root; every `Page` and `Elem` is built in this module only, so a node's
//! name always belongs to the element it carries.
use vstd::prelude::*;
use vstd::string::*;
use scraper::{ElementRef, Html, Selector};
use crate::schedule::texts;
use crate::table::{row_view, rows_view, CellChild, CellView, ChildView, TableCell, TableRow, child_views};
use crate::text::same_text;

verus! {

#[verifier::external_type_specification]
#[verifier::external_body]
pub struct ExHtml(Html);

#[verifier::external_type_specification]
#[verifier::external_body]
pub struct ExElementRef<'a>(ElementRef<'a>);

/// Whether a selector is valid and matches an element of the page.
pub uninterp spec fn page_selects(html: Seq<char>, selector: Seq<char>) -> bool;

/// For each child node of the node at `path` below the selector's first
/// match, whether it is an element.
pub uninterp spec fn page_child_kinds(html: Seq<char>, selector: Seq<char>, path: Seq<int>) -> Seq<bool>;

/// The tag name of the element at `path` below the selector's first match.
pub uninterp spec fn page_tag(html: Seq<char>, selector: Seq<char>, path: Seq<int>) -> Seq<char>;

/// The inner HTML of the element at `path` below the selector's first match.
pub uninterp spec fn page_inner_html(html: Seq<char>, selector: Seq<char>, path: Seq<int>) -> Seq<char>;

/// An attribute of the element at `path` below the selector's first match.
pub uninterp spec fn page_attr(html: Seq<char>, selector: Seq<char>, path: Seq<int>, name: Seq<char>) -> Option<Seq<char>>;

/// A parsed page, with the text it was parsed from.
pub struct Page {
    doc: Html,
    text: Ghost<Seq<char>>,
}

impl Page {
    pub closed spec fn text(&self) -> Seq<char> {
        self.text@
    }
}

/// An element of a page, with its name in the page.
struct Elem<'a> {
    e: ElementRef<'a>,
    text: Ghost<Seq<char>>,
    sel: Ghost<Seq<char>>,
    path: Ghost<Seq<int>>,
}

/// Relies on scraper::Html::parse_document, which builds the document tree of
/// a page (it never fails; malformed markup is repaired as browsers do).
#[verifier::external_body]
fn parse_document(text: &str) -> (r: Html) {
    Html::parse_document(text)
}

/// Relies on scraper::Selector::parse and Html::select: the first element of
/// the page that a valid selector matches.
#[verifier::external_body]
fn select_first<'a>(page: &'a Page, selector: &str) -> (r: Option<ElementRef<'a>>)
    ensures
        r is Some == page_selects(page.text@, selector@),
{
    match Selector::parse(selector) {
        Ok(s) => page.doc.select(&s).next(),
        Err(_) => None,
    }
}

/// Relies on ego_tree's NodeRef::children and scraper::ElementRef::wrap: each
/// child node of an element, as an element where it is one.
#[verifier::external_body]
fn child_nodes<'a>(e: &Elem<'a>) -> (r: Vec<Option<ElementRef<'a>>>)
    ensures
        r@.len() == page_child_kinds(e.text@, e.sel@, e.path@).len(),
        forall|i: int| 0 <= i < r@.len() ==> (#[trigger] r@[i]) is Some == page_child_kinds(e.text@, e.sel@, e.path@)[i],
{
    e.e.children().map(ElementRef::wrap).collect()
}

/// Relies on scraper::node::Element::name: the local tag name of an element.
#[verifier::external_body]
fn tag_name(e: &Elem) -> (r: String)
    ensures
        r@ == page_tag(e.text@, e.sel@, e.path@),
{
    e.e.value().name().to_string()
}

/// Relies on scraper::ElementRef::inner_html: the serialized markup of an
/// element's children.
#[verifier::external_body]
fn inner_html(e: &Elem) -> (r: String)
    ensures
        r@ == page_inner_html(e.text@, e.sel@, e.path@),
{
    e.e.inner_html()
}

/// Relies on scraper::node::Element::attr: the value of an attribute, if the
/// element has it.
#[verifier::external_body]
fn attribute(e: &Elem, name: &str) -> (r: Option<String>)
    ensures
        match r {
            Some(v) => page_attr(e.text@, e.sel@, e.path@, name@) == Some(v@),
            None => page_attr(e.text@, e.sel@, e.path@, name@) is None,
        },
{
    e.e.value().attr(name).map(|v| v.to_string())
}

/// The paths of the children that are elements, in order.
pub open spec fn element_children(path: Seq<int>, kinds: Seq<bool>) -> Seq<Seq<int>>
    decreases kinds.len(),
{
    if kinds.len() == 0 {
        Seq::empty()
    } else if kinds.last() {
        element_children(path, kinds.drop_last()).push(path.push(kinds.len() - 1))
    } else {
        element_children(path, kinds.drop_last())
    }
}

pub open spec fn children_at(html: Seq<char>, sel: Seq<char>, path: Seq<int>) -> Seq<Seq<int>> {
    element_children(path, page_child_kinds(html, sel, path))
}

/// A cell's child element by its tag: a span lists the inner HTML of its own
/// child elements, a `br` separates, a link gives its inner HTML.
pub open spec fn child_at(html: Seq<char>, sel: Seq<char>, path: Seq<int>) -> ChildView {
    let tag = page_tag(html, sel, path);
    if tag == "span"@ {
        ChildView::Span(children_at(html, sel, path).map_values(|q: Seq<int>| page_inner_html(html, sel, q)))
    } else if tag == "br"@ {
        ChildView::Break
    } else if tag == "a"@ {
        ChildView::Link(page_inner_html(html, sel, path))
    } else {
        ChildView::Other
    }
}

pub open spec fn cell_at(html: Seq<char>, sel: Seq<char>, path: Seq<int>) -> CellView {
    CellView {
        inner_html: page_inner_html(html, sel, path),
        children: children_at(html, sel, path).map_values(|q: Seq<int>| child_at(html, sel, q)),
    }
}

pub open spec fn row_at(html: Seq<char>, sel: Seq<char>, path: Seq<int>) -> Seq<CellView> {
    children_at(html, sel, path).map_values(|q: Seq<int>| cell_at(html, sel, q))
}

/// The rows of the table body that a selector picks, each with its cells.
pub open spec fn table_at(html: Seq<char>, sel: Seq<char>) -> Seq<Seq<CellView>> {
    children_at(html, sel, Seq::empty()).map_values(|q: Seq<int>| row_at(html, sel, q))
}

/// The `value` attribute of the element that a selector picks.
pub open spec fn input_value_at(html: Seq<char>, sel: Seq<char>) -> Option<Seq<char>> {
    if page_selects(html, sel) {
        page_attr(html, sel, Seq::empty(), "value"@)
    } else {
        None
    }
}

/// Parses a page.
pub fn parse_page(text: &str) -> (r: Page)
    ensures
        r.text() == text@,
{
    Page { doc: parse_document(text), text: Ghost(text@) }
}

fn select_root<'a>(page: &'a Page, selector: &str) -> (r: Option<Elem<'a>>)
    ensures
        r is Some == page_selects(page.text(), selector@),
        r matches Some(e) ==> e.text@ == page.text() && e.sel@ == selector@ && e.path@ == Seq::<int>::empty(),
{
    match select_first(page, selector) {
        None => None,
        Some(e) => Some(Elem { e, text: Ghost(page.text@), sel: Ghost(selector@), path: Ghost(Seq::empty()) }),
    }
}

fn element_children_of<'a>(e: &Elem<'a>) -> (r: Vec<Elem<'a>>)
    ensures
        r@.len() == children_at(e.text@, e.sel@, e.path@).len(),
        forall|i: int| 0 <= i < r@.len() ==> (#[trigger] r@[i]).text == e.text && r@[i].sel == e.sel
            && r@[i].path@ == children_at(e.text@, e.sel@, e.path@)[i],
{
    let nodes = child_nodes(e);
    let ghost kinds = page_child_kinds(e.text@, e.sel@, e.path@);
    let mut r: Vec<Elem<'a>> = Vec::new();
    let mut i: usize = 0;
    while i < nodes.len()
        invariant
            i <= nodes@.len() == kinds.len(),
            kinds == page_child_kinds(e.text@, e.sel@, e.path@),
            forall|j: int| 0 <= j < nodes@.len() ==> (#[trigger] nodes@[j]) is Some == kinds[j],
            r@.len() == element_children(e.path@, kinds.subrange(0, i as int)).len(),
            forall|j: int| 0 <= j < r@.len() ==> (#[trigger] r@[j]).text == e.text && r@[j].sel == e.sel
                && r@[j].path@ == element_children(e.path@, kinds.subrange(0, i as int))[j],
        decreases nodes@.len() - i,
    {
        let ghost cur = kinds.subrange(0, i + 1);
        assert(cur.drop_last() =~= kinds.subrange(0, i as int));
        assert(cur.last() == kinds[i as int]);
        match &nodes[i] {
            Some(c) => {
                r.push(Elem { e: *c, text: e.text, sel: e.sel, path: Ghost(e.path@.push(i as int)) });
            },
            None => {},
        }
        i = i + 1;
    }
    assert(kinds.subrange(0, i as int) =~= kinds);
    r
}

fn inner_htmls(elements: &Vec<Elem>, html: Ghost<Seq<char>>, sel: Ghost<Seq<char>>, paths: Ghost<Seq<Seq<int>>>) -> (r: Vec<String>)
    requires
        elements@.len() == paths@.len(),
        forall|i: int| 0 <= i < elements@.len() ==> (#[trigger] elements@[i]).text == html && elements@[i].sel == sel
            && elements@[i].path@ == paths@[i],
    ensures
        texts(r@) == paths@.map_values(|q: Seq<int>| page_inner_html(html@, sel@, q)),
{
    let mut r: Vec<String> = Vec::new();
    let mut i: usize = 0;
    while i < elements.len()
        invariant
            i <= elements@.len() == paths@.len(),
            forall|j: int| 0 <= j < elements@.len() ==> (#[trigger] elements@[j]).text == html && elements@[j].sel == sel
                && elements@[j].path@ == paths@[j],
            texts(r@) == paths@.subrange(0, i as int).map_values(|q: Seq<int>| page_inner_html(html@, sel@, q)),
        decreases elements@.len() - i,
    {
        let ghost before = r@;
        r.push(inner_html(&elements[i]));
        assert(texts(r@) =~= texts(before).push(page_inner_html(html@, sel@, paths@[i as int])));
        assert(paths@.subrange(0, i + 1).map_values(|q: Seq<int>| page_inner_html(html@, sel@, q)) =~= paths@.subrange(
            0,
            i as int,
        ).map_values(|q: Seq<int>| page_inner_html(html@, sel@, q)).push(page_inner_html(html@, sel@, paths@[i as int])));
        i = i + 1;
    }
    assert(paths@.subrange(0, i as int) =~= paths@);
    r
}

/// The part of a cell that a child element is, by its tag.
fn cell_child(e: &Elem) -> (r: CellChild)
    ensures
        r@ == child_at(e.text@, e.sel@, e.path@),
{
    let name = tag_name(e);
    if same_text(name.as_str(), "span") {
        let children = element_children_of(e);
        CellChild::Span(inner_htmls(&children, e.text, e.sel, Ghost(children_at(e.text@, e.sel@, e.path@))))
    } else if same_text(name.as_str(), "br") {
        CellChild::Break
    } else if same_text(name.as_str(), "a") {
        CellChild::Link(inner_html(e))
    } else {
        CellChild::Other
    }
}

/// A table cell: its inner HTML and its child elements.
fn table_cell(e: &Elem) -> (r: TableCell)
    ensures
        r@ == cell_at(e.text@, e.sel@, e.path@),
{
    let children = element_children_of(e);
    let ghost paths = children_at(e.text@, e.sel@, e.path@);
    let ghost f = |q: Seq<int>| child_at(e.text@, e.sel@, q);
    let mut parts: Vec<CellChild> = Vec::new();
    let mut i: usize = 0;
    while i < children.len()
        invariant
            i <= children@.len() == paths.len(),
            paths == children_at(e.text@, e.sel@, e.path@),
            f == (|q: Seq<int>| child_at(e.text@, e.sel@, q)),
            forall|j: int| 0 <= j < children@.len() ==> (#[trigger] children@[j]).text == e.text
                && children@[j].sel == e.sel && children@[j].path@ == paths[j],
            child_views(parts@) == paths.subrange(0, i as int).map_values(f),
        decreases children@.len() - i,
    {
        let ghost before = parts@;
        let c = cell_child(&children[i]);
        parts.push(c);
        assert(child_views(parts@) =~= child_views(before).push(c@));
        assert(paths.subrange(0, i + 1).map_values(f) =~= paths.subrange(0, i as int).map_values(f).push(f(paths[i as int])));
        i = i + 1;
    }
    assert(paths.subrange(0, i as int) =~= paths);
    TableCell { inner_html: inner_html(e), children: parts }
}

/// A table row: its cells.
fn table_row(e: &Elem) -> (r: TableRow)
    ensures
        row_view(r) == row_at(e.text@, e.sel@, e.path@),
{
    let cells = element_children_of(e);
    let ghost paths = children_at(e.text@, e.sel@, e.path@);
    let ghost f = |q: Seq<int>| cell_at(e.text@, e.sel@, q);
    let mut row: Vec<TableCell> = Vec::new();
    let mut i: usize = 0;
    while i < cells.len()
        invariant
            i <= cells@.len() == paths.len(),
            paths == children_at(e.text@, e.sel@, e.path@),
            f == (|q: Seq<int>| cell_at(e.text@, e.sel@, q)),
            forall|j: int| 0 <= j < cells@.len() ==> (#[trigger] cells@[j]).text == e.text
                && cells@[j].sel == e.sel && cells@[j].path@ == paths[j],
            row@.map_values(|c: TableCell| c@) == paths.subrange(0, i as int).map_values(f),
        decreases cells@.len() - i,
    {
        let ghost before = row@;
        let c = table_cell(&cells[i]);
        row.push(c);
        assert(row@.map_values(|c: TableCell| c@) =~= before.map_values(|c: TableCell| c@).push(c@));
        assert(paths.subrange(0, i + 1).map_values(f) =~= paths.subrange(0, i as int).map_values(f).push(f(paths[i as int])));
        i = i + 1;
    }
    assert(paths.subrange(0, i as int) =~= paths);
    TableRow { cells: row }
}

/// The rows of the table body that a selector picks; `None` where it picks
/// nothing.
pub fn table_rows(page: &Page, selector: &str) -> (r: Option<Vec<TableRow>>)
    ensures
        r is Some == page_selects(page.text(), selector@),
        r matches Some(rows) ==> rows_view(rows@) == table_at(page.text(), selector@),
{
    let body = match select_root(page, selector) {
        None => return None,
        Some(b) => b,
    };
    let rows = element_children_of(&body);
    let ghost paths = children_at(body.text@, body.sel@, body.path@);
    let ghost f = |q: Seq<int>| row_at(body.text@, body.sel@, q);
    let mut r: Vec<TableRow> = Vec::new();
    let mut i: usize = 0;
    while i < rows.len()
        invariant
            i <= rows@.len() == paths.len(),
            paths == children_at(body.text@, body.sel@, body.path@),
            f == (|q: Seq<int>| row_at(body.text@, body.sel@, q)),
            forall|j: int| 0 <= j < rows@.len() ==> (#[trigger] rows@[j]).text == body.text
                && rows@[j].sel == body.sel && rows@[j].path@ == paths[j],
            rows_view(r@) == paths.subrange(0, i as int).map_values(f),
        decreases rows@.len() - i,
    {
        let ghost before = r@;
        let row = table_row(&rows[i]);
        r.push(row);
        assert(rows_view(r@) =~= rows_view(before).push(row_view(row)));
        assert(paths.subrange(0, i + 1).map_values(f) =~= paths.subrange(0, i as int).map_values(f).push(f(paths[i as int])));
        i = i + 1;
    }
    assert(paths.subrange(0, i as int) =~= paths);
    assert(paths.map_values(f) =~= table_at(page.text(), selector@));
    Some(r)
}

/// The `value` attribute of the element that a selector picks; `None` where
/// it picks nothing or the element has no such attribute.
pub fn input_value(page: &Page, selector: &str) -> (r: Option<String>)
    ensures
        match r {
            Some(v) => input_value_at(page.text(), selector@) == Some(v@),
            None => input_value_at(page.text(), selector@) is None,
        },
{
    match select_root(page, selector) {
        None => None,
        Some(e) => attribute(&e, "value"),
    }
}

} // verus!
