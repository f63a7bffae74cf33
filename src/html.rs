//! The table extractor: finds one table in an HTML document and reads its
//! header cells and body rows into plain values.
//!
//! The document is parsed by `scraper`. An element is identified by its
//! position: the steps that reach it from the document's root element, each a
//! selector and the index of the match among the previous element's
//! descendants, in document order. What `scraper` reads at a position is
//! named below as a function of the document text and the position; the
//! [`Node`] values that carry a position are made only by the wrappers of this
//! module, which record the step that reached each one.
use vstd::prelude::*;
use selectors::attr::CaseSensitivity;

verus! {

#[verifier::external_type_specification]
#[verifier::external_body]
pub struct ExHtml(scraper::Html);

#[verifier::external_type_specification]
#[verifier::external_body]
pub struct ExSelector(scraper::Selector);

#[verifier::external_type_specification]
#[verifier::external_body]
pub struct ExElementRef<'a>(scraper::ElementRef<'a>);

/// The position of an element: selector and match index of each step from the
/// document's root element.
pub type Position = Seq<(Seq<char>, nat)>;

/// Whether `scraper::Selector::parse` accepts a selector text.
pub uninterp spec fn selector_parses(s: Seq<char>) -> bool;

/// How many descendants of the element at `pos` in the document `doc` match the
/// selector `sel` (`scraper::ElementRef::select`).
pub uninterp spec fn count_at(doc: Seq<char>, pos: Position, sel: Seq<char>) -> nat;

/// The inner markup of the element at `pos` (`scraper::ElementRef::inner_html`).
pub uninterp spec fn inner_html_at(doc: Seq<char>, pos: Position) -> Seq<char>;

/// The value of an attribute of the element at `pos` (`scraper::ElementRef::attr`).
pub uninterp spec fn attr_at(doc: Seq<char>, pos: Position, name: Seq<char>) -> Option<Seq<char>>;

/// Whether the element at `pos` carries a class, ASCII case-insensitive
/// (`scraper::node::Element::has_class`).
pub uninterp spec fn has_class_at(doc: Seq<char>, pos: Position, class: Seq<char>) -> bool;

/// The inner markup of the first child of the element at `pos`, where that
/// child is an element (`ego_tree::NodeRef::first_child`, `ElementRef::wrap`).
pub uninterp spec fn first_child_markup_at(doc: Seq<char>, pos: Position) -> Option<Seq<char>>;

/// A parsed HTML document.
pub struct Document {
    html: scraper::Html,
    text: Ghost<Seq<char>>,
}

impl Document {
    /// The text that the document was parsed from.
    pub closed spec fn text(&self) -> Seq<char> {
        self.text@
    }

    /// Relies on `scraper::Html::parse_document`: parses a whole HTML document,
    /// recovering from malformed markup as browsers do.
    #[verifier::external_body]
    pub fn parse(text: &str) -> (r: Document)
        ensures
            r.text() == text@,
    {
        Document { html: scraper::Html::parse_document(text), text: Ghost(text@) }
    }

    /// Relies on `scraper::Html::root_element`: the document's root element,
    /// the position that no step leads to.
    #[verifier::external_body]
    pub fn root(&self) -> (r: Node<'_>)
        ensures
            r.doc() == self.text(),
            r.position() == Seq::<(Seq<char>, nat)>::empty(),
    {
        Node { elem: self.html.root_element(), doc: Ghost(self.text@), position: Ghost(Seq::empty()) }
    }
}

/// A CSS selector with its text.
pub struct Css {
    sel: scraper::Selector,
    text: Ghost<Seq<char>>,
}

impl Css {
    pub closed spec fn text(&self) -> Seq<char> {
        self.text@
    }

    /// Relies on `scraper::Selector::parse`: a CSS selector, or `None` where the
    /// text is no valid selector; the outcome depends on the text alone.
    #[verifier::external_body]
    pub fn parse(s: &str) -> (r: Option<Css>)
        ensures
            r.is_some() == selector_parses(s@),
            r.is_some() ==> r->Some_0.text() == s@,
    {
        match scraper::Selector::parse(s) {
            Ok(sel) => Some(Css { sel, text: Ghost(s@) }),
            Err(_) => None,
        }
    }
}

/// An element of a document, with the position that reached it.
pub struct Node<'a> {
    elem: scraper::ElementRef<'a>,
    doc: Ghost<Seq<char>>,
    position: Ghost<Position>,
}

impl<'a> Node<'a> {
    /// The text of the document that the element belongs to.
    pub closed spec fn doc(&self) -> Seq<char> {
        self.doc@
    }

    pub closed spec fn position(&self) -> Position {
        self.position@
    }

    /// Relies on `scraper::ElementRef::select`: the descendants that match
    /// `sel`, in document order; the one at index `i` is reached by the step
    /// `(sel, i)`.
    #[verifier::external_body]
    pub fn select_all(&self, sel: &Css) -> (r: Vec<Node<'a>>)
        ensures
            r@.len() == count_at(self.doc(), self.position(), sel.text()),
            forall|i: int|
                0 <= i < r@.len() ==> (#[trigger] r@[i]).doc() == self.doc() && r@[i].position()
                    == self.position().push((sel.text(), i as nat)),
    {
        self.elem.select(&sel.sel).enumerate().map(|(i, e)| Node {
            elem: e,
            doc: Ghost(self.doc@),
            position: Ghost(self.position@.push((sel.text@, i as nat))),
        }).collect()
    }

    /// Relies on `scraper::ElementRef::inner_html`: the markup of the
    /// element's children.
    #[verifier::external_body]
    pub fn inner_html(&self) -> (r: String)
        ensures
            r@ == inner_html_at(self.doc(), self.position()),
    {
        self.elem.inner_html()
    }

    /// Relies on `scraper::ElementRef::attr`: the value of the named attribute.
    #[verifier::external_body]
    pub fn attribute(&self, name: &str) -> (r: Option<String>)
        ensures
            match attr_at(self.doc(), self.position(), name@) {
                Some(v) => r is Some && r->Some_0@ == v,
                None => r is None,
            },
    {
        self.elem.attr(name).map(|v| v.to_string())
    }

    /// Relies on `scraper::node::Element::has_class`, ASCII case-insensitive:
    /// whether the element carries the named class.
    #[verifier::external_body]
    pub fn has_class(&self, class: &str) -> (r: bool)
        ensures
            r == has_class_at(self.doc(), self.position(), class@),
    {
        self.elem.value().has_class(class, CaseSensitivity::AsciiCaseInsensitive)
    }

    /// Relies on `ego_tree::NodeRef::first_child` (through `ElementRef`'s
    /// `Deref`), `scraper::ElementRef::wrap` and `inner_html`: the inner markup
    /// of the first child, where that child is an element.
    #[verifier::external_body]
    pub fn first_child_markup(&self) -> (r: Option<String>)
        ensures
            match first_child_markup_at(self.doc(), self.position()) {
                Some(v) => r is Some && r->Some_0@ == v,
                None => r is None,
            },
    {
        match self.elem.first_child().and_then(scraper::ElementRef::wrap) {
            Some(child) => Some(child.inner_html()),
            None => None,
        }
    }
}

/// The class that marks a decorative cell, which holds no data.
pub const DECORATIVE_CLASS: &'static str = "limiter";

/// Where a table's header cells stand below the table.
pub const HEADER_CELLS: &'static str = "thead>tr>th";

/// Where a table's body rows stand below the table.
pub const BODY_ROWS: &'static str = "tbody>tr";

/// Where a row's cells stand below the row.
pub const ROW_CELLS: &'static str = "td";

/// Where a cell's hyperlinks stand below the cell.
pub const CELL_LINKS: &'static str = "a";

/// Where a cell's spans stand below the cell.
pub const CELL_SPANS: &'static str = "span";

/// The first hyperlink of a cell.
#[derive(Debug, Clone, PartialEq, Eq, Default)]
pub struct Link {
    /// The link's inner markup, untrimmed.
    pub text: String,
    /// The link's `href` attribute, untrimmed, where it has one.
    pub href: Option<String>,
}

/// One cell of a table, as the decoders read it.
#[derive(Debug, Clone, PartialEq, Eq, Default)]
pub struct Cell {
    /// The cell's inner markup, untrimmed.
    pub text: String,
    /// Whether the cell carries the decorative class.
    pub decorative: bool,
    /// The cell's first hyperlink.
    pub link: Option<Link>,
    /// The inner markup of each `<span>` below the cell, in document order.
    pub spans: Vec<String>,
    /// The inner markup of the cell's first child, where that child is an
    /// element; read for header cells only.
    pub first_child: Option<String>,
}

/// What a cell holds, as plain values.
pub struct CellView {
    pub text: Seq<char>,
    pub decorative: bool,
    /// The first link's text and target.
    pub link: Option<(Seq<char>, Option<Seq<char>>)>,
    pub spans: Seq<Seq<char>>,
    pub first_child: Option<Seq<char>>,
}

pub open spec fn opt_view(o: Option<String>) -> Option<Seq<char>> {
    match o {
        Some(s) => Some(s@),
        None => None,
    }
}

impl Cell {
    pub open spec fn view(&self) -> CellView {
        CellView {
            text: self.text@,
            decorative: self.decorative,
            link: match self.link {
                Some(l) => Some((l.text@, opt_view(l.href))),
                None => None,
            },
            spans: self.spans@.map_values(|s: String| s@),
            first_child: opt_view(self.first_child),
        }
    }
}

/// A table's header cells and body rows.
#[derive(Debug, Clone, PartialEq, Eq, Default)]
pub struct RawTable {
    pub headers: Vec<Cell>,
    pub rows: Vec<Vec<Cell>>,
}

/// Why no table was read from a document.
#[derive(Debug, Clone, Copy, PartialEq, Eq, Structural)]
pub enum ExtractError {
    /// A selector that the extractor applies is no valid CSS selector.
    InvalidSelector,
    /// No element of the document matches the table selector.
    TableNotFound,
}

/// What the document holds in the cell at `pos`; `header` cells also give the
/// markup of their first child.
pub open spec fn cell_at(doc: Seq<char>, pos: Position, header: bool) -> CellView {
    let links = count_at(doc, pos, CELL_LINKS@);
    let first = pos.push((CELL_LINKS@, 0nat));
    CellView {
        text: inner_html_at(doc, pos),
        decorative: has_class_at(doc, pos, DECORATIVE_CLASS@),
        link: if links > 0 {
            Some((inner_html_at(doc, first), attr_at(doc, first, "href"@)))
        } else {
            None
        },
        spans: Seq::new(
            count_at(doc, pos, CELL_SPANS@),
            |k: int| inner_html_at(doc, pos.push((CELL_SPANS@, k as nat))),
        ),
        first_child: if header {
            first_child_markup_at(doc, pos)
        } else {
            None
        },
    }
}

/// The position of the table that `table_sel` finds: its first match.
pub open spec fn table_position(table_sel: Seq<char>) -> Position {
    seq![(table_sel, 0nat)]
}

/// The header cells of the table, as plain values.
pub open spec fn header_cells(doc: Seq<char>, table_sel: Seq<char>) -> Seq<CellView> {
    let t = table_position(table_sel);
    Seq::new(
        count_at(doc, t, HEADER_CELLS@),
        |j: int| cell_at(doc, t.push((HEADER_CELLS@, j as nat)), true),
    )
}

/// The cells of each body row of the table, as plain values.
pub open spec fn body_rows(doc: Seq<char>, table_sel: Seq<char>) -> Seq<Seq<CellView>> {
    let t = table_position(table_sel);
    Seq::new(
        count_at(doc, t, BODY_ROWS@),
        |i: int|
            {
                let row = t.push((BODY_ROWS@, i as nat));
                Seq::new(
                    count_at(doc, row, ROW_CELLS@),
                    |j: int| cell_at(doc, row.push((ROW_CELLS@, j as nat)), false),
                )
            },
    )
}

/// Whether every selector that reading a table with `table_sel` applies is
/// valid.
pub open spec fn selectors_parse(table_sel: Seq<char>) -> bool {
    &&& selector_parses(table_sel)
    &&& selector_parses(HEADER_CELLS@)
    &&& selector_parses(BODY_ROWS@)
    &&& selector_parses(ROW_CELLS@)
    &&& selector_parses(CELL_LINKS@)
    &&& selector_parses(CELL_SPANS@)
}

/// Whether the document holds a table that `table_sel` reads, or why not.
pub open spec fn table_found(doc: Seq<char>, table_sel: Seq<char>) -> Result<(), ExtractError> {
    if !selectors_parse(table_sel) {
        Err(ExtractError::InvalidSelector)
    } else if count_at(doc, Seq::empty(), table_sel) == 0 {
        Err(ExtractError::TableNotFound)
    } else {
        Ok(())
    }
}

/// The header cells of a read table, as plain values.
pub open spec fn header_views(t: RawTable) -> Seq<CellView> {
    t.headers@.map_values(|c: Cell| c.view())
}

/// The body rows of a read table, as plain values.
pub open spec fn row_views(t: RawTable) -> Seq<Seq<CellView>> {
    t.rows@.map_values(|r: Vec<Cell>| r@.map_values(|c: Cell| c.view()))
}

/// The selectors that reading a table applies below the table.
struct CellSelectors {
    headers: Css,
    rows: Css,
    cells: Css,
    links: Css,
    spans: Css,
}

impl CellSelectors {
    spec fn fixed(&self) -> bool {
        &&& self.headers.text() == HEADER_CELLS@
        &&& self.rows.text() == BODY_ROWS@
        &&& self.cells.text() == ROW_CELLS@
        &&& self.links.text() == CELL_LINKS@
        &&& self.spans.text() == CELL_SPANS@
    }
}

fn read_cell(n: &Node, sels: &CellSelectors, header: bool) -> (r: Cell)
    requires
        sels.fixed(),
    ensures
        r.view() == cell_at(n.doc(), n.position(), header),
{
    let links = n.select_all(&sels.links);
    let link = if links.len() > 0 {
        Some(Link { text: links[0].inner_html(), href: links[0].attribute("href") })
    } else {
        None
    };
    let span_nodes = n.select_all(&sels.spans);
    let mut spans: Vec<String> = Vec::new();
    let mut i: usize = 0;
    while i < span_nodes.len()
        invariant
            i <= span_nodes@.len(),
            span_nodes@.len() == count_at(n.doc(), n.position(), CELL_SPANS@),
            forall|k: int|
                0 <= k < span_nodes@.len() ==> (#[trigger] span_nodes@[k]).doc() == n.doc()
                    && span_nodes@[k].position() == n.position().push((CELL_SPANS@, k as nat)),
            spans@.len() == i,
            forall|k: int|
                0 <= k < i ==> (#[trigger] spans@[k])@ == inner_html_at(
                    n.doc(),
                    n.position().push((CELL_SPANS@, k as nat)),
                ),
        decreases span_nodes@.len() - i,
    {
        spans.push(span_nodes[i].inner_html());
        i = i + 1;
    }
    let first_child = if header {
        n.first_child_markup()
    } else {
        None
    };
    let r = Cell {
        text: n.inner_html(),
        decorative: n.has_class(DECORATIVE_CLASS),
        link,
        spans,
        first_child,
    };
    assert(r.view().spans =~= cell_at(n.doc(), n.position(), header).spans);
    r
}

fn read_cells(nodes: &Vec<Node>, sels: &CellSelectors, header: bool) -> (r: Vec<Cell>)
    requires
        sels.fixed(),
    ensures
        r@.len() == nodes@.len(),
        forall|j: int|
            0 <= j < nodes@.len() ==> (#[trigger] r@[j]).view() == cell_at(
                nodes@[j].doc(),
                nodes@[j].position(),
                header,
            ),
{
    let mut cells: Vec<Cell> = Vec::new();
    let mut i: usize = 0;
    while i < nodes.len()
        invariant
            sels.fixed(),
            i <= nodes@.len(),
            cells@.len() == i,
            forall|j: int|
                0 <= j < i ==> (#[trigger] cells@[j]).view() == cell_at(
                    nodes@[j].doc(),
                    nodes@[j].position(),
                    header,
                ),
        decreases nodes@.len() - i,
    {
        cells.push(read_cell(&nodes[i], sels, header));
        i = i + 1;
    }
    cells
}

/// Parses `document` and reads the first table that `table_sel` matches: its
/// header cells and, for each body row, the row's data cells.
pub fn locate(document: &str, table_sel: &str) -> (r: Result<RawTable, ExtractError>)
    ensures
        match table_found(document@, table_sel@) {
            Err(e) => r == Err::<RawTable, ExtractError>(e),
            Ok(()) => r is Ok && header_views(r->Ok_0) == header_cells(document@, table_sel@)
                && row_views(r->Ok_0) == body_rows(document@, table_sel@),
        },
{
    let table_css = Css::parse(table_sel);
    let headers_css = Css::parse(HEADER_CELLS);
    let rows_css = Css::parse(BODY_ROWS);
    let cells_css = Css::parse(ROW_CELLS);
    let links_css = Css::parse(CELL_LINKS);
    let spans_css = Css::parse(CELL_SPANS);
    let (table_css, sels) = match (table_css, headers_css, rows_css, cells_css, links_css, spans_css) {
        (Some(t), Some(headers), Some(rows), Some(cells), Some(links), Some(spans)) => (
            t,
            CellSelectors { headers, rows, cells, links, spans },
        ),
        _ => return Err(ExtractError::InvalidSelector),
    };
    let doc = Document::parse(document);
    let root = doc.root();
    let tables = root.select_all(&table_css);
    if tables.len() == 0 {
        return Err(ExtractError::TableNotFound);
    }
    let table = &tables[0];
    let ghost t = table_position(table_sel@);
    assert(table.position() =~= t);
    let header_nodes = table.select_all(&sels.headers);
    let headers = read_cells(&header_nodes, &sels, true);
    assert(headers@.map_values(|c: Cell| c.view()) =~= header_cells(document@, table_sel@));
    let row_nodes = table.select_all(&sels.rows);
    let mut rows: Vec<Vec<Cell>> = Vec::new();
    let mut i: usize = 0;
    while i < row_nodes.len()
        invariant
            sels.fixed(),
            t == table_position(table_sel@),
            i <= row_nodes@.len(),
            row_nodes@.len() == count_at(document@, t, BODY_ROWS@),
            forall|k: int|
                0 <= k < row_nodes@.len() ==> (#[trigger] row_nodes@[k]).doc() == document@
                    && row_nodes@[k].position() == t.push((BODY_ROWS@, k as nat)),
            rows@.len() == i,
            forall|k: int|
                0 <= k < i ==> (#[trigger] rows@[k])@.map_values(|c: Cell| c.view()) == body_rows(
                    document@,
                    table_sel@,
                )[k],
        decreases row_nodes@.len() - i,
    {
        let cell_nodes = row_nodes[i].select_all(&sels.cells);
        let cells = read_cells(&cell_nodes, &sels, false);
        let ghost row = t.push((BODY_ROWS@, i as nat));
        assert(row_nodes@[i as int].position() == row);
        assert(body_rows(document@, table_sel@).len() == count_at(document@, t, BODY_ROWS@));
        assert(body_rows(document@, table_sel@)[i as int] == Seq::new(
            count_at(document@, row, ROW_CELLS@),
            |j: int| cell_at(document@, row.push((ROW_CELLS@, j as nat)), false),
        ));
        assert(cells@.map_values(|c: Cell| c.view()) =~= body_rows(document@, table_sel@)[i as int]);
        rows.push(cells);
        i = i + 1;
    }
    let r = RawTable { headers, rows };
    assert(row_views(r) =~= body_rows(document@, table_sel@));
    assert(header_views(r) =~= header_cells(document@, table_sel@));
    Ok(r)
}

} // verus!
