//! The message logged when a nested system is refused: a heading naming the system, then
//! the broad table and the narrow table of the conflict report, each only when some
//! system belongs in it. The tables are laid out by prettytable.

use vstd::prelude::*;
use vstd::string::StringExecFns;

use prettytable::{Cell, Row, Table};

use crate::conflicts::{
    broad_kinds, BroadAccess, BroadAccessKind, ConflictReport, ConflictRow, NarrowAccess,
};

verus! {

#[verifier::external_type_specification]
#[verifier::external_body]
pub struct ExCell(Cell);

#[verifier::external_type_specification]
#[verifier::external_body]
pub struct ExRow(Row);

#[verifier::external_type_specification]
#[verifier::external_body]
pub struct ExTable(Table);

/// The cell `Cell::new` makes of a text.
pub uninterp spec fn plain_cell(text: Seq<char>) -> Cell;

/// The cell `Cell::style_spec` makes of `c` with the style specification `spec`.
pub uninterp spec fn restyled(c: Cell, spec: Seq<char>) -> Cell;

/// The row `Row::new` makes of a list of cells.
pub uninterp spec fn row_of(cells: Seq<Cell>) -> Row;

/// The title row of a table, if it has one.
pub uninterp spec fn table_titles(t: Table) -> Option<Row>;

/// The rows of a table, in order.
pub uninterp spec fn table_rows(t: Table) -> Seq<Row>;

/// Whether a table has the format `Table::new` gives it.
pub uninterp spec fn has_default_format(t: Table) -> bool;

/// The text of a table in the default format with the given title row and rows.
pub uninterp spec fn table_text(titles: Option<Row>, rows: Seq<Row>) -> Seq<char>;

/// `Cell::new`. It measures the text's width and asserts that the part it takes for
/// terminal escape sequences is no wider than the whole, which fails for some texts
/// holding an escape character; `requires` leaves out every text that holds one.
#[verifier::external_body]
fn cell_new(text: &str) -> (r: Cell)
    requires
        escape_free(text@),
    ensures
        r == plain_cell(text@),
{
    Cell::new(text)
}

/// `Cell::style_spec`, which panics on an `H` not followed by digits; `requires` leaves
/// out every `H`.
#[verifier::external_body]
fn cell_style_spec(c: Cell, spec: &str) -> (r: Cell)
    requires
        !spec@.contains('H'),
    ensures
        r == restyled(c, spec@),
{
    c.style_spec(spec)
}

/// `Row::new`.
#[verifier::external_body]
fn row_new(cells: Vec<Cell>) -> (r: Row)
    ensures
        r == row_of(cells@),
{
    Row::new(cells)
}

/// `Table::new`: no title row, no rows, the default format.
#[verifier::external_body]
fn table_new() -> (r: Table)
    ensures
        table_titles(r) is None,
        table_rows(r) == Seq::<Row>::empty(),
        has_default_format(r),
{
    Table::new()
}

/// `Table::set_titles`: replaces the title row and leaves the rest.
#[verifier::external_body]
fn table_set_titles(t: &mut Table, titles: Row)
    ensures
        table_titles(*final(t)) == Some(titles),
        table_rows(*final(t)) == table_rows(*old(t)),
        has_default_format(*final(t)) == has_default_format(*old(t)),
{
    t.set_titles(titles)
}

/// `Table::add_row`: appends a row and leaves the rest.
#[verifier::external_body]
fn table_add_row(t: &mut Table, row: Row)
    ensures
        table_titles(*final(t)) == table_titles(*old(t)),
        table_rows(*final(t)) == table_rows(*old(t)).push(row),
        has_default_format(*final(t)) == has_default_format(*old(t)),
{
    t.add_row(row);
}

/// The text `Display` gives a table; with the default format it depends on the title row
/// and the rows alone.
#[verifier::external_body]
fn table_to_text(t: &Table) -> (r: String)
    requires
        has_default_format(*t),
    ensures
        r@ == table_text(table_titles(*t), table_rows(*t)),
{
    format!("{}", t)
}

/// Text without the escape character, which starts a terminal escape sequence.
pub open spec fn escape_free(s: Seq<char>) -> bool {
    !s.contains('\u{1b}')
}

/// Every name a report shows is free of the escape character: the refused system's, each
/// conflicting system's, and each column's.
pub open spec fn report_escape_free(report: ConflictReport) -> bool {
    &&& escape_free(report.new_name@)
    &&& forall|i: int| 0 <= i < report.broad_rows@.len() ==> escape_free(#[trigger] report.broad_rows@[i].name@)
    &&& forall|i: int| 0 <= i < report.narrow_rows@.len() ==> escape_free(#[trigger] report.narrow_rows@[i].name@)
    &&& forall|i: int| 0 <= i < report.narrow_column_names@.len() ==> escape_free(#[trigger] report.narrow_column_names@[i]@)
}

proof fn lemma_concat_escape_free(a: Seq<char>, b: Seq<char>)
    requires
        escape_free(a),
        escape_free(b),
    ensures
        escape_free(a + b),
{
    if (a + b).contains('\u{1b}') {
        let k = choose|k: int| 0 <= k < (a + b).len() && (a + b)[k] == '\u{1b}';
        if k < a.len() {
            assert(a[k] == (a + b)[k]);
        } else {
            assert(b[k - a.len()] == (a + b)[k]);
        }
    }
}

proof fn lemma_labels_escape_free(a: BroadAccess, k: BroadAccessKind, n: NarrowAccess)
    ensures
        escape_free(broad_access_label(a)),
        escape_free(broad_kind_label(k)),
        escape_free(narrow_access_label(n)),
        escape_free(""@),
        escape_free("~~"@),
{
    reveal_strlit("");
    reveal_strlit("Some");
    reveal_strlit("**ALL**");
    reveal_strlit("Read Components");
    reveal_strlit("Write Components");
    reveal_strlit("Read Resources");
    reveal_strlit("Write Resources");
    reveal_strlit("Read");
    reveal_strlit("**WRITE**");
    reveal_strlit("~~");
}

/// A cell with the given text and style specification.
pub open spec fn cell_of(text: Seq<char>, spec: Seq<char>) -> Cell {
    restyled(plain_cell(text), spec)
}

/// A row of a head cell followed by one cell per label, each with the style `spec`.
pub open spec fn labelled_row(head: Cell, labels: Seq<Seq<char>>, spec: Seq<char>) -> Row {
    row_of(seq![head] + labels.map_values(|l: Seq<char>| cell_of(l, spec)))
}

/// The texts of a list of strings.
pub open spec fn texts(v: Seq<String>) -> Seq<Seq<char>> {
    v.map_values(|s: String| s@)
}

/// The text shown for how much of a broad category an access touches.
pub open spec fn broad_access_label(a: BroadAccess) -> Seq<char> {
    match a {
        BroadAccess::Untouched => ""@,
        BroadAccess::Partial => "Some"@,
        BroadAccess::All => "**ALL**"@,
    }
}

/// The heading of a broad category.
pub open spec fn broad_kind_label(k: BroadAccessKind) -> Seq<char> {
    match k {
        BroadAccessKind::ReadComponents => "Read Components"@,
        BroadAccessKind::WriteComponents => "Write Components"@,
        BroadAccessKind::ReadResources => "Read Resources"@,
        BroadAccessKind::WriteResources => "Write Resources"@,
    }
}

/// The text shown for how an access touches one component or resource.
pub open spec fn narrow_access_label(a: NarrowAccess) -> Seq<char> {
    match a {
        NarrowAccess::Untouched => ""@,
        NarrowAccess::Read => "Read"@,
        NarrowAccess::Write => "**WRITE**"@,
    }
}

/// The refused system's name as its row shows it.
pub open spec fn marked(name: Seq<char>) -> Seq<char> {
    "~~"@ + name + "~~"@
}

/// The first line of the message.
pub open spec fn conflict_heading(name: Seq<char>) -> Seq<char> {
    "\nNested system data access conflicts between "@ + name + " and still-running systems:"@
}

/// The title row of the broad table: an empty corner, then the categories.
pub open spec fn broad_titles() -> Row {
    labelled_row(plain_cell(""@), broad_kinds().map_values(|k: BroadAccessKind| broad_kind_label(k)), "c"@)
}

/// A still-running system's row of the broad table.
pub open spec fn broad_row(r: ConflictRow<BroadAccess>) -> Row {
    labelled_row(cell_of(r.name@, "r"@), r.cells@.map_values(|a: BroadAccess| broad_access_label(a)), "c"@)
}

/// The rows of the broad table: the refused system's, then each conflicting system's.
pub open spec fn broad_table_rows(report: ConflictReport) -> Seq<Row> {
    seq![labelled_row(cell_of(marked(report.new_name@), "br"@), report.new_broad@.map_values(|a: BroadAccess| broad_access_label(a)), "c"@)]
        + report.broad_rows@.map_values(|r: ConflictRow<BroadAccess>| broad_row(r))
}

/// The title row of the narrow table: an empty corner, then the column names.
pub open spec fn narrow_titles(report: ConflictReport) -> Row {
    labelled_row(plain_cell(""@), texts(report.narrow_column_names@), "c"@)
}

/// A still-running system's row of the narrow table.
pub open spec fn narrow_row(r: ConflictRow<NarrowAccess>) -> Row {
    labelled_row(cell_of(r.name@, "r"@), r.cells@.map_values(|a: NarrowAccess| narrow_access_label(a)), "c"@)
}

/// The rows of the narrow table: the refused system's, then each conflicting system's.
pub open spec fn narrow_table_rows(report: ConflictReport) -> Seq<Row> {
    seq![labelled_row(cell_of(marked(report.new_name@), "rb"@), report.new_narrow@.map_values(|a: NarrowAccess| narrow_access_label(a)), "cb"@)]
        + report.narrow_rows@.map_values(|r: ConflictRow<NarrowAccess>| narrow_row(r))
}

/// The message for a refused nested system: the heading, then the broad table if some
/// system conflicts with it on everything, then the narrow table if some system conflicts
/// with it on particular data; each table after a blank line.
pub open spec fn conflict_message(report: ConflictReport) -> Seq<char> {
    conflict_heading(report.new_name@)
        + (if report.broad_rows@.len() > 0 {
            "\n\n"@ + table_text(Some(broad_titles()), broad_table_rows(report))
        } else {
            Seq::empty()
        })
        + (if report.narrow_rows@.len() > 0 {
            "\n\n"@ + table_text(Some(narrow_titles(report)), narrow_table_rows(report))
        } else {
            Seq::empty()
        })
}

/// A cell with the given text and style specification, which holds no `H`.
fn styled_cell(text: &str, spec: &str) -> (r: Cell)
    requires
        escape_free(text@),
        !spec@.contains('H'),
    ensures
        r == cell_of(text@, spec@),
{
    cell_style_spec(cell_new(text), spec)
}

/// A row of `head` followed by one cell per label, each with the style `spec`.
fn make_row(head: Cell, labels: &Vec<String>, spec: &str) -> (r: Row)
    requires
        !spec@.contains('H'),
        forall|i: int| 0 <= i < labels@.len() ==> escape_free(#[trigger] labels@[i]@),
    ensures
        r == labelled_row(head, texts(labels@), spec@),
{
    let ghost h = head;
    let mut cells: Vec<Cell> = Vec::new();
    cells.push(head);
    let mut i: usize = 0;
    while i < labels.len()
        invariant
            !spec@.contains('H'),
            forall|i: int| 0 <= i < labels@.len() ==> escape_free(#[trigger] labels@[i]@),
            i <= labels@.len(),
            cells@ == seq![h] + texts(labels@.subrange(0, i as int)).map_values(|l: Seq<char>| cell_of(l, spec@)),
        decreases labels@.len() - i,
    {
        let c = styled_cell(labels[i].as_str(), spec);
        cells.push(c);
        proof {
            assert(texts(labels@.subrange(0, i + 1)) =~= texts(labels@.subrange(0, i as int)).push(labels@[i as int]@));
            assert(cells@ =~= seq![h] + texts(labels@.subrange(0, i + 1)).map_values(|l: Seq<char>| cell_of(l, spec@)));
        }
        i = i + 1;
    }
    proof {
        assert(labels@.subrange(0, labels@.len() as int) =~= labels@);
    }
    row_new(cells)
}

/// The labels of a row of the broad table.
fn broad_labels(cells: &Vec<BroadAccess>) -> (r: Vec<String>)
    ensures
        texts(r@) == cells@.map_values(|a: BroadAccess| broad_access_label(a)),
        forall|i: int| 0 <= i < r@.len() ==> escape_free(#[trigger] r@[i]@),
{
    let mut r: Vec<String> = Vec::new();
    let mut i: usize = 0;
    while i < cells.len()
        invariant
            i <= cells@.len(),
            texts(r@) == cells@.subrange(0, i as int).map_values(|a: BroadAccess| broad_access_label(a)),
            forall|j: int| 0 <= j < r@.len() ==> escape_free(#[trigger] r@[j]@),
        decreases cells@.len() - i,
    {
        let ghost before = r@;
        let label = cells[i].label().to_owned();
        r.push(label);
        proof {
            lemma_labels_escape_free(cells@[i as int], BroadAccessKind::ReadComponents, NarrowAccess::Read);
            assert(label@ == broad_access_label(cells@[i as int]));
            assert(texts(r@) =~= texts(before).push(label@));
            assert(cells@.subrange(0, i + 1) =~= cells@.subrange(0, i as int).push(cells@[i as int]));
            assert(texts(r@) =~= cells@.subrange(0, i + 1).map_values(|a: BroadAccess| broad_access_label(a)));
        }
        i = i + 1;
    }
    proof {
        assert(cells@.subrange(0, cells@.len() as int) =~= cells@);
    }
    r
}

/// The labels of a row of the narrow table.
fn narrow_labels(cells: &Vec<NarrowAccess>) -> (r: Vec<String>)
    ensures
        texts(r@) == cells@.map_values(|a: NarrowAccess| narrow_access_label(a)),
        forall|i: int| 0 <= i < r@.len() ==> escape_free(#[trigger] r@[i]@),
{
    let mut r: Vec<String> = Vec::new();
    let mut i: usize = 0;
    while i < cells.len()
        invariant
            i <= cells@.len(),
            texts(r@) == cells@.subrange(0, i as int).map_values(|a: NarrowAccess| narrow_access_label(a)),
            forall|j: int| 0 <= j < r@.len() ==> escape_free(#[trigger] r@[j]@),
        decreases cells@.len() - i,
    {
        let ghost before = r@;
        let label = cells[i].label().to_owned();
        r.push(label);
        proof {
            lemma_labels_escape_free(BroadAccess::All, BroadAccessKind::ReadComponents, cells@[i as int]);
            assert(label@ == narrow_access_label(cells@[i as int]));
            assert(texts(r@) =~= texts(before).push(label@));
            assert(cells@.subrange(0, i + 1) =~= cells@.subrange(0, i as int).push(cells@[i as int]));
            assert(texts(r@) =~= cells@.subrange(0, i + 1).map_values(|a: NarrowAccess| narrow_access_label(a)));
        }
        i = i + 1;
    }
    proof {
        assert(cells@.subrange(0, cells@.len() as int) =~= cells@);
    }
    r
}

/// The refused system's name as its row shows it.
fn marked_name(name: &String) -> (r: String)
    ensures
        r@ == marked(name@),
        escape_free(name@) ==> escape_free(r@),
{
    let mut s = "~~".to_owned();
    s.append(name.as_str());
    s.append("~~");
    proof {
        reveal_strlit("~~");
        if escape_free(name@) {
            lemma_labels_escape_free(BroadAccess::All, BroadAccessKind::ReadComponents, NarrowAccess::Read);
            lemma_concat_escape_free("~~"@, name@);
            lemma_concat_escape_free("~~"@ + name@, "~~"@);
        }
    }
    s
}

/// The broad table of a report, as text.
fn broad_table_text(report: &ConflictReport) -> (r: String)
    requires
        report_escape_free(*report),
    ensures
        r@ == table_text(Some(broad_titles()), broad_table_rows(*report)),
{
    let kinds = vec![
        BroadAccessKind::ReadComponents.label().to_owned(),
        BroadAccessKind::WriteComponents.label().to_owned(),
        BroadAccessKind::ReadResources.label().to_owned(),
        BroadAccessKind::WriteResources.label().to_owned(),
    ];
    proof {
        reveal_strlit("c");
        reveal_strlit("r");
        reveal_strlit("br");
        assert(texts(kinds@) =~= broad_kinds().map_values(|k: BroadAccessKind| broad_kind_label(k)));
        lemma_labels_escape_free(BroadAccess::All, BroadAccessKind::ReadComponents, NarrowAccess::Read);
        lemma_labels_escape_free(BroadAccess::All, BroadAccessKind::WriteComponents, NarrowAccess::Read);
        lemma_labels_escape_free(BroadAccess::All, BroadAccessKind::ReadResources, NarrowAccess::Read);
        lemma_labels_escape_free(BroadAccess::All, BroadAccessKind::WriteResources, NarrowAccess::Read);
        assert forall|i: int| 0 <= i < kinds@.len() implies escape_free(#[trigger] kinds@[i]@) by {
            assert(kinds@[i]@ == broad_kind_label(broad_kinds()[i]));
        }
    }
    let mut t = table_new();
    table_set_titles(&mut t, make_row(cell_new(""), &kinds, "c"));
    let first = make_row(styled_cell(marked_name(&report.new_name).as_str(), "br"), &broad_labels(&report.new_broad), "c");
    table_add_row(&mut t, first);
    let ghost head = seq![table_rows(t)[0]];
    let mut i: usize = 0;
    while i < report.broad_rows.len()
        invariant
            i <= report.broad_rows@.len(),
            report_escape_free(*report),
            !"c"@.contains('H'),
            !"r"@.contains('H'),
            has_default_format(t),
            table_titles(t) == Some(broad_titles()),
            head == seq![broad_table_rows(*report)[0]],
            table_rows(t) == head + report.broad_rows@.subrange(0, i as int).map_values(|r: ConflictRow<BroadAccess>| broad_row(r)),
        decreases report.broad_rows@.len() - i,
    {
        let r = &report.broad_rows[i];
        let row = make_row(styled_cell(r.name.as_str(), "r"), &broad_labels(&r.cells), "c");
        table_add_row(&mut t, row);
        proof {
            let rows = report.broad_rows@;
            assert(rows.subrange(0, i + 1) =~= rows.subrange(0, i as int).push(rows[i as int]));
            assert(table_rows(t) =~= head + rows.subrange(0, i + 1).map_values(|r: ConflictRow<BroadAccess>| broad_row(r)));
        }
        i = i + 1;
    }
    proof {
        assert(report.broad_rows@.subrange(0, report.broad_rows@.len() as int) =~= report.broad_rows@);
        assert(table_rows(t) =~= broad_table_rows(*report));
    }
    table_to_text(&t)
}

/// The narrow table of a report, as text.
fn narrow_table_text(report: &ConflictReport) -> (r: String)
    requires
        report_escape_free(*report),
    ensures
        r@ == table_text(Some(narrow_titles(*report)), narrow_table_rows(*report)),
{
    proof {
        reveal_strlit("c");
        reveal_strlit("r");
        reveal_strlit("rb");
        reveal_strlit("cb");
        lemma_labels_escape_free(BroadAccess::All, BroadAccessKind::ReadComponents, NarrowAccess::Read);
    }
    let mut t = table_new();
    table_set_titles(&mut t, make_row(cell_new(""), &report.narrow_column_names, "c"));
    let first = make_row(styled_cell(marked_name(&report.new_name).as_str(), "rb"), &narrow_labels(&report.new_narrow), "cb");
    table_add_row(&mut t, first);
    let ghost head = seq![table_rows(t)[0]];
    let mut i: usize = 0;
    while i < report.narrow_rows.len()
        invariant
            i <= report.narrow_rows@.len(),
            report_escape_free(*report),
            !"c"@.contains('H'),
            !"r"@.contains('H'),
            has_default_format(t),
            table_titles(t) == Some(narrow_titles(*report)),
            head == seq![narrow_table_rows(*report)[0]],
            table_rows(t) == head + report.narrow_rows@.subrange(0, i as int).map_values(|r: ConflictRow<NarrowAccess>| narrow_row(r)),
        decreases report.narrow_rows@.len() - i,
    {
        let r = &report.narrow_rows[i];
        let row = make_row(styled_cell(r.name.as_str(), "r"), &narrow_labels(&r.cells), "c");
        table_add_row(&mut t, row);
        proof {
            let rows = report.narrow_rows@;
            assert(rows.subrange(0, i + 1) =~= rows.subrange(0, i as int).push(rows[i as int]));
            assert(table_rows(t) =~= head + rows.subrange(0, i + 1).map_values(|r: ConflictRow<NarrowAccess>| narrow_row(r)));
        }
        i = i + 1;
    }
    proof {
        assert(report.narrow_rows@.subrange(0, report.narrow_rows@.len() as int) =~= report.narrow_rows@);
        assert(table_rows(t) =~= narrow_table_rows(*report));
    }
    table_to_text(&t)
}

/// The message logged when the nested system of `report` is refused: a heading naming it,
/// then the broad table when some system conflicts with it on everything, and the narrow
/// table when some system conflicts with it on particular data, each after a blank line.
pub fn conflict_report_message(report: &ConflictReport) -> (r: String)
    requires
        report_escape_free(*report),
    ensures
        r@ == conflict_message(*report),
{
    let mut msg = "\nNested system data access conflicts between ".to_owned();
    msg.append(report.new_name.as_str());
    msg.append(" and still-running systems:");
    proof {
        reveal_strlit("\nNested system data access conflicts between ");
        reveal_strlit(" and still-running systems:");
        reveal_strlit("\n\n");
    }
    let ghost head = msg@;
    if report.broad_rows.len() > 0 {
        msg.append("\n\n");
        msg.append(broad_table_text(report).as_str());
    }
    let ghost mid = msg@;
    if report.narrow_rows.len() > 0 {
        msg.append("\n\n");
        msg.append(narrow_table_text(report).as_str());
    }
    proof {
        assert(head =~= conflict_heading(report.new_name@));
        let b = if report.broad_rows@.len() > 0 {
            "\n\n"@ + table_text(Some(broad_titles()), broad_table_rows(*report))
        } else {
            Seq::<char>::empty()
        };
        assert(mid =~= head + b);
    }
    msg
}

/// The message always begins with the heading naming the refused system. The broad table
/// follows exactly when some running system conflicts with it on everything, whatever
/// the narrow table holds; the narrow table comes last exactly when some system conflicts
/// with it on particular data; with no conflicting system at all the message is the
/// heading alone.
pub proof fn lemma_conflict_message_parts(report: ConflictReport)
    ensures
        ({
            let heading = conflict_heading(report.new_name@);
            let broad = "\n\n"@ + table_text(Some(broad_titles()), broad_table_rows(report));
            let narrow = "\n\n"@ + table_text(Some(narrow_titles(report)), narrow_table_rows(report));
            let m = conflict_message(report);
            &&& m.subrange(0, heading.len() as int) == heading
            &&& (report.broad_rows@.len() > 0 ==> m.subrange(heading.len() as int, (heading.len() + broad.len()) as int) == broad)
            &&& (report.narrow_rows@.len() > 0 ==> m.subrange(m.len() - narrow.len(), m.len() as int) == narrow)
            &&& (report.broad_rows@.len() == 0 && report.narrow_rows@.len() == 0 ==> m == heading)
            &&& (report.broad_rows@.len() > 0 && report.narrow_rows@.len() == 0 ==> m == heading + broad)
            &&& (report.broad_rows@.len() == 0 && report.narrow_rows@.len() > 0 ==> m == heading + narrow)
            &&& (report.broad_rows@.len() > 0 && report.narrow_rows@.len() > 0 ==> m == heading + broad + narrow)
        }),
{
    let heading = conflict_heading(report.new_name@);
    let broad = "\n\n"@ + table_text(Some(broad_titles()), broad_table_rows(report));
    let narrow = "\n\n"@ + table_text(Some(narrow_titles(report)), narrow_table_rows(report));
    let m = conflict_message(report);
    let b = if report.broad_rows@.len() > 0 { broad } else { Seq::<char>::empty() };
    let n = if report.narrow_rows@.len() > 0 { narrow } else { Seq::<char>::empty() };
    assert(m == heading + b + n);
    assert(m.subrange(0, heading.len() as int) =~= heading);
    if report.broad_rows@.len() > 0 {
        assert(m.subrange(heading.len() as int, (heading.len() + broad.len()) as int) =~= broad);
    }
    if report.narrow_rows@.len() > 0 {
        assert(m.subrange(m.len() - narrow.len(), m.len() as int) =~= narrow);
    }
    assert(heading + Seq::<char>::empty() + Seq::<char>::empty() =~= heading);
    assert(heading + broad + Seq::<char>::empty() =~= heading + broad);
    assert(heading + Seq::<char>::empty() + narrow =~= heading + narrow);
}

} // verus!
