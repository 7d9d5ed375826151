//! Table-mode output: the fixed header, the record-to-row mapping, and the
//! always-empty per-record error hook. The cell computation is verified; the
//! final text layout is done by prettytable behind one trusted wrapper.
//!
//! prettytable measures each cell line's display width and asserts that the
//! measure is no smaller than the number of characters it counts as hidden
//! inside ANSI escape spans; on some strings that mix the escape character
//! with ligature sequences the measure is smaller and the assert panics. A
//! span can only begin at U+001B, so the layout step replaces that one
//! character in every cell before handing the cells over, and the rendering
//! stays total.

use vstd::prelude::*;

use crate::json::push_char;
use crate::records::ListTableFormats;
use crate::records::RecordView;

verus! {

/// The fixed header labels of the table: the same whatever the collection
/// holds.
pub open spec fn header_cells() -> Seq<Seq<char>> {
    seq!["NAME"@, "STATUS"@]
}

/// The table body cells: one row per record, in collection order, with the
/// record's name in the first cell and its status in the second.
pub open spec fn content_cells(rs: Seq<RecordView>) -> Seq<Seq<Seq<char>>> {
    rs.map_values(|r: RecordView| seq![r.name, r.status])
}

/// Whether a string is free of the escape character U+001B, the only
/// character at which prettytable's width measure can enter an ANSI escape
/// span.
pub open spec fn esc_free(s: Seq<char>) -> bool {
    forall|i: int| 0 <= i < s.len() ==> s[i] != '\u{1b}'
}

/// One character of a cell as the layout receives it: U+001B is replaced by
/// the replacement character, everything else stands as itself.
pub open spec fn sanitize_char(c: char) -> char {
    if c == '\u{1b}' {
        '\u{fffd}'
    } else {
        c
    }
}

/// A cell string as the layout receives it.
pub open spec fn sanitize_cell(s: Seq<char>) -> Seq<char> {
    s.map_values(|c: char| sanitize_char(c))
}

/// The body cells as the layout receives them: every cell sanitized, rows
/// and order unchanged.
pub open spec fn sanitize_rows(rows: Seq<Seq<Seq<char>>>) -> Seq<Seq<Seq<char>>> {
    rows.map_values(|row: Seq<Seq<char>>| row.map_values(|s: Seq<char>| sanitize_cell(s)))
}

proof fn lemma_sanitized_esc_free(s: Seq<char>)
    ensures
        esc_free(sanitize_cell(s)),
{
    assert forall|i: int| 0 <= i < sanitize_cell(s).len() implies sanitize_cell(s)[i]
        != '\u{1b}' by {
        assert(sanitize_cell(s)[i] == sanitize_char(s[i]));
    }
}

/// The text that prettytable lays out for a table whose title row holds the
/// given header labels and whose body holds the given cell strings.
pub uninterp spec fn table_text_of(header: Seq<Seq<char>>, rows: Seq<Seq<Seq<char>>>) -> Seq<char>;

/// Relies on prettytable: `Cell::new` / `Cell::new_align`, `Row::new`,
/// `Table::init`, `Table::set_titles` and `Table`'s `Display` impl. The
/// table is built from the given strings alone — header cells left-aligned,
/// body cells right-aligned, no styling — and `Display` prints it into an
/// in-memory buffer with the default format, so the text is a deterministic
/// function of the header and body cell strings. `Cell::new_align` measures
/// each content line's display width and asserts that it is no smaller than
/// the count of characters hidden in ANSI escape spans; a span can only
/// begin at U+001B, so on escape-free cells the hidden count is zero, the
/// assert holds, and the call returns.
#[verifier::external_body]
fn format_table(header: &Vec<String>, rows: &Vec<Vec<String>>) -> (r: String)
    requires
        forall|i: int| 0 <= i < header.deep_view().len() ==> esc_free(
            #[trigger] header.deep_view()[i],
        ),
        forall|i: int, j: int|
            0 <= i < rows.deep_view().len() && 0 <= j < rows.deep_view()[i].len() ==> esc_free(
                #[trigger] rows.deep_view()[i][j],
            ),
    ensures
        r@ == table_text_of(header.deep_view(), rows.deep_view()),
{
    let title = prettytable::Row::new(header.iter().map(|h| prettytable::Cell::new(h)).collect());
    let body = rows
        .iter()
        .map(|cells| {
            prettytable::Row::new(
                cells
                    .iter()
                    .map(|c| prettytable::Cell::new_align(c, prettytable::format::Alignment::RIGHT))
                    .collect(),
            )
        })
        .collect();
    let mut table = prettytable::Table::init(body);
    table.set_titles(title);
    table.to_string()
}

impl ListTableFormats {
    /// The header row of the table: always exactly `NAME`, `STATUS`.
    pub fn header(&self) -> (r: Vec<String>)
        ensures
            r.deep_view() == header_cells(),
    {
        let mut v: Vec<String> = Vec::new();
        v.push(String::from_str("NAME"));
        v.push(String::from_str("STATUS"));
        proof {
            assert(v.deep_view() =~= header_cells());
        }
        v
    }

    /// Per-record error annotations in string form. This command never
    /// populates them: the result is empty for every collection.
    pub fn errors(&self) -> (r: Vec<String>)
        ensures
            r@ == Seq::<String>::empty(),
    {
        Vec::new()
    }

    /// The table body: one row per record, in collection order, with cells
    /// `(name, status)`.
    pub fn content(&self) -> (r: Vec<Vec<String>>)
        ensures
            r.deep_view() == content_cells(self@),
    {
        let mut rows: Vec<Vec<String>> = Vec::new();
        let n = self.0.len();
        for i in 0..n
            invariant
                n == self.0.len(),
                rows@.len() == i,
                forall|j: int|
                    0 <= j < i ==> {
                        &&& (#[trigger] rows@[j])@.len() == 2
                        &&& rows@[j]@[0]@ == self.0@[j].name@
                        &&& rows@[j]@[1]@ == self.0@[j].status@
                    },
        {
            let mut row: Vec<String> = Vec::new();
            row.push(self.0[i].name.clone());
            row.push(self.0[i].status.clone());
            rows.push(row);
        }
        proof {
            assert(rows.deep_view() =~~= content_cells(self@));
        }
        rows
    }

    /// The whole table as text: the fixed header over one row per record,
    /// with every cell sanitized for layout, laid out by prettytable.
    pub fn to_table_text(&self) -> (r: String)
        ensures
            r@ == table_text_of(header_cells(), sanitize_rows(content_cells(self@))),
    {
        let header = self.header();
        let rows = self.content();
        let clean = sanitize_rows_exec(&rows);
        proof {
            reveal_strlit("NAME");
            reveal_strlit("STATUS");
            assert forall|i: int| 0 <= i < header.deep_view().len() implies esc_free(
                #[trigger] header.deep_view()[i],
            ) by {
                if i == 0 {
                    assert(header.deep_view()[0] == "NAME"@);
                    assert(esc_free("NAME"@));
                } else {
                    assert(header.deep_view()[1] == "STATUS"@);
                    assert(esc_free("STATUS"@));
                }
            }
            assert forall|i: int, j: int|
                0 <= i < clean.deep_view().len() && 0 <= j
                    < clean.deep_view()[i].len() implies esc_free(
                #[trigger] clean.deep_view()[i][j],
            ) by {
                assert(clean.deep_view()[i][j] == sanitize_cell(rows.deep_view()[i][j]));
                lemma_sanitized_esc_free(rows.deep_view()[i][j]);
            }
        }
        format_table(&header, &clean)
    }
}

/// A cell string as handed to the layout: U+001B replaced so that no ANSI
/// escape span can begin.
fn sanitize_cell_string(s: &String) -> (r: String)
    ensures
        r@ == sanitize_cell(s@),
{
    let mut out = String::new();
    let n = s.as_str().unicode_len();
    for i in 0..n
        invariant
            n == s@.len(),
            out@ == sanitize_cell(s@.take(i as int)),
    {
        let c = s.as_str().get_char(i);
        if c == '\u{1b}' {
            push_char(&mut out, '\u{fffd}');
        } else {
            push_char(&mut out, c);
        }
        proof {
            assert(sanitize_cell(s@.take(i + 1 as int)) =~= sanitize_cell(
                s@.take(i as int),
            ).push(sanitize_char(s@[i as int])));
        }
    }
    proof {
        assert(s@.take(n as int) =~= s@);
    }
    out
}

/// The body cells with every cell sanitized, rows and order unchanged.
fn sanitize_rows_exec(rows: &Vec<Vec<String>>) -> (r: Vec<Vec<String>>)
    ensures
        r.deep_view() == sanitize_rows(rows.deep_view()),
{
    let mut clean: Vec<Vec<String>> = Vec::new();
    let n = rows.len();
    for i in 0..n
        invariant
            n == rows@.len(),
            clean@.len() == i,
            forall|a: int|
                0 <= a < i ==> (#[trigger] clean@[a])@.len() == rows@[a]@.len(),
            forall|a: int, b: int|
                0 <= a < i && 0 <= b < clean@[a]@.len() ==> (#[trigger] clean@[a]@[b])@
                    == sanitize_cell(rows@[a]@[b]@),
    {
        let row = &rows[i];
        let mut clean_row: Vec<String> = Vec::new();
        let m = row.len();
        for j in 0..m
            invariant
                m == row@.len(),
                clean_row@.len() == j,
                forall|b: int|
                    0 <= b < j ==> (#[trigger] clean_row@[b])@ == sanitize_cell(row@[b]@),
        {
            clean_row.push(sanitize_cell_string(&row[j]));
        }
        clean.push(clean_row);
    }
    proof {
        assert forall|a: int| 0 <= a < clean.deep_view().len() implies clean.deep_view()[a]
            =~= sanitize_rows(rows.deep_view())[a] by {
            assert(sanitize_rows(rows.deep_view())[a] == rows.deep_view()[a].map_values(
                |s: Seq<char>| sanitize_cell(s),
            ));
            assert forall|b: int| 0 <= b < clean.deep_view()[a].len() implies clean.deep_view(
            )[a][b] == sanitize_rows(rows.deep_view())[a][b] by {
                assert(clean.deep_view()[a][b] == clean@[a]@[b]@);
                assert(rows.deep_view()[a][b] == rows@[a]@[b]@);
            }
        }
        assert(clean.deep_view() =~~= sanitize_rows(rows.deep_view()));
    }
    clean
}

} // verus!
