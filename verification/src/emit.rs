//! The text emitter.
//!
//! Renders an assembled container into its indented, human-readable
//! text form, byte for byte: a parenthesis/bracket convention with
//! 4-space nested indentation, a fixed field order per record, every
//! grid cell zero-padded to two decimal digits, and separators after
//! every row and every record but the last. It is a pure formatting
//! pass: no field's value is altered, only rendered.

use crate::container::{MapEntry, MapEntryView, MapFile, MapFileView};
use crate::gravity::GravityVector;
use crate::numfmt::{dec_digits, format_double_digit, push_dec, push_tenths, tenths_text, two_digit};
use vstd::prelude::*;

verus! {

/// The cells of one grid row, zero-padded to two digits each, with
/// a comma and a space between neighbours.
pub open spec fn render_row_cells(row: Seq<u8>) -> Seq<char>
    decreases row.len(),
{
    if row.len() == 0 {
        Seq::empty()
    } else if row.len() == 1 {
        two_digit(row[0] as nat)
    } else {
        render_row_cells(row.drop_last()) + ", "@ + two_digit(row.last() as nat)
    }
}

/// What opens a grid row: the first row follows the `data` field on
/// the same line, every later row starts on a new line with extra
/// indentation.
pub open spec fn row_open(i: int) -> Seq<char> {
    if i == 0 {
        "["@
    } else {
        "\n                ["@
    }
}

/// What closes a grid row: a row separator after every row but the
/// last, which instead closes the whole grid.
pub open spec fn row_close(rows: Seq<Seq<u8>>, i: int) -> Seq<char> {
    if i == rows.len() - 1 {
        "]]"@
    } else {
        "],"@
    }
}

/// The first `n` grid rows, rendered in order.
pub open spec fn render_rows_upto(rows: Seq<Seq<u8>>, n: int) -> Seq<char>
    decreases n,
{
    if n <= 0 {
        Seq::empty()
    } else {
        render_rows_upto(rows, n - 1) + row_open(n - 1) + render_row_cells(rows[n - 1])
            + row_close(rows, n - 1)
    }
}

/// A record's whole grid, rendered row by row.
pub open spec fn render_rows(rows: Seq<Seq<u8>>) -> Seq<char> {
    render_rows_upto(rows, rows.len() as int)
}

/// The gravity field line: an optional wrapper around the rendered
/// 3-tuple when a vector is present, an explicit `None` marker when
/// not.
pub open spec fn render_gravity_line(g: Option<GravityVector>) -> Seq<char> {
    match g {
        Some(v) => "            gravity: Some(("@ + tenths_text(v.x_tenths as int) + ", "@
            + tenths_text(v.y_tenths as int) + ", "@ + tenths_text(v.z_tenths as int) + ")),\n"@,
        None => "            gravity: None,\n"@,
    }
}

/// The field lines of one record, in the fixed order: name,
/// description, width, height, area, gravity, id, data.
pub open spec fn render_entry_fields(e: MapEntryView) -> Seq<char> {
    "            name: \""@ + e.name + "\",\n"@ + "            description: \""@ + e.description
        + "\",\n"@ + "            width: "@ + dec_digits(e.width as nat) + ",\n"@
        + "            height: "@ + dec_digits(e.height as nat) + ",\n"@ + "            area: "@
        + dec_digits(e.area as nat) + ",\n"@ + render_gravity_line(e.gravity) + "            id: "@
        + dec_digits(e.id as nat) + ",\n"@ + "            data: ["@ + render_rows(e.data) + ",\n"@
}

/// What opens a record object: every record but the first also
/// closes its predecessor, followed by a record separator.
pub open spec fn entry_open(i: int) -> Seq<char> {
    if i == 0 {
        "        (\n"@
    } else {
        "        ),\n        (\n"@
    }
}

/// The first `n` records, rendered in order.
pub open spec fn render_entries_upto(maps: Seq<MapEntryView>, n: int) -> Seq<char>
    decreases n,
{
    if n <= 0 {
        Seq::empty()
    } else {
        render_entries_upto(maps, n - 1) + entry_open(n - 1) + render_entry_fields(maps[n - 1])
    }
}

/// The whole container in its text form: magic, count, the list of
/// records, and the closing delimiters.
pub open spec fn render_map_file(m: MapFileView) -> Seq<char> {
    "(\n    magic: \""@ + m.magic + "\",\n    count: "@ + dec_digits(m.count as nat)
        + ",\n    maps: [\n"@ + render_entries_upto(m.maps, m.maps.len() as int) + "        )\n    ],\n)\n"@
}

/// Append the cells of one grid row.
fn push_row_cells(s: &mut String, row: &Vec<u8>)
    ensures
        final(s)@ == old(s)@ + render_row_cells(row@),
{
    let mut c: usize = 0;
    while c < row.len()
        invariant
            c <= row@.len(),
            s@ == old(s)@ + render_row_cells(row@.subrange(0, c as int)),
        decreases row@.len() - c,
    {
        if c > 0 {
            s.append(", ");
        }
        let cell = format_double_digit(row[c]);
        s.append(cell.as_str());
        proof {
            let sub = row@.subrange(0, c + 1);
            assert(sub.drop_last() =~= row@.subrange(0, c as int));
            assert(sub.last() == row@[c as int]);
            assert(s@ =~= old(s)@ + render_row_cells(sub));
        }
        c += 1;
    }
    proof {
        assert(row@.subrange(0, row@.len() as int) =~= row@);
    }
}

/// Append a record's whole grid.
fn push_rows(s: &mut String, rows: &Vec<Vec<u8>>)
    ensures
        final(s)@ == old(s)@ + render_rows(rows.deep_view()),
{
    let ghost grows = rows.deep_view();
    proof {
        assert(grows.len() == rows@.len());
    }
    let mut r: usize = 0;
    while r < rows.len()
        invariant
            r <= rows@.len(),
            grows == rows.deep_view(),
            grows.len() == rows@.len(),
            s@ == old(s)@ + render_rows_upto(grows, r as int),
        decreases rows@.len() - r,
    {
        if r == 0 {
            s.append("[");
        } else {
            s.append("\n                [");
        }
        push_row_cells(s, &rows[r]);
        if r + 1 < rows.len() {
            s.append("],");
        } else {
            s.append("]]");
        }
        proof {
            assert(grows[r as int] == rows@[r as int]@);
            assert(s@ =~= old(s)@ + render_rows_upto(grows, r as int + 1));
        }
        r += 1;
    }
}

/// Append the gravity field line.
fn push_gravity_line(s: &mut String, g: &Option<GravityVector>)
    ensures
        final(s)@ == old(s)@ + render_gravity_line(*g),
{
    match g {
        Some(v) => {
            s.append("            gravity: Some((");
            push_tenths(s, v.x_tenths);
            s.append(", ");
            push_tenths(s, v.y_tenths);
            s.append(", ");
            push_tenths(s, v.z_tenths);
            s.append(")),\n");
            proof {
                assert(final(s)@ =~= old(s)@ + render_gravity_line(*g));
            }
        },
        None => {
            s.append("            gravity: None,\n");
        },
    }
}

/// Append the field lines of one record.
fn push_entry_fields(s: &mut String, e: &MapEntry)
    ensures
        final(s)@ == old(s)@ + render_entry_fields(e@),
{
    s.append("            name: \"");
    s.append(e.name.as_str());
    s.append("\",\n");
    s.append("            description: \"");
    s.append(e.description.as_str());
    s.append("\",\n");
    s.append("            width: ");
    push_dec(s, e.width);
    s.append(",\n");
    s.append("            height: ");
    push_dec(s, e.height);
    s.append(",\n");
    s.append("            area: ");
    push_dec(s, e.area);
    s.append(",\n");
    push_gravity_line(s, &e.gravity);
    s.append("            id: ");
    push_dec(s, e.id);
    s.append(",\n");
    s.append("            data: [");
    push_rows(s, &e.data);
    s.append(",\n");
    proof {
        assert(final(s)@ =~= old(s)@ + render_entry_fields(e@));
    }
}

/// Render a whole container into its text form.
pub fn emit_map_file(m: &MapFile) -> (r: String)
    ensures
        r@ == render_map_file(m@),
{
    let mut s = String::new();
    s.append("(\n    magic: \"");
    s.append(m.magic.as_str());
    s.append("\",\n    count: ");
    push_dec(&mut s, m.count);
    s.append(",\n    maps: [\n");
    let ghost header = s@;
    let mut i: usize = 0;
    while i < m.maps.len()
        invariant
            i <= m.maps@.len(),
            s@ == header + render_entries_upto(m@.maps, i as int),
            m@.maps.len() == m.maps@.len(),
            m@.maps == m.maps@.map_values(|e: MapEntry| e@),
        decreases m.maps@.len() - i,
    {
        if i == 0 {
            s.append("        (\n");
        } else {
            s.append("        ),\n        (\n");
        }
        push_entry_fields(&mut s, &m.maps[i]);
        proof {
            assert(m@.maps[i as int] == m.maps@[i as int]@);
            assert(s@ =~= header + render_entries_upto(m@.maps, i as int + 1));
        }
        i += 1;
    }
    s.append("        )\n    ],\n)\n");
    proof {
        assert(s@ =~= render_map_file(m@));
    }
    s
}

/// The rendered form of any two-element grid row: each cell
/// zero-padded to two decimal digits, with the cell separator
/// between them.
pub proof fn lemma_two_element_row_cells(row: Seq<u8>)
    requires
        row.len() == 2,
    ensures
        render_row_cells(row) == two_digit(row[0] as nat) + ", "@ + two_digit(row[1] as nat),
{
    assert(row.drop_last() =~= seq![row[0]]);
    assert(render_row_cells(row.drop_last()) == two_digit(row[0] as nat));
}

} // verus!
