//! The aligned three-column table layout.

use vstd::prelude::*;
use vstd::string::*;
use crate::entry::Entry;
use crate::text::{
    gutter, join_lines, join_with_newlines, lemma_max_len_ge, lemma_pad_right_len, max_len,
    pad_right, pad_to_width, views_of,
};
use crate::util::{file_size_to_string, size_str};

verus! {

/// The modified-time cell of an entry: its text, or the placeholder
/// when the metadata could not be read.
pub open spec fn modified_cell(e: Entry) -> Seq<char> {
    match e.modified {
        Some(m) => m@,
        None => "----"@,
    }
}

/// The size cell of an entry: the humanized byte count, or the placeholder
/// when the metadata could not be read.
pub open spec fn size_cell(e: Entry) -> Seq<char> {
    match e.size_bytes {
        Some(n) => size_str(n),
        None => "----"@,
    }
}

/// The name cell of an entry.
pub open spec fn name_cell(e: Entry) -> Seq<char> {
    e.name@
}

/// The modified-time cells of all entries, in order.
pub open spec fn modified_cells(entries: Seq<Entry>) -> Seq<Seq<char>> {
    entries.map_values(|e: Entry| modified_cell(e))
}

/// The size cells of all entries, in order.
pub open spec fn size_cells(entries: Seq<Entry>) -> Seq<Seq<char>> {
    entries.map_values(|e: Entry| size_cell(e))
}

/// The name cells of all entries, in order.
pub open spec fn name_cells(entries: Seq<Entry>) -> Seq<Seq<char>> {
    entries.map_values(|e: Entry| name_cell(e))
}

/// A column's width: the widest of its header label and its data cells.
pub open spec fn column_width(header: Seq<char>, cells: Seq<Seq<char>>) -> nat {
    if header.len() > max_len(cells) {
        header.len()
    } else {
        max_len(cells)
    }
}

/// The width of the modified-time column.
pub open spec fn modified_width(entries: Seq<Entry>) -> nat {
    column_width("Last modified"@, modified_cells(entries))
}

/// The width of the size column.
pub open spec fn size_width(entries: Seq<Entry>) -> nat {
    column_width("Size"@, size_cells(entries))
}

/// The width of the name column.
pub open spec fn name_width(entries: Seq<Entry>) -> nat {
    column_width("Name"@, name_cells(entries))
}

/// One rendered table line: the three cells, each padded to its column's
/// width, separated by the two-space gutter.
pub open spec fn table_line(c0: Seq<char>, c1: Seq<char>, c2: Seq<char>, w0: nat, w1: nat, w2: nat) -> Seq<char> {
    pad_right(c0, w0) + gutter() + pad_right(c1, w1) + gutter() + pad_right(c2, w2)
}

/// The rendered header line.
pub open spec fn header_line(entries: Seq<Entry>) -> Seq<char> {
    table_line(
        "Last modified"@,
        "Size"@,
        "Name"@,
        modified_width(entries),
        size_width(entries),
        name_width(entries),
    )
}

/// The rendered line of one entry.
pub open spec fn entry_line(entries: Seq<Entry>, e: Entry) -> Seq<char> {
    table_line(
        modified_cell(e),
        size_cell(e),
        name_cell(e),
        modified_width(entries),
        size_width(entries),
        name_width(entries),
    )
}

/// The table layout: the header line, then one line per entry,
/// joined by newlines.
pub open spec fn table_str(entries: Seq<Entry>) -> Seq<char> {
    join_lines(seq![header_line(entries)] + entries.map_values(|e: Entry| entry_line(entries, e)))
}

/// The widest of a header label's width and the data cells' widths.
fn fit_column(header_len: usize, cells: &Vec<String>) -> (w: usize)
    ensures
        w as nat == if header_len as nat > max_len(views_of(cells@)) {
            header_len as nat
        } else {
            max_len(views_of(cells@))
        },
{
    let mut w = header_len;
    let mut k: usize = 0;
    while k < cells.len()
        invariant
            k <= cells@.len(),
            w as nat == if header_len as nat > max_len(views_of(cells@).take(k as int)) {
                header_len as nat
            } else {
                max_len(views_of(cells@).take(k as int))
            },
        decreases cells@.len() - k,
    {
        let l = cells[k].as_str().unicode_len();
        if l > w {
            w = l;
        }
        k = k + 1;
        proof {
            let vs = views_of(cells@);
            assert(vs.take(k as int).drop_last() =~= vs.take(k - 1));
            assert(vs.take(k as int).last() == vs[k - 1]);
        }
    }
    proof {
        assert(views_of(cells@).take(cells@.len() as int) =~= views_of(cells@));
    }
    w
}

/// The modified-time cell of one entry, as a string.
fn modified_cell_exec(e: &Entry) -> (s: String)
    ensures
        s@ == modified_cell(*e),
{
    match &e.modified {
        Some(m) => m.clone(),
        None => String::from_str("----"),
    }
}

/// The size cell of one entry, as a string.
fn size_cell_exec(e: &Entry) -> (s: String)
    ensures
        s@ == size_cell(*e),
{
    match e.size_bytes {
        Some(n) => file_size_to_string(n),
        None => String::from_str("----"),
    }
}

/// One rendered line from its three cells and the column widths.
fn build_line(c0: &String, c1: &String, c2: &String, w0: usize, w1: usize, w2: usize) -> (line:
    String)
    ensures
        line@ == table_line(c0@, c1@, c2@, w0 as nat, w1 as nat, w2 as nat),
{
    let mut line = pad_to_width(c0, w0);
    line.append("  ");
    let p1 = pad_to_width(c1, w1);
    line.append(p1.as_str());
    line.append("  ");
    let p2 = pad_to_width(c2, w2);
    line.append(p2.as_str());
    proof {
        reveal_strlit("  ");
        assert("  "@ =~= gutter());
    }
    line
}

/// Renders entries as an aligned table with a header, each column as wide
/// as its widest text, columns separated by the two-space gutter.
pub fn format_as_table(entries: &Vec<Entry>) -> (out: String)
    ensures
        out@ == table_str(entries@),
{
    let n = entries.len();
    let mut cells0: Vec<String> = Vec::new();
    let mut cells1: Vec<String> = Vec::new();
    let mut cells2: Vec<String> = Vec::new();
    let mut i: usize = 0;
    while i < n
        invariant
            i <= n,
            n == entries@.len(),
            cells0@.len() == i,
            cells1@.len() == i,
            cells2@.len() == i,
            forall|k: int| 0 <= k < i ==> (#[trigger] cells0@[k])@ == modified_cell(entries@[k]),
            forall|k: int| 0 <= k < i ==> (#[trigger] cells1@[k])@ == size_cell(entries@[k]),
            forall|k: int| 0 <= k < i ==> (#[trigger] cells2@[k])@ == name_cell(entries@[k]),
        decreases n - i,
    {
        cells0.push(modified_cell_exec(&entries[i]));
        cells1.push(size_cell_exec(&entries[i]));
        cells2.push(entries[i].name.clone());
        i = i + 1;
    }
    proof {
        assert(views_of(cells0@) =~= modified_cells(entries@));
        assert(views_of(cells1@) =~= size_cells(entries@));
        assert(views_of(cells2@) =~= name_cells(entries@));
    }
    let h0 = "Last modified".unicode_len();
    let h1 = "Size".unicode_len();
    let h2 = "Name".unicode_len();
    let w0 = fit_column(h0, &cells0);
    let w1 = fit_column(h1, &cells1);
    let w2 = fit_column(h2, &cells2);
    proof {
        assert(w0 as nat == modified_width(entries@));
        assert(w1 as nat == size_width(entries@));
        assert(w2 as nat == name_width(entries@));
    }
    let hdr0 = String::from_str("Last modified");
    let hdr1 = String::from_str("Size");
    let hdr2 = String::from_str("Name");
    let mut lines: Vec<String> = Vec::new();
    lines.push(build_line(&hdr0, &hdr1, &hdr2, w0, w1, w2));
    let mut i: usize = 0;
    while i < n
        invariant
            i <= n,
            n == entries@.len(),
            cells0@.len() == n,
            cells1@.len() == n,
            cells2@.len() == n,
            forall|k: int| 0 <= k < n ==> (#[trigger] cells0@[k])@ == modified_cell(entries@[k]),
            forall|k: int| 0 <= k < n ==> (#[trigger] cells1@[k])@ == size_cell(entries@[k]),
            forall|k: int| 0 <= k < n ==> (#[trigger] cells2@[k])@ == name_cell(entries@[k]),
            w0 as nat == modified_width(entries@),
            w1 as nat == size_width(entries@),
            w2 as nat == name_width(entries@),
            lines@.len() == i + 1,
            lines@[0]@ == header_line(entries@),
            forall|m: int|
                1 <= m <= i ==> (#[trigger] lines@[m])@ == entry_line(entries@, entries@[m - 1]),
        decreases n - i,
    {
        lines.push(build_line(&cells0[i], &cells1[i], &cells2[i], w0, w1, w2));
        i = i + 1;
    }
    proof {
        assert(views_of(lines@) =~= seq![header_line(entries@)] + entries@.map_values(
            |e: Entry| entry_line(entries@, e),
        ));
    }
    join_with_newlines(&lines)
}

/// Column alignment: in the rendered table every cell of a column —
/// the header's and every entry's — is padded to exactly the width of
/// the widest text in that column.
pub proof fn lemma_table_columns_aligned(entries: Seq<Entry>)
    ensures
        pad_right("Last modified"@, modified_width(entries)).len() == modified_width(entries),
        pad_right("Size"@, size_width(entries)).len() == size_width(entries),
        pad_right("Name"@, name_width(entries)).len() == name_width(entries),
        forall|i: int|
            0 <= i < entries.len() ==> pad_right(
                modified_cell(#[trigger] entries[i]),
                modified_width(entries),
            ).len() == modified_width(entries),
        forall|i: int|
            0 <= i < entries.len() ==> pad_right(
                size_cell(#[trigger] entries[i]),
                size_width(entries),
            ).len() == size_width(entries),
        forall|i: int|
            0 <= i < entries.len() ==> pad_right(
                name_cell(#[trigger] entries[i]),
                name_width(entries),
            ).len() == name_width(entries),
{
    lemma_pad_right_len("Last modified"@, modified_width(entries));
    lemma_pad_right_len("Size"@, size_width(entries));
    lemma_pad_right_len("Name"@, name_width(entries));
    assert forall|i: int| 0 <= i < entries.len() implies pad_right(
        modified_cell(#[trigger] entries[i]),
        modified_width(entries),
    ).len() == modified_width(entries) by {
        lemma_max_len_ge(modified_cells(entries), i);
        lemma_pad_right_len(modified_cell(entries[i]), modified_width(entries));
    }
    assert forall|i: int| 0 <= i < entries.len() implies pad_right(
        size_cell(#[trigger] entries[i]),
        size_width(entries),
    ).len() == size_width(entries) by {
        lemma_max_len_ge(size_cells(entries), i);
        lemma_pad_right_len(size_cell(entries[i]), size_width(entries));
    }
    assert forall|i: int| 0 <= i < entries.len() implies pad_right(
        name_cell(#[trigger] entries[i]),
        name_width(entries),
    ).len() == name_width(entries) by {
        lemma_max_len_ge(name_cells(entries), i);
        lemma_pad_right_len(name_cell(entries[i]), name_width(entries));
    }
}

} // verus!
