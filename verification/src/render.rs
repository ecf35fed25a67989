//! The decorative header and the top-level render call.

use vstd::prelude::*;
use vstd::string::*;
use crate::entry::{entry_name_views, entry_names, Entry, Mode, RenderContext};
use crate::grid::{format_as_grid, grid_str};
use crate::list::{format_as_list, list_str};
use crate::table::{format_as_table, table_str};
use crate::text::nl;
use crate::tree::{format_as_tree, tree_str};

verus! {

/// The horizontal rule: a full-width run of box-drawing dashes.
pub open spec fn rule_line(width: nat) -> Seq<char> {
    Seq::new(width, |i: int| '─')
}

/// The decorative header: the directory label behind a fixed caption,
/// then a terminal-wide rule, each on its own line.
pub open spec fn pretty_prefix(label: Seq<char>, width: nat) -> Seq<char> {
    "  Directory "@ + label + nl() + rule_line(width) + nl()
}

/// The chosen layout's body text.
pub open spec fn body_str(entries: Seq<Entry>, mode: Mode, width: nat) -> Seq<char> {
    match mode {
        Mode::Grid => grid_str(entry_name_views(entries), width),
        Mode::Table => table_str(entries),
        Mode::Tree => tree_str(entry_name_views(entries)),
        Mode::List => list_str(entry_name_views(entries)),
    }
}

/// The full output of one render call: the body of the chosen layout,
/// under the decorative header when pretty mode is on.
pub open spec fn rendered(entries: Seq<Entry>, ctx: RenderContext, label: Seq<char>) -> Seq<char> {
    if ctx.pretty {
        pretty_prefix(label, ctx.terminal_width as nat) + body_str(
            entries,
            ctx.mode,
            ctx.terminal_width as nat,
        )
    } else {
        body_str(entries, ctx.mode, ctx.terminal_width as nat)
    }
}

/// The decorative header above a listing.
pub fn pretty_header(directory_label: &String, terminal_width: usize) -> (out: String)
    ensures
        out@ == pretty_prefix(directory_label@, terminal_width as nat),
{
    let mut out = String::from_str("  Directory ");
    out.append(directory_label.as_str());
    out.append("\n");
    let mut k: usize = 0;
    proof {
        reveal_strlit("\n");
        assert("\n"@ =~= nl());
        assert(out@ =~= "  Directory "@ + directory_label@ + nl() + rule_line(0));
    }
    while k < terminal_width
        invariant
            k <= terminal_width,
            out@ == "  Directory "@ + directory_label@ + nl() + rule_line(k as nat),
        decreases terminal_width - k,
    {
        out.append("─");
        k = k + 1;
        proof {
            reveal_strlit("─");
            assert(out@ =~= "  Directory "@ + directory_label@ + nl() + rule_line(k as nat));
        }
    }
    out.append("\n");
    proof {
        reveal_strlit("\n");
        assert(out@ =~= pretty_prefix(directory_label@, terminal_width as nat));
    }
    out
}

/// Renders the entries in the context's layout, with the decorative
/// header when asked for.
pub fn render_entries(entries: &Vec<Entry>, ctx: &RenderContext, directory_label: &String) -> (out:
    String)
    ensures
        out@ == rendered(entries@, *ctx, directory_label@),
{
    let body = match &ctx.mode {
        Mode::Grid => {
            let names = entry_names(entries);
            format_as_grid(&names, ctx.terminal_width)
        },
        Mode::Table => format_as_table(entries),
        Mode::Tree => {
            let names = entry_names(entries);
            format_as_tree(&names)
        },
        Mode::List => {
            let names = entry_names(entries);
            format_as_list(&names)
        },
    };
    if ctx.pretty {
        let mut out = pretty_header(directory_label, ctx.terminal_width);
        out.append(body.as_str());
        out
    } else {
        body
    }
}

} // verus!
