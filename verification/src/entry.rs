//! Directory entries, render settings, and the upstream filtering
//! and mode-selection rules.

use vstd::prelude::*;
use vstd::string::*;
use crate::text::views_of;

verus! {

/// One directory item, as the directory-reading caller hands it to the
/// layout engine.
///
/// Metadata that could not be read is `None` and renders as the `----`
/// placeholder. The modification time arrives as already-formatted text:
/// turning a raw timestamp into text is the caller's concern, so that the
/// engine stays a pure function of plain values.
pub struct Entry {
    pub name: String,
    pub is_directory: bool,
    pub size_bytes: Option<u64>,
    pub modified: Option<String>,
}

/// The four layouts the engine offers.
pub enum Mode {
    Grid,
    Table,
    Tree,
    List,
}

/// The per-call environment of one render.
pub struct RenderContext {
    pub terminal_width: usize,
    pub mode: Mode,
    pub pretty: bool,
}

/// The command-line switches that drive one invocation. Reading the real
/// command line is the caller's concern; the engine only interprets the
/// switches.
pub struct Args {
    pub dir_name: Option<String>,
    pub all: bool,
    pub long: bool,
    pub tree: bool,
    pub pretty_print: bool,
}

/// The mode a set of switches selects: the long listing wins, then the
/// tree; otherwise the grid on an interactive terminal and the plain list
/// elsewhere.
pub open spec fn selected_mode(long: bool, tree: bool, interactive: bool) -> Mode {
    if long {
        Mode::Table
    } else if tree {
        Mode::Tree
    } else if !interactive {
        Mode::List
    } else {
        Mode::Grid
    }
}

/// Picks the layout mode for the given switches.
pub fn select_mode(args: &Args, interactive: bool) -> (m: Mode)
    ensures
        m == selected_mode(args.long, args.tree, interactive),
{
    if args.long {
        Mode::Table
    } else if args.tree {
        Mode::Tree
    } else if !interactive {
        Mode::List
    } else {
        Mode::Grid
    }
}

/// Holds when a name marks a hidden entry: it begins with a dot.
pub open spec fn is_hidden(name: Seq<char>) -> bool {
    name.len() > 0 && name[0] == '.'
}

/// The predicate that keeps an entry in the listing under the `all` switch:
/// everything stays when `all` is set, otherwise only unhidden entries.
pub open spec fn keep_pred(all: bool) -> spec_fn(Entry) -> bool {
    |e: Entry| all || !is_hidden(e.name@)
}

/// Whether `name` marks a hidden entry.
pub fn name_is_hidden(name: &String) -> (b: bool)
    ensures
        b == is_hidden(name@),
{
    if name.as_str().unicode_len() == 0 {
        false
    } else {
        let c = name.as_str().get_char(0);
        c == '.'
    }
}

/// An exact copy of an entry.
fn clone_entry(e: &Entry) -> (r: Entry)
    ensures
        r == *e,
{
    let modified = match &e.modified {
        Some(m) => Some(m.clone()),
        None => None,
    };
    Entry { name: e.name.clone(), is_directory: e.is_directory, size_bytes: e.size_bytes, modified }
}

/// The entries that stay in the listing: all of them under the `all`
/// switch, otherwise those whose name does not begin with a dot, in order.
pub fn filter_entries(entries: &Vec<Entry>, all: bool) -> (kept: Vec<Entry>)
    ensures
        kept@ == entries@.filter(keep_pred(all)),
{
    let mut kept: Vec<Entry> = Vec::new();
    let mut i: usize = 0;
    proof {
        reveal(Seq::filter);
        assert(entries@.take(0) =~= Seq::<Entry>::empty());
        assert(kept@ =~= entries@.take(0).filter(keep_pred(all)));
    }
    while i < entries.len()
        invariant
            i <= entries@.len(),
            kept@ == entries@.take(i as int).filter(keep_pred(all)),
        decreases entries@.len() - i,
    {
        let keep = if all {
            true
        } else {
            !name_is_hidden(&entries[i].name)
        };
        if keep {
            kept.push(clone_entry(&entries[i]));
        }
        i = i + 1;
        proof {
            reveal(Seq::filter);
            let t = entries@.take(i as int);
            assert(t.drop_last() =~= entries@.take(i - 1));
            assert(t.last() == entries@[i - 1]);
            assert(keep == keep_pred(all)(entries@[i - 1]));
            assert(kept@ =~= t.filter(keep_pred(all)));
        }
    }
    proof {
        assert(entries@.take(entries@.len() as int) =~= entries@);
    }
    kept
}

/// The views of the entries' names.
pub open spec fn entry_name_views(entries: Seq<Entry>) -> Seq<Seq<char>> {
    entries.map_values(|e: Entry| e.name@)
}

/// The entries' names, in order.
pub fn entry_names(entries: &Vec<Entry>) -> (names: Vec<String>)
    ensures
        views_of(names@) == entry_name_views(entries@),
{
    let mut names: Vec<String> = Vec::new();
    let mut i: usize = 0;
    while i < entries.len()
        invariant
            i <= entries@.len(),
            names@.len() == i,
            forall|k: int| 0 <= k < i ==> (#[trigger] names@[k])@ == entries@[k].name@,
        decreases entries@.len() - i,
    {
        names.push(entries[i].name.clone());
        i = i + 1;
    }
    proof {
        assert(views_of(names@) =~= entry_name_views(entries@));
    }
    names
}

} // verus!
