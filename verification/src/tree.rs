//! The branch-drawn tree layout.
//!
//! The last sibling is the entry at index `n - 1` of `n` siblings, and it
//! alone gets the corner connector. Testing the index against the count
//! itself would never hold of a zero-based index and would leave every
//! line with the branch connector; the contract here rules that out.

use vstd::prelude::*;
use vstd::string::*;
use crate::text::{join_lines, join_with_newlines, views_of};

verus! {

/// The connector put before the entry at `i` of `n` siblings: the corner
/// glyph marks the last sibling (`i == n - 1`) and only it; every other
/// sibling gets the branch glyph.
pub open spec fn tree_connector(i: int, n: int) -> Seq<char> {
    if i == n - 1 {
        "└─ "@
    } else {
        "├─ "@
    }
}

/// The rendered lines: each name behind its connector.
pub open spec fn tree_lines(names: Seq<Seq<char>>) -> Seq<Seq<char>> {
    Seq::new(names.len(), |i: int| tree_connector(i, names.len() as int) + names[i])
}

/// The tree layout: the connected lines joined by newlines.
pub open spec fn tree_str(names: Seq<Seq<char>>) -> Seq<char> {
    join_lines(tree_lines(names))
}

/// Renders a flat listing with branch connectors.
pub fn format_as_tree(names: &Vec<String>) -> (out: String)
    ensures
        out@ == tree_str(views_of(names@)),
{
    let n = names.len();
    let mut lines: Vec<String> = Vec::new();
    let mut i: usize = 0;
    while i < n
        invariant
            i <= n,
            n == names@.len(),
            lines@.len() == i,
            forall|k: int|
                0 <= k < i ==> (#[trigger] lines@[k])@ == tree_connector(k, n as int)
                    + names@[k]@,
        decreases n - i,
    {
        let mut line = if i + 1 == n {
            String::from_str("└─ ")
        } else {
            String::from_str("├─ ")
        };
        line.append(names[i].as_str());
        proof {
            assert(line@ == tree_connector(i as int, n as int) + names@[i as int]@);
        }
        lines.push(line);
        i = i + 1;
    }
    proof {
        assert(views_of(lines@) =~= tree_lines(views_of(names@)));
    }
    join_with_newlines(&lines)
}

/// Exactly the last sibling's line begins with the corner connector;
/// every other line begins with the branch connector.
pub proof fn lemma_tree_last_marked(names: Seq<Seq<char>>, i: int)
    requires
        0 <= i < names.len(),
    ensures
        tree_lines(names)[i].take(3) == "└─ "@ <==> i == names.len() - 1,
        tree_lines(names)[i].take(3) == "├─ "@ <==> i != names.len() - 1,
{
    reveal_strlit("└─ ");
    reveal_strlit("├─ ");
    assert(("└─ "@ + names[i]).take(3) =~= "└─ "@);
    assert(("├─ "@ + names[i]).take(3) =~= "├─ "@);
    assert("└─ "@[0] != "├─ "@[0]);
}

} // verus!
