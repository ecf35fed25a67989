//! The plain one-name-per-line layout.

use vstd::prelude::*;
use crate::text::{join_lines, join_with_newlines, nl, views_of};

verus! {

/// The list layout: the names joined by single newlines,
/// with no leading or trailing blank line.
pub open spec fn list_str(names: Seq<Seq<char>>) -> Seq<char> {
    join_lines(names)
}

/// Renders one name per line.
pub fn format_as_list(names: &Vec<String>) -> (out: String)
    ensures
        out@ == list_str(views_of(names@)),
{
    join_with_newlines(names)
}

/// `s` cut at every newline. Splitting the empty text gives one empty line,
/// so that every text of `k` newlines splits into exactly `k + 1` lines.
pub open spec fn split_lines(s: Seq<char>) -> Seq<Seq<char>>
    decreases s.len(),
{
    if s.len() == 0 {
        seq![Seq::<char>::empty()]
    } else if s[0] == '\n' {
        seq![Seq::<char>::empty()] + split_lines(s.drop_first())
    } else {
        let rest = split_lines(s.drop_first());
        seq![seq![s[0]] + rest[0]] + rest.drop_first()
    }
}

/// Holds when no character of `s` is a newline.
pub open spec fn newline_free(s: Seq<char>) -> bool {
    forall|k: int| 0 <= k < s.len() ==> s[k] != '\n'
}

/// Splitting a newline-free text gives that text back as the only line.
proof fn lemma_split_no_newline(s: Seq<char>)
    requires
        newline_free(s),
    ensures
        split_lines(s) == seq![s],
    decreases s.len(),
{
    if s.len() == 0 {
        assert(split_lines(s) =~~= seq![s]);
    } else {
        lemma_split_no_newline(s.drop_first());
        let rest = split_lines(s.drop_first());
        assert(rest[0] == s.drop_first());
        assert(seq![s[0]] + s.drop_first() =~= s);
        assert(rest.drop_first() =~= Seq::<Seq<char>>::empty());
        assert(split_lines(s) =~~= seq![s]);
    }
}

/// Splitting at the first newline peels off the newline-free prefix.
proof fn lemma_split_at_first_newline(a: Seq<char>, t: Seq<char>)
    requires
        newline_free(a),
    ensures
        split_lines(a + nl() + t) == seq![a] + split_lines(t),
    decreases a.len(),
{
    let s = a + nl() + t;
    if a.len() == 0 {
        assert(s[0] == '\n');
        assert(s.drop_first() =~= t);
        assert(split_lines(s) =~~= seq![a] + split_lines(t));
    } else {
        assert(s[0] == a[0]);
        assert(s[0] != '\n');
        assert(s.drop_first() =~= a.drop_first() + nl() + t);
        lemma_split_at_first_newline(a.drop_first(), t);
        let rest = split_lines(s.drop_first());
        assert(rest == seq![a.drop_first()] + split_lines(t));
        assert(rest[0] == a.drop_first());
        assert(seq![s[0]] + rest[0] =~= a);
        assert(rest.drop_first() =~= split_lines(t));
        assert(split_lines(s) =~~= seq![a] + split_lines(t));
    }
}

/// The list layout round-trips: splitting the rendered text on newlines
/// gives back exactly the names that were rendered, for every non-empty
/// sequence of newline-free names.
pub proof fn lemma_list_round_trip(names: Seq<Seq<char>>)
    requires
        names.len() > 0,
        forall|i: int| 0 <= i < names.len() ==> newline_free(#[trigger] names[i]),
    ensures
        split_lines(list_str(names)) == names,
    decreases names.len(),
{
    if names.len() == 1 {
        lemma_split_no_newline(names[0]);
        assert(split_lines(list_str(names)) =~~= names);
    } else {
        assert(list_str(names) == names[0] + nl() + join_lines(names.drop_first()));
        lemma_split_at_first_newline(names[0], join_lines(names.drop_first()));
        lemma_list_round_trip(names.drop_first());
        assert(seq![names[0]] + names.drop_first() =~= names);
    }
}

} // verus!
