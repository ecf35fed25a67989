//! Shared text-building blocks: padding, gutters, and newline joining.

use vstd::prelude::*;
use vstd::string::*;

verus! {

/// A single newline, as a sequence of characters.
pub open spec fn nl() -> Seq<char> {
    seq!['\n']
}

/// `n` spaces.
pub open spec fn spaces(n: nat) -> Seq<char> {
    Seq::new(n, |i: int| ' ')
}

/// The fixed two-space gutter between columns.
pub open spec fn gutter() -> Seq<char> {
    seq![' ', ' ']
}

/// The character sequences of a sequence of strings.
pub open spec fn views_of(names: Seq<String>) -> Seq<Seq<char>> {
    names.map_values(|s: String| s@)
}

/// `s` padded on the right with spaces up to width `w`;
/// unchanged when it is already at least that wide.
pub open spec fn pad_right(s: Seq<char>, w: nat) -> Seq<char> {
    if s.len() >= w {
        s
    } else {
        s + spaces((w - s.len()) as nat)
    }
}

/// Lines joined by single newlines, with no trailing newline.
pub open spec fn join_lines(lines: Seq<Seq<char>>) -> Seq<char>
    decreases lines.len(),
{
    if lines.len() == 0 {
        Seq::empty()
    } else if lines.len() == 1 {
        lines[0]
    } else {
        lines[0] + nl() + join_lines(lines.drop_first())
    }
}

/// The length of the longest text among `cells`; zero when there are none.
pub open spec fn max_len(cells: Seq<Seq<char>>) -> nat
    decreases cells.len(),
{
    if cells.len() == 0 {
        0
    } else {
        let m = max_len(cells.drop_last());
        if cells.last().len() > m {
            cells.last().len()
        } else {
            m
        }
    }
}

/// No text among `cells` is longer than `max_len(cells)`.
pub proof fn lemma_max_len_ge(cells: Seq<Seq<char>>, i: int)
    requires
        0 <= i < cells.len(),
    ensures
        cells[i].len() <= max_len(cells),
    decreases cells.len(),
{
    if i < cells.len() - 1 {
        lemma_max_len_ge(cells.drop_last(), i);
    }
}

/// Appending one character is the same as concatenating a singleton.
pub proof fn lemma_append_single(s: Seq<char>, c: char)
    ensures
        s + seq![c] == s.push(c),
{
    assert(s + seq![c] =~= s.push(c));
}

/// Joining one more line appends a newline and that line.
pub proof fn lemma_join_lines_push(lines: Seq<Seq<char>>, x: Seq<char>)
    ensures
        join_lines(lines.push(x)) == if lines.len() == 0 {
            x
        } else {
            (join_lines(lines) + nl() + x)
        },
    decreases lines.len(),
{
    if lines.len() == 0 {
        assert(lines.push(x) =~= seq![x]);
    } else if lines.len() == 1 {
        assert(lines.push(x).drop_first() =~= seq![x]);
        assert(lines.push(x)[0] == lines[0]);
        assert(join_lines(seq![x]) == x);
        assert(join_lines(lines.push(x)) == lines.push(x)[0] + nl() + join_lines(
            lines.push(x).drop_first(),
        ));
    } else {
        assert(lines.push(x).drop_first() =~= lines.drop_first().push(x));
        assert(lines.push(x)[0] == lines[0]);
        lemma_join_lines_push(lines.drop_first(), x);
        assert(lines[0] + nl() + (join_lines(lines.drop_first()) + nl() + x) =~= (lines[0] + nl()
            + join_lines(lines.drop_first())) + nl() + x);
    }
}

/// The padded text is exactly as wide as asked for whenever the width
/// is large enough, and keeps the given text as a prefix.
pub proof fn lemma_pad_right_len(s: Seq<char>, w: nat)
    ensures
        s.len() <= w ==> pad_right(s, w).len() == w,
        pad_right(s, w).len() >= s.len(),
        pad_right(s, w).take(s.len() as int) == s,
{
    assert(pad_right(s, w).take(s.len() as int) =~= s);
}

/// `n` spaces, as a string.
pub fn make_spaces(n: usize) -> (out: String)
    ensures
        out@ == spaces(n as nat),
{
    let mut out = String::new();
    proof {
        assert(out@ =~= spaces(0));
    }
    let mut k: usize = 0;
    while k < n
        invariant
            k <= n,
            out@ == spaces(k as nat),
        decreases n - k,
    {
        out.append(" ");
        k = k + 1;
        proof {
            reveal_strlit(" ");
            assert(out@ =~= spaces(k as nat));
        }
    }
    out
}

/// `s` padded on the right with spaces to `width` columns.
pub fn pad_to_width(s: &String, width: usize) -> (out: String)
    ensures
        out@ == pad_right(s@, width as nat),
{
    let len = s.as_str().unicode_len();
    let mut out = s.clone();
    if len < width {
        let mut k: usize = len;
        proof {
            assert(out@ =~= s@ + spaces(0));
        }
        while k < width
            invariant
                len <= k <= width,
                s@.len() == len,
                out@ == s@ + spaces((k - len) as nat),
            decreases width - k,
        {
            out.append(" ");
            k = k + 1;
            proof {
                reveal_strlit(" ");
                assert(out@ =~= s@ + spaces((k - len) as nat));
            }
        }
    }
    out
}

/// The given lines joined by single newlines, with no trailing newline.
pub fn join_with_newlines(lines: &Vec<String>) -> (out: String)
    ensures
        out@ == join_lines(views_of(lines@)),
{
    let mut out = String::new();
    let mut i: usize = 0;
    proof {
        assert(views_of(lines@).take(0) =~= Seq::<Seq<char>>::empty());
        assert(out@ =~= join_lines(views_of(lines@).take(0)));
    }
    while i < lines.len()
        invariant
            i <= lines.len(),
            out@ == join_lines(views_of(lines@).take(i as int)),
        decreases lines.len() - i,
    {
        if i > 0 {
            out.append("\n");
        }
        out.append(lines[i].as_str());
        proof {
            reveal_strlit("\n");
            let vs = views_of(lines@);
            assert(vs[i as int] == lines@[i as int]@);
            assert(vs.take(i + 1) =~= vs.take(i as int).push(vs[i as int]));
            lemma_join_lines_push(vs.take(i as int), vs[i as int]);
            if i == 0 {
                assert(out@ =~= vs[0]);
            } else {
                assert("\n"@ =~= nl());
                assert(out@ =~= join_lines(vs.take(i as int)) + nl() + vs[i as int]);
            }
        }
        i = i + 1;
    }
    proof {
        assert(views_of(lines@).take(lines@.len() as int) =~= views_of(lines@));
    }
    out
}

} // verus!
