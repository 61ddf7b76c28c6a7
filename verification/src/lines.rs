//! Splitting patch text into lines, the way the patch is scanned: a line
//! ends at a newline or at a carriage return followed by a newline, and a
//! final line ending is optional.

use vstd::prelude::*;
use vstd::string::*;

verus! {

/// Position of the first newline at or after `i`, or the text's length if
/// there is none.
pub open spec fn find_newline(s: Seq<char>, i: nat) -> nat
    decreases s.len() - i,
{
    if i >= s.len() {
        s.len()
    } else if s[i as int] == '\n' {
        i
    } else {
        find_newline(s, i + 1)
    }
}

/// One trailing carriage return is dropped from a line that ended at a
/// newline.
pub open spec fn strip_cr(l: Seq<char>) -> Seq<char> {
    if l.len() > 0 && l.last() == '\r' {
        l.drop_last()
    } else {
        l
    }
}

/// The lines of a text: pieces between newlines, each stripped of one
/// trailing carriage return; a piece after the last newline counts only if
/// it is non-empty, and is not stripped.
pub open spec fn lines_of(s: Seq<char>) -> Seq<Seq<char>>
    decreases s.len(),
{
    if s.len() == 0 {
        Seq::empty()
    } else {
        let i = find_newline(s, 0);
        if i >= s.len() {
            seq![s]
        } else {
            seq![strip_cr(s.subrange(0, i as int))] + lines_of(
                s.subrange(i as int + 1, s.len() as int),
            )
        }
    }
}

proof fn lemma_find_newline_at(s: Seq<char>, i: nat, j: nat)
    requires
        i <= j <= s.len(),
        forall|k: int| i <= k < j ==> s[k] != '\n',
        j == s.len() || s[j as int] == '\n',
    ensures
        find_newline(s, i) == j,
    decreases j - i,
{
    if i < j {
        lemma_find_newline_at(s, i + 1, j);
    }
}

/// Unfolds `lines_of` at a text whose first newline stands at `j`.
proof fn lemma_lines_of_split(s: Seq<char>, j: nat)
    requires
        j < s.len(),
        s[j as int] == '\n',
        forall|k: int| 0 <= k < j ==> s[k] != '\n',
    ensures
        lines_of(s) == seq![strip_cr(s.subrange(0, j as int))] + lines_of(
            s.subrange(j as int + 1, s.len() as int),
        ),
{
    lemma_find_newline_at(s, 0, j);
}

/// A text without newlines is a single line (or none, when empty).
proof fn lemma_lines_of_whole(s: Seq<char>)
    requires
        forall|k: int| 0 <= k < s.len() ==> s[k] != '\n',
    ensures
        s.len() == 0 ==> lines_of(s) == Seq::<Seq<char>>::empty(),
        s.len() > 0 ==> lines_of(s) == seq![s],
{
    if s.len() > 0 {
        lemma_find_newline_at(s, 0, s.len());
    }
}

/// The lines of a text, in order.
pub fn split_lines(text: &str) -> (lines: Vec<String>)
    ensures
        lines.deep_view() == lines_of(text@),
{
    let n = text.unicode_len();
    let mut lines: Vec<String> = Vec::new();
    let mut start: usize = 0;
    let mut i: usize = 0;
    proof {
        assert(lines.deep_view() =~= Seq::<Seq<char>>::empty());
        assert(text@.subrange(0, n as int) =~= text@);
    }
    while i < n
        invariant
            n == text@.len(),
            start <= i <= n,
            forall|k: int| start <= k < i ==> text@[k] != '\n',
            lines_of(text@) == lines.deep_view() + lines_of(
                text@.subrange(start as int, n as int),
            ),
        decreases n - i,
    {
        let c = text.get_char(i);
        if c == '\n' {
            let end = if i > start && text.get_char(i - 1) == '\r' {
                i - 1
            } else {
                i
            };
            let piece = text.substring_char(start, end);
            let ghost pre = lines.deep_view();
            lines.push(piece.to_owned());
            proof {
                let rest = text@.subrange(start as int, n as int);
                lemma_lines_of_split(rest, (i - start) as nat);
                assert(rest.subrange(0, i - start) =~= text@.subrange(start as int, i as int));
                assert(strip_cr(text@.subrange(start as int, i as int)) =~= text@.subrange(
                    start as int,
                    end as int,
                ));
                assert(rest.subrange(i - start + 1, rest.len() as int) =~= text@.subrange(
                    i as int + 1,
                    n as int,
                ));
                assert(lines.deep_view() =~= pre.push(text@.subrange(start as int, end as int)));
                assert(lines_of(text@) =~= lines.deep_view() + lines_of(
                    text@.subrange(i as int + 1, n as int),
                ));
            }
            start = i + 1;
        }
        i = i + 1;
    }
    let ghost tail = text@.subrange(start as int, n as int);
    if start < n {
        let piece = text.substring_char(start, n);
        let ghost pre = lines.deep_view();
        lines.push(piece.to_owned());
        proof {
            lemma_lines_of_whole(tail);
            assert(lines.deep_view() =~= pre.push(tail));
            assert(lines.deep_view() =~= pre + lines_of(tail));
        }
    } else {
        proof {
            lemma_lines_of_whole(tail);
            assert(lines.deep_view() =~= lines.deep_view() + lines_of(tail));
        }
    }
    lines
}

} // verus!
