//! The commit splitter: scans the patch line by line, closing the chunk in
//! progress at each "From " boundary line, and appending a line only while
//! the chunk so far measures under the token ceiling.

use vstd::prelude::*;
use vstd::string::*;

use crate::lines::{lines_of, split_lines};
use crate::tokenizer::{token_count, Tokenizer};

verus! {

/// A single newline, the separator put back after every appended line.
pub open spec fn nl() -> Seq<char> {
    seq!['\n']
}

/// A line that opens a new commit in the patch: it starts with "From ".
pub open spec fn is_boundary(l: Seq<char>) -> bool {
    l.len() >= 5 && l[0] == 'F' && l[1] == 'r' && l[2] == 'o' && l[3] == 'm' && l[4] == ' '
}

/// Whether this line starts with the commit marker "From ".
pub fn line_is_boundary(line: &str) -> (b: bool)
    ensures
        b == is_boundary(line@),
{
    let n = line.unicode_len();
    n >= 5 && line.get_char(0) == 'F' && line.get_char(1) == 'r' && line.get_char(2) == 'o'
        && line.get_char(3) == 'm' && line.get_char(4) == ' '
}

/// A boundary line closes a non-empty chunk in progress.
pub open spec fn step_boundary(cur: Seq<char>, out: Seq<Seq<char>>, l: Seq<char>) -> (
    Seq<char>,
    Seq<Seq<char>>,
) {
    if is_boundary(l) && cur.len() > 0 {
        (Seq::empty(), out.push(cur))
    } else {
        (cur, out)
    }
}

/// A line joins the chunk in progress only while that chunk measures under
/// the ceiling; otherwise it is dropped.
pub open spec fn step_append(cur: Seq<char>, l: Seq<char>, ceiling: int) -> Seq<char> {
    if token_count(cur) < ceiling {
        cur + l + nl()
    } else {
        cur
    }
}

/// What one scanned line does to the chunk in progress and the chunks
/// already closed.
pub open spec fn split_step(cur: Seq<char>, out: Seq<Seq<char>>, l: Seq<char>, ceiling: int) -> (
    Seq<char>,
    Seq<Seq<char>>,
) {
    let st = step_boundary(cur, out, l);
    (step_append(st.0, l, ceiling), st.1)
}

/// The scan over all lines.
pub open spec fn split_fold(
    ls: Seq<Seq<char>>,
    cur: Seq<char>,
    out: Seq<Seq<char>>,
    ceiling: int,
) -> (Seq<char>, Seq<Seq<char>>)
    decreases ls.len(),
{
    if ls.len() == 0 {
        (cur, out)
    } else {
        let st = split_step(cur, out, ls.first(), ceiling);
        split_fold(ls.drop_first(), st.0, st.1, ceiling)
    }
}

/// After the scan, a non-empty chunk in progress is closed as the last
/// chunk.
pub open spec fn close(st: (Seq<char>, Seq<Seq<char>>)) -> Seq<Seq<char>> {
    if st.0.len() > 0 {
        st.1.push(st.0)
    } else {
        st.1
    }
}

/// The chunks the splitter returns for a patch text and a token ceiling.
pub open spec fn split_commits(text: Seq<char>, ceiling: int) -> Seq<Seq<char>> {
    close(split_fold(lines_of(text), Seq::empty(), Seq::empty(), ceiling))
}

/// Splits the patch into per-commit chunks, each grown only while it
/// measures under `ceiling` tokens.
pub fn split_patch(tok: &Tokenizer, patch: &str, ceiling: usize) -> (chunks: Vec<String>)
    ensures
        chunks.deep_view() == split_commits(patch@, ceiling as int),
{
    let lines = split_lines(patch);
    let mut cur = String::new();
    let mut out: Vec<String> = Vec::new();
    let mut i: usize = 0;
    proof {
        assert(out.deep_view() =~= Seq::<Seq<char>>::empty());
        assert(lines.deep_view().skip(0) =~= lines_of(patch@));
    }
    while i < lines.len()
        invariant
            i <= lines.len(),
            lines.deep_view() == lines_of(patch@),
            split_fold(lines_of(patch@), Seq::empty(), Seq::empty(), ceiling as int)
                == split_fold(lines.deep_view().skip(i as int), cur@, out.deep_view(), ceiling as int),
        decreases lines.len() - i,
    {
        let ghost pre_cur = cur@;
        let ghost pre_out = out.deep_view();
        let ghost l = lines.deep_view()[i as int];
        if line_is_boundary(lines[i].as_str()) && !cur.as_str().is_empty() {
            out.push(cur);
            cur = String::new();
            proof {
                assert(out.deep_view() =~= pre_out.push(pre_cur));
            }
        }
        let ghost mid_cur = cur@;
        let tokens = tok.count_tokens(cur.as_str());
        if tokens < ceiling {
            cur.append(lines[i].as_str());
            cur.append("\n");
            proof {
                reveal_strlit("\n");
                assert(cur@ =~= mid_cur + l + nl());
            }
        }
        proof {
            assert((cur@, out.deep_view()) == split_step(pre_cur, pre_out, l, ceiling as int));
            assert(lines.deep_view().skip(i as int).first() == l);
            assert(lines.deep_view().skip(i as int).drop_first() =~= lines.deep_view().skip(
                i as int + 1,
            ));
        }
        i = i + 1;
    }
    proof {
        assert(lines.deep_view().skip(i as int) =~= Seq::<Seq<char>>::empty());
    }
    let ghost last = cur@;
    let ghost pre_out = out.deep_view();
    if !cur.as_str().is_empty() {
        out.push(cur);
        proof {
            assert(out.deep_view() =~= pre_out.push(last));
        }
    }
    out
}

/// Splitting is a function of the text and the ceiling alone: two runs on
/// the same input yield the same chunk sequence.
pub proof fn lemma_split_deterministic(
    a: Seq<Seq<char>>,
    b: Seq<Seq<char>>,
    text: Seq<char>,
    ceiling: int,
)
    requires
        a == split_commits(text, ceiling),
        b == split_commits(text, ceiling),
    ensures
        a == b,
{
}

proof fn lemma_fold_nonempty(ls: Seq<Seq<char>>, cur: Seq<char>, out: Seq<Seq<char>>, ceiling: int)
    requires
        forall|j: int| 0 <= j < out.len() ==> #[trigger] out[j].len() > 0,
    ensures
        forall|j: int|
            0 <= j < split_fold(ls, cur, out, ceiling).1.len() ==> #[trigger] split_fold(
                ls,
                cur,
                out,
                ceiling,
            ).1[j].len() > 0,
    decreases ls.len(),
{
    if ls.len() > 0 {
        let st = split_step(cur, out, ls.first(), ceiling);
        lemma_fold_nonempty(ls.drop_first(), st.0, st.1, ceiling);
        assert(split_fold(ls, cur, out, ceiling) == split_fold(
            ls.drop_first(),
            st.0,
            st.1,
            ceiling,
        ));
    }
}

/// Every chunk the splitter returns is non-empty.
pub proof fn lemma_chunks_nonempty(text: Seq<char>, ceiling: int, i: int)
    requires
        0 <= i < split_commits(text, ceiling).len(),
    ensures
        split_commits(text, ceiling)[i].len() > 0,
{
    lemma_fold_nonempty(lines_of(text), Seq::empty(), Seq::empty(), ceiling);
}

/// A chunk grown line by line, each line appended only while the chunk so
/// far measured under the ceiling.
pub open spec fn chunk_within_ceiling(c: Seq<char>, ceiling: int) -> bool
    decreases c.len(),
{
    ||| c.len() == 0
    ||| exists|p: Seq<char>, l: Seq<char>|
        {
            &&& c == #[trigger] (p + l + nl())
            &&& p.len() < c.len()
            &&& token_count(p) < ceiling
            &&& chunk_within_ceiling(p, ceiling)
        }
}

proof fn lemma_fold_ceiling(ls: Seq<Seq<char>>, cur: Seq<char>, out: Seq<Seq<char>>, ceiling: int)
    requires
        chunk_within_ceiling(cur, ceiling),
        forall|j: int| 0 <= j < out.len() ==> chunk_within_ceiling(#[trigger] out[j], ceiling),
    ensures
        chunk_within_ceiling(split_fold(ls, cur, out, ceiling).0, ceiling),
        forall|j: int|
            0 <= j < split_fold(ls, cur, out, ceiling).1.len() ==> chunk_within_ceiling(
                #[trigger] split_fold(ls, cur, out, ceiling).1[j],
                ceiling,
            ),
    decreases ls.len(),
{
    if ls.len() > 0 {
        let l = ls.first();
        let st1 = step_boundary(cur, out, l);
        let c2 = step_append(st1.0, l, ceiling);
        if token_count(st1.0) < ceiling {
            assert(chunk_within_ceiling(Seq::<char>::empty(), ceiling));
            assert(chunk_within_ceiling(st1.0, ceiling));
            assert(c2 == st1.0 + l + nl());
            assert(c2.len() == st1.0.len() + l.len() + 1);
            assert(chunk_within_ceiling(c2, ceiling));
        }
        lemma_fold_ceiling(ls.drop_first(), c2, st1.1, ceiling);
    }
}

/// Law: every returned chunk was grown line by line, and each line joined
/// it only while the chunk so far measured strictly under the ceiling.
pub proof fn lemma_split_token_ceiling(text: Seq<char>, ceiling: int, i: int)
    requires
        0 <= i < split_commits(text, ceiling).len(),
    ensures
        chunk_within_ceiling(split_commits(text, ceiling)[i], ceiling),
{
    lemma_fold_ceiling(lines_of(text), Seq::empty(), Seq::empty(), ceiling);
}

/// The lines of a chunk put back together, each with its newline.
pub open spec fn joined(ls: Seq<Seq<char>>) -> Seq<char>
    decreases ls.len(),
{
    if ls.len() == 0 {
        Seq::empty()
    } else {
        joined(ls.drop_last()) + ls.last() + nl()
    }
}

proof fn lemma_fold_stuck(ls: Seq<Seq<char>>, cur: Seq<char>, out: Seq<Seq<char>>, ceiling: int)
    requires
        token_count(cur) >= ceiling,
        forall|j: int| 0 <= j < ls.len() ==> !is_boundary(#[trigger] ls[j]),
    ensures
        split_fold(ls, cur, out, ceiling) == (cur, out),
    decreases ls.len(),
{
    if ls.len() > 0 {
        assert(!is_boundary(ls.first()));
        lemma_fold_stuck(ls.drop_first(), cur, out, ceiling);
    }
}

proof fn lemma_fold_no_boundary(ls: Seq<Seq<char>>, pref: Seq<Seq<char>>, out: Seq<Seq<char>>, ceiling: int)
    requires
        forall|j: int| 0 <= j < ls.len() ==> !is_boundary(#[trigger] ls[j]),
    ensures
        exists|m: int|
            0 <= m <= ls.len() && split_fold(ls, joined(pref), out, ceiling) == (
                joined(pref + #[trigger] ls.take(m)),
                out,
            ),
    decreases ls.len(),
{
    if ls.len() == 0 {
        assert(pref + ls.take(0) =~= pref);
        assert(split_fold(ls, joined(pref), out, ceiling) == (joined(pref + ls.take(0)), out));
    } else {
        let l = ls.first();
        assert(!is_boundary(l));
        if token_count(joined(pref)) < ceiling {
            let c2 = joined(pref) + l + nl();
            assert(pref.push(l).drop_last() =~= pref);
            assert(c2 == joined(pref.push(l)));
            lemma_fold_no_boundary(ls.drop_first(), pref.push(l), out, ceiling);
            let m0 = choose|m: int|
                0 <= m <= ls.drop_first().len() && split_fold(
                    ls.drop_first(),
                    joined(pref.push(l)),
                    out,
                    ceiling,
                ) == (joined(pref.push(l) + #[trigger] ls.drop_first().take(m)), out);
            assert(pref + ls.take(m0 + 1) =~= pref.push(l) + ls.drop_first().take(m0));
            assert(split_fold(ls, joined(pref), out, ceiling) == (
                joined(pref + ls.take(m0 + 1)),
                out,
            ));
        } else {
            lemma_fold_stuck(ls, joined(pref), out, ceiling);
            assert(pref + ls.take(0) =~= pref);
            assert(split_fold(ls, joined(pref), out, ceiling) == (joined(pref + ls.take(0)), out));
        }
    }
}

proof fn lemma_fold_cur_grows(ls: Seq<Seq<char>>, cur: Seq<char>, out: Seq<Seq<char>>, ceiling: int)
    requires
        forall|j: int| 0 <= j < ls.len() ==> !is_boundary(#[trigger] ls[j]),
    ensures
        split_fold(ls, cur, out, ceiling).0.len() >= cur.len(),
    decreases ls.len(),
{
    if ls.len() > 0 {
        assert(!is_boundary(ls.first()));
        let st = split_step(cur, out, ls.first(), ceiling);
        lemma_fold_cur_grows(ls.drop_first(), st.0, st.1, ceiling);
    }
}

/// Law: a patch whose lines hold no "From " boundary, and whose text is
/// non-empty, splits into exactly one chunk: its accepted lines put back
/// together, a prefix of all its lines.
pub proof fn lemma_split_single_chunk(text: Seq<char>, ceiling: int)
    requires
        text.len() > 0,
        ceiling > 0,
        forall|j: int| 0 <= j < lines_of(text).len() ==> !is_boundary(#[trigger] lines_of(text)[j]),
    ensures
        split_commits(text, ceiling).len() == 1,
        exists|m: int|
            0 <= m <= lines_of(text).len() && split_commits(text, ceiling)[0] == joined(
                #[trigger] lines_of(text).take(m),
            ),
{
    let ls = lines_of(text);
    assert(ls.len() > 0);
    let empty_pref = Seq::<Seq<char>>::empty();
    assert(joined(empty_pref) == Seq::<char>::empty());
    lemma_fold_no_boundary(ls, empty_pref, Seq::empty(), ceiling);
    let m0 = choose|m: int|
        0 <= m <= ls.len() && split_fold(ls, joined(empty_pref), Seq::empty(), ceiling) == (
            joined(empty_pref + #[trigger] ls.take(m)),
            Seq::<Seq<char>>::empty(),
        );
    // The first line is always appended: an empty chunk measures zero.
    let l = ls.first();
    assert(!is_boundary(l));
    let c1 = Seq::<char>::empty() + l + nl();
    assert(split_fold(ls, Seq::empty(), Seq::empty(), ceiling) == split_fold(
        ls.drop_first(),
        c1,
        Seq::empty(),
        ceiling,
    ));
    assert(forall|j: int|
        0 <= j < ls.drop_first().len() ==> !is_boundary(#[trigger] ls.drop_first()[j]));
    lemma_fold_cur_grows(ls.drop_first(), c1, Seq::empty(), ceiling);
    let st = split_fold(ls, Seq::empty(), Seq::empty(), ceiling);
    assert(st.0.len() >= c1.len() >= 1);
    assert(empty_pref + ls.take(m0) =~= ls.take(m0));
    assert(split_commits(text, ceiling) == seq![joined(ls.take(m0))]);
}

proof fn lemma_fold_all_accepted(
    ls: Seq<Seq<char>>,
    pref: Seq<Seq<char>>,
    out: Seq<Seq<char>>,
    ceiling: int,
)
    requires
        forall|j: int| 0 <= j < ls.len() ==> !is_boundary(#[trigger] ls[j]),
        fold_no_drop(ls, joined(pref), ceiling),
    ensures
        split_fold(ls, joined(pref), out, ceiling) == (joined(pref + ls), out),
    decreases ls.len(),
{
    if ls.len() == 0 {
        assert(pref + ls =~= pref);
    } else {
        let l = ls.first();
        assert(!is_boundary(l));
        assert(pref.push(l).drop_last() =~= pref);
        assert(joined(pref) + l + nl() == joined(pref.push(l)));
        lemma_fold_all_accepted(ls.drop_first(), pref.push(l), out, ceiling);
        assert(pref.push(l) + ls.drop_first() =~= pref + ls);
    }
}

/// Law: with no "From " boundary line, non-empty text, and every line
/// accepted, the one chunk is the whole input put back together line by
/// line.
pub proof fn lemma_split_single_chunk_whole(text: Seq<char>, ceiling: int)
    requires
        text.len() > 0,
        forall|j: int| 0 <= j < lines_of(text).len() ==> !is_boundary(#[trigger] lines_of(text)[j]),
        fold_no_drop(lines_of(text), Seq::empty(), ceiling),
    ensures
        split_commits(text, ceiling) == seq![joined(lines_of(text))],
{
    let ls = lines_of(text);
    assert(ls.len() > 0);
    let empty_pref = Seq::<Seq<char>>::empty();
    assert(joined(empty_pref) == Seq::<char>::empty());
    lemma_fold_all_accepted(ls, empty_pref, Seq::empty(), ceiling);
    assert(empty_pref + ls =~= ls);
    assert(joined(ls).len() > 0);
    assert(split_commits(text, ceiling) =~= seq![joined(ls)]);
}

/// How many "From " boundary lines stand among the scanned lines.
pub open spec fn boundary_count(ls: Seq<Seq<char>>) -> int
    decreases ls.len(),
{
    if ls.len() == 0 {
        0
    } else {
        (if is_boundary(ls.first()) {
            1int
        } else {
            0int
        }) + boundary_count(ls.drop_first())
    }
}

/// Whether the scan accepts every line: at each line, the chunk in progress
/// (after any boundary close) still measures under the ceiling.
pub open spec fn fold_no_drop(ls: Seq<Seq<char>>, cur: Seq<char>, ceiling: int) -> bool
    decreases ls.len(),
{
    if ls.len() == 0 {
        true
    } else {
        let st0 = if is_boundary(ls.first()) && cur.len() > 0 {
            Seq::<char>::empty()
        } else {
            cur
        };
        &&& token_count(st0) < ceiling
        &&& fold_no_drop(ls.drop_first(), st0 + ls.first() + nl(), ceiling)
    }
}

spec fn expected_chunks(ls: Seq<Seq<char>>, cur_nonempty: bool) -> int
    decreases ls.len(),
{
    if ls.len() == 0 {
        if cur_nonempty {
            1int
        } else {
            0int
        }
    } else if is_boundary(ls.first()) {
        (if cur_nonempty {
            1int
        } else {
            0int
        }) + expected_chunks(ls.drop_first(), true)
    } else {
        expected_chunks(ls.drop_first(), true)
    }
}

proof fn lemma_fold_expected(ls: Seq<Seq<char>>, cur: Seq<char>, out: Seq<Seq<char>>, ceiling: int)
    requires
        fold_no_drop(ls, cur, ceiling),
    ensures
        close(split_fold(ls, cur, out, ceiling)).len() == out.len() + expected_chunks(
            ls,
            cur.len() > 0,
        ),
    decreases ls.len(),
{
    if ls.len() > 0 {
        let l = ls.first();
        let st1 = step_boundary(cur, out, l);
        let c2 = step_append(st1.0, l, ceiling);
        assert(c2 == st1.0 + l + nl());
        assert(c2.len() > 0);
        lemma_fold_expected(ls.drop_first(), c2, st1.1, ceiling);
    }
}

proof fn lemma_expected_counts(ls: Seq<Seq<char>>)
    ensures
        expected_chunks(ls, true) == boundary_count(ls) + 1,
        expected_chunks(ls, false) == boundary_count(ls) + (if ls.len() > 0 && !is_boundary(
            ls.first(),
        ) {
            1int
        } else {
            0int
        }),
    decreases ls.len(),
{
    if ls.len() > 0 {
        lemma_expected_counts(ls.drop_first());
    }
}

/// Law: when the scan accepts every line, the splitter returns one chunk
/// per "From " boundary line, plus one when content stands before the first
/// boundary; and every chunk is non-empty.
pub proof fn lemma_split_chunk_count(text: Seq<char>, ceiling: int)
    requires
        fold_no_drop(lines_of(text), Seq::empty(), ceiling),
    ensures
        split_commits(text, ceiling).len() == boundary_count(lines_of(text)) + (if lines_of(
            text,
        ).len() > 0 && !is_boundary(lines_of(text).first()) {
            1int
        } else {
            0int
        }),
        forall|i: int|
            0 <= i < split_commits(text, ceiling).len() ==> #[trigger] split_commits(
                text,
                ceiling,
            )[i].len() > 0,
{
    lemma_fold_expected(lines_of(text), Seq::empty(), Seq::empty(), ceiling);
    lemma_expected_counts(lines_of(text));
    assert forall|i: int| 0 <= i < split_commits(text, ceiling).len() implies #[trigger] split_commits(
        text,
        ceiling,
    )[i].len() > 0 by {
        lemma_chunks_nonempty(text, ceiling, i);
    }
}

} // verus!
