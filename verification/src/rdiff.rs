//! Line-by-line comparison of two texts: the table of the lengths of their
//! longest common subsequences, and the difference read off it.

use crate::grid::Grid;
use crate::text::{decimal, push_unsigned};
use vstd::prelude::*;
use vstd::string::{StrSliceExecFns, StringExecFns};

verus! {

/// The length of the longest common subsequence of the first `i` lines of
/// `a` and the first `j` lines of `b`.
pub open spec fn lcs_length(a: Seq<Seq<char>>, b: Seq<Seq<char>>, i: nat, j: nat) -> nat
    decreases i + j,
{
    if i == 0 || j == 0 {
        0
    } else if a[i - 1] == b[j - 1] {
        lcs_length(a, b, (i - 1) as nat, (j - 1) as nat) + 1
    } else {
        let left = lcs_length(a, b, i, (j - 1) as nat);
        let up = lcs_length(a, b, (i - 1) as nat, j);
        if left >= up {
            left
        } else {
            up
        }
    }
}

/// A longest common subsequence is no longer than either text.
pub proof fn lcs_length_is_bounded(a: Seq<Seq<char>>, b: Seq<Seq<char>>, i: nat, j: nat)
    ensures
        lcs_length(a, b, i, j) <= i,
        lcs_length(a, b, i, j) <= j,
    decreases i + j,
{
    if i > 0 && j > 0 {
        lcs_length_is_bounded(a, b, (i - 1) as nat, (j - 1) as nat);
        lcs_length_is_bounded(a, b, i, (j - 1) as nat);
        lcs_length_is_bounded(a, b, (i - 1) as nat, j);
    }
}

/// `c` is a subsequence of `s`: its lines occur in `s`, in the same order,
/// with any number of other lines between them. Either the last line of `s`
/// is one of the others, or it is the last line of `c`.
pub open spec fn is_subsequence(c: Seq<Seq<char>>, s: Seq<Seq<char>>) -> bool
    decreases s.len(),
{
    c.len() == 0 || (s.len() > 0 && (is_subsequence(c, s.drop_last()) || (c.last() == s.last()
        && is_subsequence(c.drop_last(), s.drop_last()))))
}

/// A common subsequence of the first `i` lines of `a` and the first `j`
/// lines of `b` that is as long as `lcs_length` says.
pub open spec fn lcs_witness(a: Seq<Seq<char>>, b: Seq<Seq<char>>, i: nat, j: nat) -> Seq<
    Seq<char>,
>
    decreases i + j,
{
    if i == 0 || j == 0 {
        Seq::empty()
    } else if a[i - 1] == b[j - 1] {
        lcs_witness(a, b, (i - 1) as nat, (j - 1) as nat).push(a[i - 1])
    } else if lcs_length(a, b, i, (j - 1) as nat) >= lcs_length(a, b, (i - 1) as nat, j) {
        lcs_witness(a, b, i, (j - 1) as nat)
    } else {
        lcs_witness(a, b, (i - 1) as nat, j)
    }
}

/// A subsequence of the lines before the last is a subsequence of all the
/// lines.
proof fn subsequence_of_longer(c: Seq<Seq<char>>, s: Seq<Seq<char>>)
    requires
        s.len() > 0,
        is_subsequence(c, s.drop_last()),
    ensures
        is_subsequence(c, s),
{
}

/// Without its last line, a subsequence of `s` is a subsequence of `s`
/// without its last line.
proof fn subsequence_of_shorter(c: Seq<Seq<char>>, s: Seq<Seq<char>>)
    requires
        c.len() > 0,
        is_subsequence(c, s),
    ensures
        s.len() > 0,
        is_subsequence(c.drop_last(), s.drop_last()),
    decreases s.len(),
{
    if is_subsequence(c, s.drop_last()) {
        subsequence_of_shorter(c, s.drop_last());
        subsequence_of_longer(c.drop_last(), s.drop_last());
    }
}

/// There is a common subsequence of the length that `lcs_length` gives:
/// `lcs_witness` is one.
pub proof fn lcs_length_is_reached(a: Seq<Seq<char>>, b: Seq<Seq<char>>, i: nat, j: nat)
    requires
        i <= a.len(),
        j <= b.len(),
    ensures
        lcs_witness(a, b, i, j).len() == lcs_length(a, b, i, j),
        is_subsequence(lcs_witness(a, b, i, j), a.take(i as int)),
        is_subsequence(lcs_witness(a, b, i, j), b.take(j as int)),
    decreases i + j,
{
    if i > 0 && j > 0 {
        let before_a = a.take(i as int).drop_last();
        let before_b = b.take(j as int).drop_last();
        assert(before_a =~= a.take(i - 1));
        assert(before_b =~= b.take(j - 1));
        assert(a.take(i as int).last() == a[i - 1]);
        assert(b.take(j as int).last() == b[j - 1]);
        if a[i - 1] == b[j - 1] {
            lcs_length_is_reached(a, b, (i - 1) as nat, (j - 1) as nat);
            let shorter = lcs_witness(a, b, (i - 1) as nat, (j - 1) as nat);
            assert(shorter.push(a[i - 1]).drop_last() =~= shorter);
        } else if lcs_length(a, b, i, (j - 1) as nat) >= lcs_length(a, b, (i - 1) as nat, j) {
            lcs_length_is_reached(a, b, i, (j - 1) as nat);
            subsequence_of_longer(lcs_witness(a, b, i, j), b.take(j as int));
        } else {
            lcs_length_is_reached(a, b, (i - 1) as nat, j);
            subsequence_of_longer(lcs_witness(a, b, i, j), a.take(i as int));
        }
    }
}

/// No common subsequence is longer than `lcs_length` says.
pub proof fn lcs_length_is_longest(
    a: Seq<Seq<char>>,
    b: Seq<Seq<char>>,
    i: nat,
    j: nat,
    c: Seq<Seq<char>>,
)
    requires
        i <= a.len(),
        j <= b.len(),
        is_subsequence(c, a.take(i as int)),
        is_subsequence(c, b.take(j as int)),
    ensures
        c.len() <= lcs_length(a, b, i, j),
    decreases i + j,
{
    if c.len() > 0 {
        let all_a = a.take(i as int);
        let all_b = b.take(j as int);
        assert(i > 0 && j > 0);
        assert(all_a.drop_last() =~= a.take(i - 1));
        assert(all_b.drop_last() =~= b.take(j - 1));
        assert(all_a.last() == a[i - 1]);
        assert(all_b.last() == b[j - 1]);
        if a[i - 1] == b[j - 1] {
            subsequence_of_shorter(c, all_a);
            subsequence_of_shorter(c, all_b);
            lcs_length_is_longest(a, b, (i - 1) as nat, (j - 1) as nat, c.drop_last());
        } else if is_subsequence(c, all_a.drop_last()) {
            lcs_length_is_longest(a, b, (i - 1) as nat, j, c);
        } else {
            assert(is_subsequence(c, all_b.drop_last()));
            lcs_length_is_longest(a, b, i, (j - 1) as nat, c);
        }
    }
}

/// The grid is the table of two texts: it has a row for each prefix of `a`
/// and a column for each prefix of `b`, and each cell holds the length of the
/// longest common subsequence of the two prefixes.
pub open spec fn is_lcs_table(table: Grid, a: Seq<Seq<char>>, b: Seq<Seq<char>>) -> bool {
    &&& table.height() == a.len() + 1
    &&& table.width() == b.len() + 1
    &&& forall|i: int, j: int|
        0 <= i <= a.len() && 0 <= j <= b.len() ==> #[trigger] table.value(i, j) == lcs_length(
            a,
            b,
            i as nat,
            j as nat,
        )
}

/// The cells of the rows before `rows`, and of the row `rows` before column
/// `cols`, hold the lengths of the table; all other cells are zero.
spec fn filled(table: Grid, a: Seq<Seq<char>>, b: Seq<Seq<char>>, rows: int, cols: int) -> bool {
    &&& table.height() == a.len() + 1
    &&& table.width() == b.len() + 1
    &&& forall|i: int, j: int|
        0 <= i <= a.len() && 0 <= j <= b.len() ==> #[trigger] table.value(i, j) == (if i < rows || (
        i == rows && j < cols) {
            lcs_length(a, b, i as nat, j as nat)
        } else {
            0
        })
}

/// Computes the table of the lengths of the longest common subsequences of
/// the prefixes of two texts.
pub fn lcs(seq1: &Vec<String>, seq2: &Vec<String>) -> (common: Grid)
    requires
        seq1@.len() < usize::MAX,
        seq2@.len() < usize::MAX,
    ensures
        is_lcs_table(common, seq1.deep_view(), seq2.deep_view()),
{
    let ghost a = seq1.deep_view();
    let ghost b = seq2.deep_view();
    let mut common = Grid::new(seq1.len() + 1, seq2.len() + 1);
    let mut i: usize = 0;
    while i < seq1.len()
        invariant
            i <= seq1@.len(),
            seq1@.len() < usize::MAX,
            seq2@.len() < usize::MAX,
            a == seq1.deep_view(),
            b == seq2.deep_view(),
            filled(common, a, b, i as int + 1, 0),
        decreases seq1@.len() - i,
    {
        let mut j: usize = 0;
        while j < seq2.len()
            invariant
                i < seq1@.len(),
                j <= seq2@.len(),
                seq1@.len() < usize::MAX,
                seq2@.len() < usize::MAX,
                a == seq1.deep_view(),
                b == seq2.deep_view(),
                filled(common, a, b, i as int + 1, j as int + 1),
            decreases seq2@.len() - j,
        {
            let ghost before = common;
            proof {
                lcs_length_is_bounded(a, b, i as nat, j as nat);
                assert(before.value(i as int, j as int) == lcs_length(a, b, i as nat, j as nat));
                assert(before.value(i + 1, j as int) == lcs_length(a, b, (i + 1) as nat, j as nat));
                assert(before.value(i as int, j + 1) == lcs_length(a, b, i as nat, (j + 1) as nat));
                assert(a[i as int] == seq1@[i as int]@);
                assert(b[j as int] == seq2@[j as int]@);
            }
            let value = if seq1[i] == seq2[j] {
                match common.get(i, j) {
                    Some(diagonal) => diagonal + 1,
                    None => 0,
                }
            } else {
                let left = common.get(i + 1, j);
                let up = common.get(i, j + 1);
                match (left, up) {
                    (Some(left), Some(up)) => if left >= up {
                        left
                    } else {
                        up
                    },
                    _ => 0,
                }
            };
            assert(value == lcs_length(a, b, (i + 1) as nat, (j + 1) as nat));
            let done = common.set(i + 1, j + 1, value);
            proof {
                assert forall|r: int, c: int| 0 <= r <= a.len() && 0 <= c <= b.len() implies #[trigger]
                    common.value(r, c) == (if r < i + 1 || (r == i + 1 && c < j + 2) {
                    lcs_length(a, b, r as nat, c as nat)
                } else {
                    0
                }) by {
                    assert(common.cell(r, c) == if r == i + 1 && c == j + 1 {
                        Some(value)
                    } else {
                        before.cell(r, c)
                    });
                    assert(before.value(r, c) == before.cell(r, c)->0);
                }
            }
            j += 1;
        }
        proof {
            assert forall|r: int, c: int| 0 <= r <= a.len() && 0 <= c <= b.len() implies #[trigger]
                common.value(r, c) == (if r < i + 2 || (r == i + 2 && c < 0) {
                lcs_length(a, b, r as nat, c as nat)
            } else {
                0
            }) by {}
        }
        i += 1;
    }
    proof {
        assert forall|r: int, c: int| 0 <= r <= a.len() && 0 <= c <= b.len() implies #[trigger]
            common.value(r, c) == lcs_length(a, b, r as nat, c as nat) by {}
    }
    common
}

/// The order of two cells of a table, where a cell out of bounds comes
/// before every cell within bounds.
pub open spec fn at_least(x: Option<usize>, y: Option<usize>) -> bool {
    match (x, y) {
        (_, None) => true,
        (None, Some(_)) => false,
        (Some(p), Some(q)) => p >= q,
    }
}

/// `n` blanks; none where `n` is not positive.
pub open spec fn blanks(n: int) -> Seq<char> {
    Seq::new(
        if n > 0 {
            n as nat
        } else {
            0
        },
        |i: int| ' ',
    )
}

/// A line number, aligned to the right in a column of `width` characters.
pub open spec fn numbered(n: nat, width: nat) -> Seq<char> {
    blanks(width - decimal(n as int).len()) + decimal(n as int)
}

/// The difference between the first `i` lines of `a` and the first `j` lines
/// of `b`, read off `table` from its corner backwards: a line that both
/// texts end in is shown plain, a line of `b` alone with `>`, a line of `a`
/// alone with `<`, each under its number in its own text.
pub open spec fn diff_lines(
    table: Grid,
    a: Seq<Seq<char>>,
    b: Seq<Seq<char>>,
    i: nat,
    j: nat,
    prefix: nat,
) -> Seq<Seq<char>>
    decreases i + j,
{
    if i > 0 && j > 0 && a[i - 1] == b[j - 1] {
        diff_lines(table, a, b, (i - 1) as nat, (j - 1) as nat, prefix).push(
            numbered(i, prefix) + ":   "@ + a[i - 1],
        )
    } else if j > 0 && (i == 0 || at_least(table.cell(i as int, j - 1), table.cell(i - 1, j as int))) {
        diff_lines(table, a, b, i, (j - 1) as nat, prefix).push(
            numbered(j, prefix) + ": > "@ + b[j - 1],
        )
    } else if i > 0 && (j == 0 || at_least(table.cell(i - 1, j as int), table.cell(i as int, j - 1))) {
        diff_lines(table, a, b, (i - 1) as nat, j, prefix).push(
            numbered(i, prefix) + ": < "@ + a[i - 1],
        )
    } else {
        Seq::empty()
    }
}

/// Read off the table of the two texts, the difference is as short as a
/// difference can be: it shows each line of either text once, but for the
/// lines of a longest common subsequence, which it shows once for both.
pub proof fn diff_is_shortest(
    table: Grid,
    a: Seq<Seq<char>>,
    b: Seq<Seq<char>>,
    i: nat,
    j: nat,
    prefix: nat,
)
    requires
        is_lcs_table(table, a, b),
        i <= a.len(),
        j <= b.len(),
    ensures
        diff_lines(table, a, b, i, j, prefix).len() == i + j - lcs_length(a, b, i, j),
    decreases i + j,
{
    if i > 0 && j > 0 && a[i - 1] == b[j - 1] {
        diff_is_shortest(table, a, b, (i - 1) as nat, (j - 1) as nat, prefix);
    } else if j > 0 && (i == 0 || at_least(table.cell(i as int, j - 1), table.cell(i - 1, j as int))) {
        diff_is_shortest(table, a, b, i, (j - 1) as nat, prefix);
        if i > 0 {
            assert(table.value(i as int, j - 1) == lcs_length(a, b, i, (j - 1) as nat));
            assert(table.value(i - 1, j as int) == lcs_length(a, b, (i - 1) as nat, j));
        }
    } else if i > 0 && (j == 0 || at_least(table.cell(i - 1, j as int), table.cell(i as int, j - 1))) {
        diff_is_shortest(table, a, b, (i - 1) as nat, j, prefix);
        if j > 0 {
            assert(table.value(i as int, j - 1) == lcs_length(a, b, i, (j - 1) as nat));
            assert(table.value(i - 1, j as int) == lcs_length(a, b, (i - 1) as nat, j));
        }
    } else {
        if i > 0 && j > 0 {
            assert(table.value(i as int, j - 1) == lcs_length(a, b, i, (j - 1) as nat));
            assert(table.value(i - 1, j as int) == lcs_length(a, b, (i - 1) as nat, j));
        }
    }
}

fn not_below(x: Option<usize>, y: Option<usize>) -> (b: bool)
    ensures
        b == at_least(x, y),
{
    match (x, y) {
        (_, None) => true,
        (None, Some(_)) => false,
        (Some(p), Some(q)) => p >= q,
    }
}

fn diff_line(n: usize, prefix: usize, mark: &str, line: &String) -> (text: String)
    ensures
        text@ == numbered(n as nat, prefix as nat) + mark@ + line@,
{
    let mut number = String::new();
    push_unsigned(&mut number, n as u64);
    let len = number.as_str().unicode_len();
    let mut text = String::new();
    let mut k: usize = len;
    while k < prefix
        invariant
            len <= k || k == len,
            k <= prefix || k == len,
            text@ == blanks(k - len),
        decreases prefix - k,
    {
        text.push(' ');
        k += 1;
        assert(blanks(k - len) =~= blanks(k - 1 - len).push(' '));
    }
    assert(text@ =~= blanks(prefix - len));
    text.append(number.as_str());
    text.append(mark);
    text.append(line.as_str());
    text
}

/// Renders the difference between the first `i` lines of `lines1` and the
/// first `j` lines of `lines2`, with line numbers in a column of `prefix`
/// characters.
pub fn print_diff(
    lcs_table: &Grid,
    lines1: &Vec<String>,
    lines2: &Vec<String>,
    i: usize,
    j: usize,
    prefix: usize,
) -> (lines: Vec<String>)
    requires
        i <= lines1@.len(),
        j <= lines2@.len(),
    ensures
        lines.deep_view() == diff_lines(
            *lcs_table,
            lines1.deep_view(),
            lines2.deep_view(),
            i as nat,
            j as nat,
            prefix as nat,
        ),
    decreases i + j,
{
    let ghost a = lines1.deep_view();
    let ghost b = lines2.deep_view();
    proof {
        if i > 0 {
            assert(a[i - 1] == lines1@[i - 1]@);
        }
        if j > 0 {
            assert(b[j - 1] == lines2@[j - 1]@);
        }
    }
    if i > 0 && j > 0 && lines1[i - 1] == lines2[j - 1] {
        let mut lines = print_diff(lcs_table, lines1, lines2, i - 1, j - 1, prefix);
        let ghost before = lines.deep_view();
        let line = diff_line(i, prefix, ":   ", &lines1[i - 1]);
        lines.push(line);
        assert(lines.deep_view() =~= before.push(line@));
        lines
    } else if j > 0 && (i == 0 || not_below(lcs_table.get(i, j - 1), lcs_table.get(i - 1, j))) {
        let mut lines = print_diff(lcs_table, lines1, lines2, i, j - 1, prefix);
        let ghost before = lines.deep_view();
        let line = diff_line(j, prefix, ": > ", &lines2[j - 1]);
        lines.push(line);
        assert(lines.deep_view() =~= before.push(line@));
        lines
    } else if i > 0 && (j == 0 || not_below(lcs_table.get(i - 1, j), lcs_table.get(i, j - 1))) {
        let mut lines = print_diff(lcs_table, lines1, lines2, i - 1, j, prefix);
        let ghost before = lines.deep_view();
        let line = diff_line(i, prefix, ": < ", &lines1[i - 1]);
        lines.push(line);
        assert(lines.deep_view() =~= before.push(line@));
        lines
    } else {
        let lines: Vec<String> = Vec::new();
        assert(lines.deep_view() =~= Seq::<Seq<char>>::empty());
        lines
    }
}

} // verus!
