//! Splitting text into lines. A line ends at a line feed or at a carriage
//! return followed by a line feed; the terminator is not part of the line,
//! and a final terminator does not open an empty last line.

use vstd::prelude::*;

verus! {

/// Position of the first line feed in `s`, or `s.len()` if there is none.
pub open spec fn first_nl(s: Seq<char>) -> int
    decreases s.len(),
{
    if s.len() == 0 {
        0
    } else if s[0] == '\n' {
        0
    } else {
        1 + first_nl(s.drop_first())
    }
}

/// `first_nl` points at the first line feed: everything before it is not a
/// line feed, and it is a line feed unless the whole sequence has none.
pub proof fn lemma_first_nl(s: Seq<char>)
    ensures
        0 <= first_nl(s) <= s.len(),
        first_nl(s) < s.len() ==> s[first_nl(s)] == '\n',
        forall|k: int| 0 <= k < first_nl(s) ==> s[k] != '\n',
    decreases s.len(),
{
    if s.len() == 0 {
    } else if s[0] == '\n' {
    } else {
        lemma_first_nl(s.drop_first());
        assert(forall|k: int| 1 <= k < first_nl(s) ==> s[k] == s.drop_first()[k - 1]);
    }
}

/// Any position with the properties of `first_nl` is `first_nl`.
pub proof fn lemma_first_nl_unique(s: Seq<char>, j: int)
    requires
        0 <= j <= s.len(),
        j < s.len() ==> s[j] == '\n',
        forall|k: int| 0 <= k < j ==> s[k] != '\n',
    ensures
        first_nl(s) == j,
{
    lemma_first_nl(s);
    if first_nl(s) < j {
        assert(s[first_nl(s)] == '\n');
    } else if first_nl(s) > j {
        assert(s[j] != '\n');
    }
}

/// Strips one trailing carriage return, the tail of a two-character line
/// terminator.
pub open spec fn chomp(line: Seq<char>) -> Seq<char> {
    if line.len() > 0 && line[line.len() - 1] == '\r' {
        line.drop_last()
    } else {
        line
    }
}

/// The lines of `s`, in order: the text between successive line terminators,
/// terminators excluded, with no empty last line after a final terminator.
pub open spec fn split_lines(s: Seq<char>) -> Seq<Seq<char>>
    decreases s.len(),
{
    if s.len() == 0 {
        Seq::empty()
    } else {
        let i = first_nl(s);
        if 0 <= i < s.len() {
            seq![chomp(s.subrange(0, i))] + split_lines(s.subrange(i + 1, s.len() as int))
        } else {
            seq![s]
        }
    }
}

/// Position of the first line feed in `s` at or after `from`, or the length
/// of `s` if there is none.
fn find_newline(s: &str, from: usize) -> (j: usize)
    requires
        from <= s@.len(),
    ensures
        from <= j <= s@.len(),
        j < s@.len() ==> s@[j as int] == '\n',
        forall|k: int| from <= k < j ==> s@[k] != '\n',
{
    let n = s.unicode_len();
    let mut j: usize = from;
    while j < n
        invariant
            n == s@.len(),
            from <= j <= n,
            forall|k: int| from <= k < j ==> s@[k] != '\n',
        decreases n - j,
    {
        if s.get_char(j) == '\n' {
            return j;
        }
        j += 1;
    }
    j
}

/// Splits `contents` into its lines, each copied into an owned string.
pub fn split_into_lines(contents: &str) -> (r: Vec<String>)
    ensures
        r@.map_values(|l: String| l@) == split_lines(contents@),
{
    let n = contents.unicode_len();
    let mut lines: Vec<String> = Vec::new();
    let mut pos: usize = 0;
    proof {
        assert(contents@.subrange(0, n as int) =~= contents@);
        assert(lines@.map_values(|l: String| l@) + split_lines(contents@) =~= split_lines(
            contents@,
        ));
    }
    while pos < n
        invariant
            n == contents@.len(),
            pos <= n,
            split_lines(contents@) == lines@.map_values(|l: String| l@) + split_lines(
                contents@.subrange(pos as int, n as int),
            ),
        decreases n - pos,
    {
        let ghost rest = contents@.subrange(pos as int, n as int);
        let j = find_newline(contents, pos);
        if j < n {
            let end = if j > pos && contents.get_char(j - 1) == '\r' {
                j - 1
            } else {
                j
            };
            let line = contents.substring_char(pos, end).to_owned();
            proof {
                lemma_first_nl_unique(rest, j - pos);
                assert(rest.subrange(0, j - pos) =~= contents@.subrange(pos as int, j as int));
                if j > pos && contents@[j - 1] == '\r' {
                    assert(contents@.subrange(pos as int, j as int).drop_last()
                        =~= contents@.subrange(pos as int, j - 1));
                }
                assert(chomp(rest.subrange(0, j - pos)) == line@);
                assert(rest.subrange(j - pos + 1, rest.len() as int) =~= contents@.subrange(
                    j + 1,
                    n as int,
                ));
                assert(split_lines(rest) == seq![line@] + split_lines(
                    contents@.subrange(j + 1, n as int),
                ));
                assert(lines@.push(line).map_values(|l: String| l@) =~= lines@.map_values(
                    |l: String| l@,
                ).push(line@));
                assert(lines@.map_values(|l: String| l@).push(line@) + split_lines(
                    contents@.subrange(j + 1, n as int),
                ) =~= lines@.map_values(|l: String| l@) + (seq![line@] + split_lines(
                    contents@.subrange(j + 1, n as int),
                )));
            }
            lines.push(line);
            pos = j + 1;
        } else {
            let line = contents.substring_char(pos, n).to_owned();
            proof {
                lemma_first_nl_unique(rest, n - pos);
                assert(rest =~= line@);
                assert(split_lines(rest) == seq![line@]);
                assert(lines@.push(line).map_values(|l: String| l@) =~= lines@.map_values(
                    |l: String| l@,
                ).push(line@));
                assert(lines@.map_values(|l: String| l@).push(line@) =~= lines@.map_values(
                    |l: String| l@,
                ) + seq![line@]);
                assert(contents@.subrange(n as int, n as int) =~= Seq::<char>::empty());
            }
            lines.push(line);
            pos = n;
        }
    }
    proof {
        assert(contents@.subrange(n as int, n as int) =~= Seq::<char>::empty());
        assert(split_lines(Seq::<char>::empty()) =~= Seq::<Seq<char>>::empty());
        assert(lines@.map_values(|l: String| l@) + Seq::<Seq<char>>::empty() =~= lines@.map_values(
            |l: String| l@,
        ));
    }
    lines
}

} // verus!
