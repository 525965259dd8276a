//! The plain-text rendering of a screen: each line's characters with the
//! trailing white space trimmed, trailing empty lines dropped, the lines
//! joined by newlines.

use vstd::prelude::*;
use crate::style::Cell;

verus! {

/// `String::push` appends `ch` to the end of the string.
pub assume_specification[ String::push ](string: &mut String, ch: char)
    ensures
        final(string)@ == old(string)@.push(ch),
;

/// The Unicode `White_Space` property, the set that `str::trim_end` trims.
pub open spec fn unicode_white_space(c: char) -> bool {
    let u = c as u32;
    ||| 0x09 <= u <= 0x0d
    ||| u == 0x20
    ||| u == 0x85
    ||| u == 0xa0
    ||| u == 0x1680
    ||| 0x2000 <= u <= 0x200a
    ||| u == 0x2028
    ||| u == 0x2029
    ||| u == 0x202f
    ||| u == 0x205f
    ||| u == 0x3000
}

/// Whether `c` has the Unicode `White_Space` property.
pub fn is_white_space(c: char) -> (b: bool)
    ensures
        b == unicode_white_space(c),
{
    let u = c as u32;
    (0x09 <= u && u <= 0x0d) || u == 0x20 || u == 0x85 || u == 0xa0 || u == 0x1680 || (0x2000 <= u
        && u <= 0x200a) || u == 0x2028 || u == 0x2029 || u == 0x202f || u == 0x205f || u == 0x3000
}

/// The characters of a line of cells.
pub open spec fn row_chars(line: Seq<Cell>) -> Seq<char> {
    line.map_values(|c: Cell| c.ch)
}

/// `s` without its trailing white space.
pub open spec fn trim_end(s: Seq<char>) -> Seq<char>
    decreases s.len(),
{
    if s.len() > 0 && unicode_white_space(s.last()) {
        trim_end(s.drop_last())
    } else {
        s
    }
}

/// `ls` without its trailing empty lines.
pub open spec fn drop_empty_tail(ls: Seq<Seq<char>>) -> Seq<Seq<char>>
    decreases ls.len(),
{
    if ls.len() > 0 && ls.last().len() == 0 {
        drop_empty_tail(ls.drop_last())
    } else {
        ls
    }
}

/// The lines joined by newlines.
pub open spec fn join_lines(ls: Seq<Seq<char>>) -> Seq<char>
    decreases ls.len(),
{
    if ls.len() == 0 {
        Seq::empty()
    } else if ls.len() == 1 {
        ls[0]
    } else {
        join_lines(ls.drop_last()) + seq!['\n'] + ls.last()
    }
}

/// Each line's characters, trailing white space trimmed.
pub open spec fn trimmed_lines(lines: Seq<Seq<Cell>>) -> Seq<Seq<char>> {
    lines.map_values(|l: Seq<Cell>| trim_end(row_chars(l)))
}

/// The plain text of a screen.
pub open spec fn screen_text(lines: Seq<Seq<Cell>>) -> Seq<char> {
    join_lines(drop_empty_tail(trimmed_lines(lines)))
}

/// Trimming a prefix that ends in white space trims one character less.
pub proof fn lemma_trim_end_step(s: Seq<char>, k: int)
    requires
        0 < k <= s.len(),
        unicode_white_space(s[k - 1]),
    ensures
        trim_end(s.take(k)) == trim_end(s.take(k - 1)),
{
    assert(s.take(k).drop_last() =~= s.take(k - 1));
}

/// Joining one more line adds a newline and the line.
pub proof fn lemma_join_take(ls: Seq<Seq<char>>, k: int)
    requires
        0 <= k < ls.len(),
    ensures
        join_lines(ls.take(k + 1)) == if k == 0 {
            ls[0]
        } else {
            join_lines(ls.take(k)) + seq!['\n'] + ls[k]
        },
{
    assert(ls.take(k + 1).drop_last() =~= ls.take(k));
    if k == 0 {
        assert(ls.take(1)[0] == ls[0]);
    }
}

/// Dropping a prefix's last line when it is empty.
pub proof fn lemma_drop_empty_step(ls: Seq<Seq<char>>, n: int)
    requires
        0 < n <= ls.len(),
        ls[n - 1].len() == 0,
    ensures
        drop_empty_tail(ls.take(n)) == drop_empty_tail(ls.take(n - 1)),
{
    assert(ls.take(n).drop_last() =~= ls.take(n - 1));
}

} // verus!
