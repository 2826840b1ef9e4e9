//! The fixed-width pieces of a board's text form: decimal row numbers,
//! lettered column names, and the two heading lines.

use vstd::prelude::*;
use vstd::string::*;

verus! {

/// The character for the decimal digit `d`, for `d` below 10.
pub open spec fn digit(d: nat) -> char {
    ('0' as nat + d) as char
}

/// The capital letter number `i` of the alphabet, counting `A` as 0.
pub open spec fn letter(i: nat) -> char {
    ('A' as nat + i) as char
}

/// `n` written in decimal, without leading zeros.
pub open spec fn decimal(n: nat) -> Seq<char>
    decreases n,
{
    if n < 10 {
        seq![digit(n)]
    } else {
        decimal(n / 10).push(digit(n % 10))
    }
}

/// The name of column `c`, counting from 0: `A` to `Z`, then `AA`, `AB` and
/// so on, as spreadsheets name their columns.
pub open spec fn column_name(c: nat) -> Seq<char>
    decreases c,
{
    if c < 26 {
        seq![letter(c)]
    } else {
        column_name((c / 26 - 1) as nat).push(letter(c % 26))
    }
}

/// `n` copies of `c`.
pub open spec fn repeated(c: char, n: nat) -> Seq<char> {
    Seq::new(n, |i: int| c)
}

/// `s` with spaces in front to make it `width` long; a longer `s` is left
/// as it is.
pub open spec fn right_aligned(s: Seq<char>, width: nat) -> Seq<char> {
    if s.len() >= width {
        s
    } else {
        repeated(' ', (width - s.len()) as nat) + s
    }
}

/// The names of the first `width` columns, each right-aligned in three
/// characters, so that a one-letter name stands above the middle of its
/// column's cells.
pub open spec fn column_labels(width: nat) -> Seq<char>
    decreases width,
{
    if width == 0 {
        Seq::empty()
    } else {
        column_labels((width - 1) as nat) + right_aligned(column_name((width - 1) as nat), 3)
    }
}

/// The first line of a board's text: the column names.
pub open spec fn header_line(width: nat) -> Seq<char> {
    repeated(' ', 5) + column_labels(width) + seq!['\n']
}

/// The second line of a board's text: a rule under the column names.
pub open spec fn separator_line(width: nat) -> Seq<char> {
    repeated(' ', 5) + repeated('_', 3 * width + 1) + seq!['\n']
}

/// The label of row number `n`: the number in decimal, right-aligned in two
/// characters.
pub open spec fn row_label(n: nat) -> Seq<char> {
    right_aligned(decimal(n), 2)
}

/// A number below 100 has one or two digits, so its row label is exactly
/// two characters long; from 100 on the label is as long as the number.
pub proof fn lemma_row_label_len(n: nat)
    ensures
        n < 100 ==> row_label(n).len() == 2,
        100 <= n < 1000 ==> row_label(n).len() == 3,
{
    reveal_with_fuel(decimal, 3);
}

/// The column names up to `ZZ` have one or two letters, so each label is
/// three characters long and the labels of `width` columns take `3 * width`.
pub proof fn lemma_column_labels_len(width: nat)
    requires
        width <= 702,
    ensures
        column_labels(width).len() == 3 * width,
    decreases width,
{
    if width > 0 {
        lemma_column_labels_len((width - 1) as nat);
        reveal_with_fuel(column_name, 2);
    }
}

/// The heading lines have fixed lengths, their newline counted: the rule
/// is as long as a row of cells with its two-character label, the line of
/// column names is one shorter.
pub proof fn lemma_heading_lens(width: nat)
    requires
        width <= 702,
    ensures
        header_line(width).len() == 6 + 3 * width,
        separator_line(width).len() == 7 + 3 * width,
{
    lemma_column_labels_len(width);
}

fn append_digit(out: &mut String, d: u8)
    requires
        d < 10,
    ensures
        final(out)@ == old(out)@.push(digit(d as nat)),
{
    proof {
        reveal_strlit("0123456789");
    }
    let digits = "0123456789";
    let one = digits.substring_ascii(d as usize, d as usize + 1);
    assert(one@ =~= seq![digit(d as nat)]);
    out.append(one);
}

fn append_letter(out: &mut String, i: u8)
    requires
        i < 26,
    ensures
        final(out)@ == old(out)@.push(letter(i as nat)),
{
    proof {
        reveal_strlit("ABCDEFGHIJKLMNOPQRSTUVWXYZ");
    }
    let letters = "ABCDEFGHIJKLMNOPQRSTUVWXYZ";
    let one = letters.substring_ascii(i as usize, i as usize + 1);
    assert(one@ =~= seq![letter(i as nat)]);
    out.append(one);
}

fn append_spaces(out: &mut String, n: u8)
    ensures
        final(out)@ == old(out)@ + repeated(' ', n as nat),
{
    let mut i: u8 = 0;
    while i < n
        invariant
            i <= n,
            out@ == old(out)@ + repeated(' ', i as nat),
        decreases n - i,
    {
        out.append(" ");
        i = i + 1;
        proof {
            reveal_strlit(" ");
        }
        assert(out@ =~= old(out)@ + repeated(' ', i as nat));
    }
}

/// Appends the label of row number `n` to `out`.
pub(crate) fn append_row_label(out: &mut String, n: u8)
    ensures
        final(out)@ == old(out)@ + row_label(n as nat),
{
    proof {
        reveal_with_fuel(decimal, 3);
    }
    if n < 10 {
        append_spaces(out, 1);
        append_digit(out, n);
    } else if n < 100 {
        append_digit(out, n / 10);
        append_digit(out, n % 10);
    } else {
        append_digit(out, n / 100);
        append_digit(out, (n / 10) % 10);
        append_digit(out, n % 10);
    }
    assert(out@ =~= old(out)@ + row_label(n as nat));
}

/// Appends the three-character label of column `c` to `out`.
pub(crate) fn append_column_label(out: &mut String, c: u8)
    ensures
        final(out)@ == old(out)@ + right_aligned(column_name(c as nat), 3),
{
    proof {
        reveal_with_fuel(column_name, 2);
    }
    if c < 26 {
        append_spaces(out, 2);
        append_letter(out, c);
    } else {
        append_spaces(out, 1);
        append_letter(out, c / 26 - 1);
        append_letter(out, c % 26);
    }
    assert(out@ =~= old(out)@ + right_aligned(column_name(c as nat), 3));
}

/// Appends the line of column names for a board `width` cells wide.
pub(crate) fn append_header_line(out: &mut String, width: u8)
    ensures
        final(out)@ == old(out)@ + header_line(width as nat),
{
    proof {
        reveal_strlit("\n");
    }
    append_spaces(out, 5);
    let ghost start = out@;
    let mut c: u8 = 0;
    while c < width
        invariant
            c <= width,
            out@ == start + column_labels(c as nat),
        decreases width - c,
    {
        append_column_label(out, c);
        c = c + 1;
        assert(out@ =~= start + column_labels(c as nat));
    }
    out.append("\n");
    assert(out@ =~= old(out)@ + header_line(width as nat));
}

/// Appends the rule that stands under the column names.
pub(crate) fn append_separator_line(out: &mut String, width: u8)
    ensures
        final(out)@ == old(out)@ + separator_line(width as nat),
{
    proof {
        reveal_strlit("_");
        reveal_strlit("\n");
    }
    append_spaces(out, 5);
    let ghost start = out@;
    out.append("_");
    let mut c: u8 = 0;
    while c < width
        invariant
            c <= width,
            out@ == start + repeated('_', 3 * (c as nat) + 1),
        decreases width - c,
    {
        out.append("___");
        c = c + 1;
        proof {
            reveal_strlit("___");
        }
        assert(out@ =~= start + repeated('_', 3 * (c as nat) + 1));
    }
    out.append("\n");
    assert(out@ =~= old(out)@ + separator_line(width as nat));
}

} // verus!
