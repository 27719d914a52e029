use vstd::prelude::*;

verus! {

/// The longest line of pixel data, without its line feed.
pub const LINE_LIMIT: usize = 69;

/// Line feed.
pub const LF: u8 = 10;

/// Space.
pub const SP: u8 = 32;

/// Whether every byte is an ASCII character.
pub open spec fn ascii(bytes: Seq<u8>) -> bool {
    forall|i: int| 0 <= i < bytes.len() ==> (#[trigger] bytes[i]) < 128
}

/// The bytes read as characters, one for one.
pub open spec fn as_chars(bytes: Seq<u8>) -> Seq<char> {
    Seq::new(bytes.len(), |i: int| bytes[i] as char)
}

/// `n` in decimal digits, without leading zeros.
pub open spec fn decimal(n: nat) -> Seq<u8>
    decreases n,
{
    if n < 10 {
        seq![(48 + n) as u8]
    } else {
        decimal(n / 10).push((48 + n % 10) as u8)
    }
}

/// The three header lines: the format's name, the image's size, and the
/// largest channel value.
pub open spec fn header(width: nat, height: nat) -> Seq<u8> {
    seq![80u8, 51u8, LF] + decimal(width) + seq![SP] + decimal(height) + seq![LF] + seq![
        50u8,
        53u8,
        53u8,
        LF,
    ]
}

/// One image row laid out: the lines that are full, each closed by a line
/// feed, and the line still open, in which a space follows every number.
///
/// A number that would make the open line longer than [`LINE_LIMIT`]
/// closes it: the line loses its last space and gets a line feed, and the
/// number starts the next line.
pub open spec fn lay_row(levels: Seq<u8>) -> (Seq<u8>, Seq<u8>)
    decreases levels.len(),
{
    if levels.len() == 0 {
        (Seq::empty(), Seq::empty())
    } else {
        let (full, open) = lay_row(levels.drop_last());
        let token = decimal(levels.last() as nat);
        if open.len() + token.len() > LINE_LIMIT {
            (full + open.drop_last().push(LF), token.push(SP))
        } else {
            (full, open + token.push(SP))
        }
    }
}

/// The text with its last byte, if it has one, replaced by a line feed;
/// the empty text becomes one line feed.
pub open spec fn end_row(text: Seq<u8>) -> Seq<u8> {
    if text.len() > 0 {
        text.drop_last().push(LF)
    } else {
        text.push(LF)
    }
}

/// The pixel data of the first `rows` image rows, `per_row` numbers each.
pub open spec fn rows_text(levels: Seq<u8>, per_row: nat, rows: nat) -> Seq<u8>
    decreases rows,
{
    if rows == 0 {
        Seq::empty()
    } else {
        let before = rows_text(levels, per_row, (rows - 1) as nat);
        let row = lay_row(levels.subrange((rows - 1) * per_row, (rows * per_row) as int));
        end_row(before + row.0 + row.1)
    }
}

/// The whole image as plain PPM text.
pub open spec fn ppm_text(width: nat, height: nat, levels: Seq<u8>) -> Seq<u8> {
    header(width, height) + rows_text(levels, 3 * width, height)
}

/// How many bytes follow the last line feed.
pub open spec fn tail_run(text: Seq<u8>) -> nat
    decreases text.len(),
{
    if text.len() == 0 {
        0
    } else if text.last() == LF {
        0
    } else {
        tail_run(text.drop_last()) + 1
    }
}

/// Whether no line of the text has more than `limit` bytes before its line
/// feed or the end of the text.
pub open spec fn lines_within(text: Seq<u8>, limit: nat) -> bool
    decreases text.len(),
{
    text.len() == 0 || (lines_within(text.drop_last(), limit) && tail_run(text) <= limit)
}

/// Whether the text is a single line: it holds no line feed.
pub open spec fn plain(text: Seq<u8>) -> bool {
    forall|i: int| 0 <= i < text.len() ==> (#[trigger] text[i]) != LF
}

/// The decimal digits of a number are ASCII digits.
pub proof fn lemma_decimal_digits(n: nat)
    ensures
        forall|i: int| 0 <= i < decimal(n).len() ==> 48 <= (#[trigger] decimal(n)[i]) <= 57,
        plain(decimal(n)),
    decreases n,
{
    if n >= 10 {
        lemma_decimal_digits(n / 10);
    }
}

/// Text without a line feed makes the last line longer by its length.
pub proof fn lemma_append_plain(a: Seq<u8>, b: Seq<u8>, limit: nat)
    requires
        lines_within(a, limit),
        plain(b),
        tail_run(a) + b.len() <= limit,
    ensures
        lines_within(a + b, limit),
        tail_run(a + b) == tail_run(a) + b.len(),
    decreases b.len(),
{
    if b.len() == 0 {
        assert(a + b =~= a);
    } else {
        assert(plain(b.drop_last())) by {
            assert forall|i: int| 0 <= i < b.drop_last().len() implies (
            #[trigger] b.drop_last()[i]) != LF by {
                assert(b.drop_last()[i] == b[i]);
            }
        }
        lemma_append_plain(a, b.drop_last(), limit);
        assert((a + b).drop_last() =~= a + b.drop_last());
        assert((a + b).last() == b.last());
        assert(b[b.len() - 1] != LF);
    }
}

/// Behind a text that ends a line, whole lines stay as long as they are.
pub proof fn lemma_append_lines(a: Seq<u8>, b: Seq<u8>, limit: nat)
    requires
        lines_within(a, limit),
        tail_run(a) == 0,
        lines_within(b, limit),
    ensures
        lines_within(a + b, limit),
        tail_run(a + b) == tail_run(b),
    decreases b.len(),
{
    if b.len() == 0 {
        assert(a + b =~= a);
    } else {
        lemma_append_lines(a, b.drop_last(), limit);
        assert((a + b).drop_last() =~= a + b.drop_last());
        assert((a + b).last() == b.last());
    }
}

/// A line feed ends the last line and leaves the others as they are.
pub proof fn lemma_end_line(a: Seq<u8>, limit: nat)
    requires
        lines_within(a, limit),
    ensures
        lines_within(a.push(LF), limit),
        tail_run(a.push(LF)) == 0,
{
    assert(a.push(LF).drop_last() =~= a);
}

/// A laid-out image row keeps every full line within [`LINE_LIMIT`], and
/// its open line within one byte more, which is the space at its end.
pub proof fn lemma_lay_row_lines(levels: Seq<u8>)
    ensures
        lines_within(lay_row(levels).0, LINE_LIMIT as nat),
        tail_run(lay_row(levels).0) == 0,
        plain(lay_row(levels).1),
        lay_row(levels).1.len() <= LINE_LIMIT + 1,
    decreases levels.len(),
{
    if levels.len() > 0 {
        let (full, open) = lay_row(levels.drop_last());
        let token = decimal(levels.last() as nat);
        lemma_lay_row_lines(levels.drop_last());
        lemma_decimal_digits(levels.last() as nat);
        lemma_decimal_len(levels.last() as nat);
        assert(plain(token.push(SP)));
        if open.len() + token.len() > LINE_LIMIT {
            let line = open.drop_last();
            assert(plain(line)) by {
                assert forall|i: int| 0 <= i < line.len() implies (#[trigger] line[i]) != LF by {
                    assert(line[i] == open[i]);
                }
            }
            lemma_append_plain(full, line, LINE_LIMIT as nat);
            lemma_end_line(full + line, LINE_LIMIT as nat);
            assert(full + line.push(LF) =~= (full + line).push(LF));
        } else {
            assert(plain(open + token.push(SP)));
        }
    }
}

/// No line of the pixel data is longer than [`LINE_LIMIT`], and the data
/// ends with a line feed unless there is no row at all.
pub proof fn lemma_rows_lines(levels: Seq<u8>, per_row: nat, rows: nat)
    ensures
        lines_within(rows_text(levels, per_row, rows), LINE_LIMIT as nat),
        tail_run(rows_text(levels, per_row, rows)) == 0,
        rows > 0 ==> rows_text(levels, per_row, rows).len() > 0 && rows_text(
            levels,
            per_row,
            rows,
        ).last() == LF,
    decreases rows,
{
    if rows > 0 {
        let limit: nat = LINE_LIMIT as nat;
        let before = rows_text(levels, per_row, (rows - 1) as nat);
        let row = lay_row(levels.subrange((rows - 1) * per_row, (rows * per_row) as int));
        lemma_rows_lines(levels, per_row, (rows - 1) as nat);
        lemma_lay_row_lines(levels.subrange((rows - 1) * per_row, (rows * per_row) as int));
        lemma_append_lines(before, row.0, limit);
        let body = before + row.0;
        let text = body + row.1;
        if row.1.len() > 0 {
            let line = row.1.drop_last();
            assert(plain(line)) by {
                assert forall|i: int| 0 <= i < line.len() implies (#[trigger] line[i]) != LF by {
                    assert(line[i] == row.1[i]);
                }
            }
            lemma_append_plain(body, line, limit);
            assert(text.drop_last() =~= body + line);
            lemma_end_line(text.drop_last(), limit);
        } else {
            assert(text =~= body);
            if text.len() > 0 {
                lemma_end_line(text.drop_last(), limit);
            } else {
                lemma_end_line(text, limit);
            }
        }
        assert(end_row(text).last() == LF);
    }
}

/// A number below 1000 has one to three digits.
pub proof fn lemma_decimal_len(n: nat)
    requires
        n < 1000,
    ensures
        1 <= decimal(n).len() <= 3,
{
    reveal_with_fuel(decimal, 4);
}

/// Appends `n` in decimal digits.
pub fn push_decimal(out: &mut Vec<u8>, n: usize)
    ensures
        final(out)@ == old(out)@ + decimal(n as nat),
        ascii(old(out)@) ==> ascii(final(out)@),
    decreases n,
{
    if n < 10 {
        let d: u8 = (48 + n) as u8;
        out.push(d);
        proof {
            assert(final(out)@ =~= old(out)@ + decimal(n as nat));
        }
    } else {
        push_decimal(out, n / 10);
        let d: u8 = (48 + n % 10) as u8;
        out.push(d);
        proof {
            assert(out@ =~= old(out)@ + decimal(n as nat));
        }
    }
}

} // verus!
