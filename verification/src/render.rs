//! Fixed-width ASCII rendering of a table.
//!
//! The rendered text is a pure function of the schema's field names and of
//! every row's string projection. Each column is as wide as its widest
//! element, header included; every cell is left-aligned and right-padded
//! with spaces to that width. A `-` rule opens the table and closes every
//! data row, a `=` rule separates the header from the data, and each line
//! of text is `|`-delimited.

use vstd::prelude::*;
use vstd::string::{StrSliceExecFns, StringExecFns};

verus! {

/// `n` copies of the character `c`.
pub open spec fn char_repeat(c: char, n: nat) -> Seq<char> {
    Seq::new(n, |i: int| c)
}

/// The larger of two widths.
pub open spec fn max2(a: nat, b: nat) -> nat {
    if a >= b {
        a
    } else {
        b
    }
}

/// The widths of a sequence of columns, as mathematical numbers.
pub open spec fn nat_widths(v: Seq<usize>) -> Seq<nat> {
    v.map_values(|w: usize| w as nat)
}

/// The widest entry of a single column of strings; 0 when the column is
/// empty.
pub open spec fn max_width(ss: Seq<Seq<char>>) -> nat
    decreases ss.len(),
{
    if ss.len() == 0 {
        0
    } else {
        max2(max_width(ss.drop_last()), ss.last().len())
    }
}

/// The views of a sequence of strings.
pub open spec fn str_views(ss: Seq<String>) -> Seq<Seq<char>> {
    ss.map_values(|s: String| s@)
}

/// The widest cell of column `c` over all rows; 0 when there are no rows.
pub open spec fn col_content_width(cells: Seq<Seq<Seq<char>>>, c: int) -> nat
    decreases cells.len(),
{
    if cells.len() == 0 {
        0
    } else {
        max2(col_content_width(cells.drop_last(), c), cells.last()[c].len())
    }
}

/// The effective width of every column: the widest cell, or the field
/// name when that is wider. The header always fits.
pub open spec fn table_widths(fields: Seq<Seq<char>>, cells: Seq<Seq<Seq<char>>>) -> Seq<nat> {
    Seq::new(fields.len(), |c: int| max2(fields[c].len(), col_content_width(cells, c)))
}

/// The column segments of a horizontal rule: for each column, `width + 2`
/// copies of the fill character followed by a closing `+`.
pub open spec fn rule_segs(ws: Seq<nat>, fill: char) -> Seq<char>
    decreases ws.len(),
{
    if ws.len() == 0 {
        Seq::empty()
    } else {
        rule_segs(ws.drop_last(), fill) + char_repeat(fill, (ws.last() + 2) as nat) + seq!['+']
    }
}

/// A full horizontal rule: `+` followed by one segment per column. A table
/// of zero columns keeps a minimal two-character rule.
pub open spec fn rule_line(ws: Seq<nat>, fill: char) -> Seq<char> {
    if ws.len() == 0 {
        seq!['+', fill]
    } else {
        seq!['+'] + rule_segs(ws, fill)
    }
}

/// How many spaces pad a cell to its column's width.
pub open spec fn pad_width(text: Seq<char>, w: nat) -> nat {
    if text.len() <= w {
        (w - text.len()) as nat
    } else {
        0
    }
}

/// The column segments of a text line: for each column, a space, the cell
/// text padded to the column width, a space, and a closing `|`.
pub open spec fn text_segs(texts: Seq<Seq<char>>, ws: Seq<nat>) -> Seq<char>
    decreases texts.len(),
{
    if texts.len() == 0 {
        Seq::empty()
    } else {
        text_segs(texts.drop_last(), ws.drop_last()) + seq![' '] + texts.last() + char_repeat(
            ' ',
            pad_width(texts.last(), ws.last()),
        ) + seq![' ', '|']
    }
}

/// A full text line (header or data row): `|` followed by one segment per
/// column. A table of zero columns keeps a minimal two-character line.
pub open spec fn text_line(texts: Seq<Seq<char>>, ws: Seq<nat>) -> Seq<char> {
    if texts.len() == 0 {
        seq!['|', ' ']
    } else {
        seq!['|'] + text_segs(texts, ws)
    }
}

/// Everything under the header separator: for each row in order, a newline,
/// the row's text line, a newline, and a closing `-` rule. Empty when the
/// table has no rows, so an empty table ends at the separator rule.
pub open spec fn body_block(cells: Seq<Seq<Seq<char>>>, ws: Seq<nat>) -> Seq<char>
    decreases cells.len(),
{
    if cells.len() == 0 {
        Seq::empty()
    } else {
        body_block(cells.drop_last(), ws) + seq!['\n'] + text_line(cells.last(), ws) + seq!['\n']
            + rule_line(ws, '-')
    }
}

/// The complete rendering: opening `-` rule, header line, `=` separator
/// rule, then every data row boxed by a trailing `-` rule. No trailing
/// newline.
pub open spec fn spec_render(fields: Seq<Seq<char>>, cells: Seq<Seq<Seq<char>>>) -> Seq<char> {
    let ws = table_widths(fields, cells);
    rule_line(ws, '-') + seq!['\n'] + text_line(fields, ws) + seq!['\n'] + rule_line(ws, '=')
        + body_block(cells, ws)
}

/// Appends `n` copies of the single character `piece` to `s`.
fn append_repeat(s: &mut String, piece: &str, n: usize)
    requires
        piece@.len() == 1,
    ensures
        final(s)@ == old(s)@ + char_repeat(piece@[0], n as nat),
{
    let mut k: usize = 0;
    while k < n
        invariant
            k <= n,
            piece@.len() == 1,
            s@ == old(s)@ + char_repeat(piece@[0], k as nat),
        decreases n - k,
    {
        s.append(piece);
        proof {
            assert(char_repeat(piece@[0], (k + 1) as nat) =~= char_repeat(piece@[0], k as nat)
                + piece@);
        }
        k += 1;
    }
    proof {
        assert(char_repeat(piece@[0], n as nat) =~= char_repeat(piece@[0], k as nat));
    }
}

/// Builds one horizontal rule for the given column widths.
fn build_rule_line(widths: &Vec<usize>, fill: &str) -> (s: String)
    requires
        fill@.len() == 1,
    ensures
        s@ == rule_line(nat_widths(widths@), fill@[0]),
{
    let mut s = String::from_str("+");
    proof {
        reveal_strlit("+");
        assert("+"@ =~= seq!['+']);
    }
    if widths.len() == 0 {
        s.append(fill);
        proof {
            assert(s@ =~= rule_line(nat_widths(widths@), fill@[0]));
        }
        return s;
    }
    let ghost ws = nat_widths(widths@);
    let mut c: usize = 0;
    while c < widths.len()
        invariant
            c <= widths.len(),
            fill@.len() == 1,
            ws == nat_widths(widths@),
            s@ == seq!['+'] + rule_segs(ws.take(c as int), fill@[0]),
        decreases widths.len() - c,
    {
        append_repeat(&mut s, fill, widths[c]);
        s.append(fill);
        s.append(fill);
        s.append("+");
        proof {
            let f = fill@[0];
            reveal_strlit("+");
            assert("+"@ =~= seq!['+']);
            assert(fill@ =~= seq![f]);
            assert(ws[c as int] == widths@[c as int] as nat);
            assert(ws.take(c + 1).drop_last() =~= ws.take(c as int));
            assert(ws.take(c + 1).last() == ws[c as int]);
            assert(char_repeat(f, (widths@[c as int] + 2) as nat) =~= char_repeat(
                f,
                widths@[c as int] as nat,
            ) + fill@ + fill@);
            assert(rule_segs(ws.take(c + 1), f) == rule_segs(ws.take(c as int), f) + char_repeat(
                f,
                (ws.take(c + 1).last() + 2) as nat,
            ) + seq!['+']);
            assert(s@ =~= seq!['+'] + rule_segs(ws.take(c + 1), f));
        }
        c += 1;
    }
    proof {
        assert(ws.take(widths.len() as int) =~= ws);
    }
    s
}

/// Builds one `|`-delimited text line, padding each cell with spaces to
/// its column's width.
fn build_text_line(texts: &Vec<String>, widths: &Vec<usize>) -> (s: String)
    requires
        texts@.len() == widths@.len(),
        forall|i: int| 0 <= i < texts@.len() ==> (#[trigger] texts@[i])@.len() <= widths@[i],
    ensures
        s@ == text_line(texts.deep_view(), nat_widths(widths@)),
{
    let mut s = String::from_str("|");
    proof {
        reveal_strlit("|");
        assert("|"@ =~= seq!['|']);
    }
    if texts.len() == 0 {
        s.append(" ");
        proof {
            reveal_strlit(" ");
            assert(s@ =~= text_line(texts.deep_view(), nat_widths(widths@)));
        }
        return s;
    }
    let ghost tv = texts.deep_view();
    let ghost ws = nat_widths(widths@);
    let mut c: usize = 0;
    while c < texts.len()
        invariant
            c <= texts.len(),
            texts@.len() == widths@.len(),
            forall|i: int| 0 <= i < texts@.len() ==> (#[trigger] texts@[i])@.len() <= widths@[i],
            tv == texts.deep_view(),
            ws == nat_widths(widths@),
            s@ == seq!['|'] + text_segs(tv.take(c as int), ws.take(c as int)),
        decreases texts.len() - c,
    {
        s.append(" ");
        s.append(texts[c].as_str());
        let cell_len = texts[c].as_str().unicode_len();
        proof {
            reveal_strlit(" ");
            assert(tv[c as int] == texts@[c as int]@);
        }
        append_repeat(&mut s, " ", widths[c] - cell_len);
        s.append(" ");
        s.append("|");
        proof {
            reveal_strlit(" ");
            reveal_strlit("|");
            assert(" "@ =~= seq![' ']);
            assert("|"@ =~= seq!['|']);
            assert(tv.take(c + 1).drop_last() =~= tv.take(c as int));
            assert(ws.take(c + 1).drop_last() =~= ws.take(c as int));
            assert(tv.take(c + 1).last() == tv[c as int]);
            assert(ws.take(c + 1).last() == ws[c as int]);
            assert(char_repeat(' ', (widths@[c as int] - cell_len) as nat) =~= char_repeat(
                ' ',
                pad_width(tv[c as int], ws[c as int]),
            ));
            assert(text_segs(tv.take(c + 1), ws.take(c + 1)) == text_segs(
                tv.take(c as int),
                ws.take(c as int),
            ) + seq![' '] + tv[c as int] + char_repeat(
                ' ',
                pad_width(tv[c as int], ws[c as int]),
            ) + seq![' ', '|']);
            assert(s@ =~= seq!['|'] + text_segs(tv.take(c + 1), ws.take(c + 1)));
        }
        c += 1;
    }
    proof {
        assert(tv.take(texts@.len() as int) =~= tv);
        assert(ws.take(texts@.len() as int) =~= ws);
    }
    s
}

/// Every cell of column `c` fits inside the column's content width.
pub proof fn lemma_col_width_bound(cells: Seq<Seq<Seq<char>>>, c: int, r: int)
    requires
        0 <= r < cells.len(),
    ensures
        cells[r][c].len() <= col_content_width(cells, c),
    decreases cells.len(),
{
    if r < cells.len() - 1 {
        lemma_col_width_bound(cells.drop_last(), c, r);
        assert(cells.drop_last()[r] == cells[r]);
    }
}

/// Computes the effective width of every column: the widest cell of the
/// column, or the field name's width when that is larger.
fn compute_widths(fields: &Vec<String>, cells: &Vec<Vec<String>>) -> (ws: Vec<usize>)
    requires
        forall|r: int| 0 <= r < cells@.len() ==> (#[trigger] cells@[r])@.len() == fields@.len(),
    ensures
        ws@.len() == fields@.len(),
        nat_widths(ws@) == table_widths(fields.deep_view(), cells.deep_view()),
{
    let ghost cv = cells.deep_view();
    let ghost fv = fields.deep_view();
    let mut sizes: Vec<usize> = Vec::new();
    let mut c: usize = 0;
    while c < fields.len()
        invariant
            c <= fields@.len(),
            sizes@.len() == c,
            forall|i: int| 0 <= i < c ==> sizes@[i] == 0,
        decreases fields@.len() - c,
    {
        sizes.push(0);
        c += 1;
    }
    let mut r: usize = 0;
    while r < cells.len()
        invariant
            r <= cells@.len(),
            cv == cells.deep_view(),
            sizes@.len() == fields@.len(),
            forall|i: int| 0 <= i < cells@.len() ==> (#[trigger] cells@[i])@.len() == fields@.len(),
            forall|i: int|
                0 <= i < sizes@.len() ==> sizes@[i] as nat == col_content_width(
                    cv.take(r as int),
                    i,
                ),
        decreases cells@.len() - r,
    {
        let row_len = cells[r].len();
        let mut j: usize = 0;
        while j < row_len
            invariant
                j <= row_len,
                r < cells@.len(),
                cv == cells.deep_view(),
                row_len == cells@[r as int]@.len(),
                sizes@.len() == fields@.len(),
                forall|i: int| 0 <= i < cells@.len() ==> (#[trigger] cells@[i])@.len()
                    == fields@.len(),
                forall|i: int|
                    0 <= i < j ==> sizes@[i] as nat == col_content_width(cv.take(r + 1), i),
                forall|i: int|
                    j <= i < sizes@.len() ==> sizes@[i] as nat == col_content_width(
                        cv.take(r as int),
                        i,
                    ),
            decreases row_len - j,
        {
            let cell_len = cells[r][j].as_str().unicode_len();
            proof {
                assert(cv[r as int] == cells@[r as int].deep_view());
                assert(cv[r as int][j as int] == cells@[r as int]@[j as int]@);
                assert(cv.take(r + 1).drop_last() =~= cv.take(r as int));
                assert(cv.take(r + 1).last() == cv[r as int]);
                assert(col_content_width(cv.take(r + 1), j as int) == max2(
                    col_content_width(cv.take(r as int), j as int),
                    cv[r as int][j as int].len(),
                ));
            }
            if sizes[j] < cell_len {
                sizes[j] = cell_len;
            }
            j += 1;
        }
        r += 1;
    }
    proof {
        assert(cv.take(cells@.len() as int) =~= cv);
    }
    let mut ws: Vec<usize> = Vec::new();
    let mut c2: usize = 0;
    while c2 < fields.len()
        invariant
            c2 <= fields@.len(),
            cv == cells.deep_view(),
            fv == fields.deep_view(),
            sizes@.len() == fields@.len(),
            forall|i: int| 0 <= i < sizes@.len() ==> sizes@[i] as nat == col_content_width(cv, i),
            ws@.len() == c2,
            forall|i: int|
                0 <= i < c2 ==> ws@[i] as nat == max2(fv[i].len(), col_content_width(cv, i)),
        decreases fields@.len() - c2,
    {
        let name_len = fields[c2].as_str().unicode_len();
        let sz = sizes[c2];
        proof {
            assert(fv[c2 as int] == fields@[c2 as int]@);
        }
        if name_len >= sz {
            ws.push(name_len);
        } else {
            ws.push(sz);
        }
        c2 += 1;
    }
    proof {
        assert(nat_widths(ws@) =~= table_widths(fv, cv));
    }
    ws
}

/// Renders the table whose header is `fields` and whose data rows are the
/// string projections in `cells`, each row holding one cell per field.
pub fn render_table(fields: &Vec<String>, cells: &Vec<Vec<String>>) -> (s: String)
    requires
        forall|r: int| 0 <= r < cells@.len() ==> (#[trigger] cells@[r])@.len() == fields@.len(),
    ensures
        s@ == spec_render(fields.deep_view(), cells.deep_view()),
{
    let ghost fv = fields.deep_view();
    let ghost cv = cells.deep_view();
    let widths = compute_widths(fields, cells);
    let ghost ws = nat_widths(widths@);
    proof {
        assert forall|i: int| 0 <= i < fields@.len() implies (#[trigger] fields@[i])@.len()
            <= widths@[i] by {
            assert(fv[i] == fields@[i]@);
            assert(ws[i] == max2(fv[i].len(), col_content_width(cv, i)));
        }
        assert forall|i: int, j: int|
            0 <= i < cells@.len() && 0 <= j < widths@.len() implies (
        #[trigger] cells@[i]@[j])@.len() <= widths@[j] by {
            lemma_col_width_bound(cv, j, i);
            assert(cv[i] == cells@[i].deep_view());
            assert(cv[i][j] == cells@[i]@[j]@);
            assert(ws[j] == max2(fv[j].len(), col_content_width(cv, j)));
        }
    }
    proof {
        reveal_strlit("-");
        reveal_strlit("=");
        assert("-"@ =~= seq!['-']);
        assert("="@ =~= seq!['=']);
    }
    let mut s = build_rule_line(&widths, "-");
    s.append("\n");
    let header = build_text_line(fields, &widths);
    s.append(header.as_str());
    s.append("\n");
    let sep = build_rule_line(&widths, "=");
    s.append(sep.as_str());
    proof {
        reveal_strlit("\n");
        assert("\n"@ =~= seq!['\n']);
        assert(s@ == rule_line(ws, '-') + seq!['\n'] + text_line(fv, ws) + seq!['\n'] + rule_line(
            ws,
            '=',
        ));
    }
    let ghost head = s@;
    let mut r: usize = 0;
    while r < cells.len()
        invariant
            r <= cells@.len(),
            cv == cells.deep_view(),
            ws == nat_widths(widths@),
            forall|i: int| 0 <= i < cells@.len() ==> (#[trigger] cells@[i])@.len()
                == widths@.len(),
            forall|i: int, j: int|
                0 <= i < cells@.len() && 0 <= j < widths@.len() ==> (
                #[trigger] cells@[i]@[j])@.len() <= widths@[j],
            s@ == head + body_block(cv.take(r as int), ws),
        decreases cells@.len() - r,
    {
        proof {
            reveal_strlit("-");
            assert("-"@ =~= seq!['-']);
            assert(cv[r as int] == cells@[r as int].deep_view());
            assert forall|j: int| 0 <= j < cells@[r as int]@.len() implies (
            #[trigger] cells@[r as int]@[j])@.len() <= widths@[j] by {}
        }
        s.append("\n");
        let line = build_text_line(&cells[r], &widths);
        s.append(line.as_str());
        s.append("\n");
        let rule = build_rule_line(&widths, "-");
        s.append(rule.as_str());
        proof {
            reveal_strlit("\n");
            assert("\n"@ =~= seq!['\n']);
            assert(cv[r as int] == cells@[r as int].deep_view());
            assert(cv.take(r + 1).drop_last() =~= cv.take(r as int));
            assert(cv.take(r + 1).last() == cv[r as int]);
            assert(s@ =~= head + body_block(cv.take(r + 1), ws));
        }
        r += 1;
    }
    proof {
        assert(cv.take(cells@.len() as int) =~= cv);
        assert(s@ =~= spec_render(fv, cv));
    }
    s
}

/// The header always fits: no rendered column is narrower than its field
/// name.
pub proof fn lemma_header_always_fits(fields: Seq<Seq<char>>, cells: Seq<Seq<Seq<char>>>, c: int)
    requires
        0 <= c < fields.len(),
    ensures
        table_widths(fields, cells)[c] >= fields[c].len(),
{
}

/// A column whose field name is at least as wide as every one of its cells
/// is rendered exactly as wide as the field name, and every cell of the
/// column is padded out to that width inside its text line.
pub proof fn lemma_header_width_governs(fields: Seq<Seq<char>>, cells: Seq<Seq<Seq<char>>>, c: int)
    requires
        0 <= c < fields.len(),
        forall|r: int| 0 <= r < cells.len() ==> (#[trigger] cells[r])[c].len() <= fields[c].len(),
    ensures
        table_widths(fields, cells)[c] == fields[c].len(),
        forall|r: int|
            0 <= r < cells.len() ==> pad_width(#[trigger] cells[r][c], table_widths(fields, cells)[c])
                == fields[c].len() - cells[r][c].len(),
{
    lemma_col_width_at_most(cells, c, fields[c].len());
}

/// When every cell of column `c` is at most `bound` wide, so is the
/// column's content width.
proof fn lemma_col_width_at_most(cells: Seq<Seq<Seq<char>>>, c: int, bound: nat)
    requires
        forall|r: int| 0 <= r < cells.len() ==> (#[trigger] cells[r])[c].len() <= bound,
    ensures
        col_content_width(cells, c) <= bound,
    decreases cells.len(),
{
    if cells.len() > 0 {
        lemma_col_width_at_most(cells.drop_last(), c, bound);
    }
}

/// A table with no rows renders as the opening rule, the header line and
/// the separator rule alone: no data line and no trailing rule follow the
/// separator.
pub proof fn lemma_render_empty_table(fields: Seq<Seq<char>>)
    ensures
        ({
            let ws = table_widths(fields, Seq::<Seq<Seq<char>>>::empty());
            spec_render(fields, Seq::<Seq<Seq<char>>>::empty()) == rule_line(ws, '-')
                + seq!['\n'] + text_line(fields, ws) + seq!['\n'] + rule_line(ws, '=')
        }),
{
    let ws = table_widths(fields, Seq::<Seq<Seq<char>>>::empty());
    assert(spec_render(fields, Seq::<Seq<Seq<char>>>::empty()) =~= rule_line(ws, '-')
        + seq!['\n'] + text_line(fields, ws) + seq!['\n'] + rule_line(ws, '='));
}

} // verus!
