use vstd::prelude::*;

verus! {

/// The length in bytes of the UTF-8 encoding of `s` (`str::len`).
pub open spec fn byte_len(s: Seq<char>) -> nat {
    vstd::utf8::encode_utf8(s).len()
}

/// `n` spaces.
pub open spec fn spaces(n: nat) -> Seq<char> {
    Seq::new(n, |i: int| ' ')
}

/// `s` padded with spaces to at least `w` characters, as `{:<w$}` (or,
/// when `right`, `{:>w$}`) formats it.
pub open spec fn padded(s: Seq<char>, w: nat, right: bool) -> Seq<char> {
    if s.len() >= w {
        s
    } else if right {
        spaces((w - s.len()) as nat) + s
    } else {
        s + spaces((w - s.len()) as nat)
    }
}

/// The widest byte length in column `c` of `rows`.
pub open spec fn col_width(rows: Seq<Seq<Seq<char>>>, c: int) -> nat
    decreases rows.len(),
{
    if rows.len() == 0 {
        0
    } else {
        let w = col_width(rows.drop_last(), c);
        let b = byte_len(rows.last()[c]);
        if b > w {
            b
        } else {
            w
        }
    }
}

/// One line of a table: every cell but the last padded to its column's
/// width, cells separated by two spaces.
pub open spec fn render_cells(cells: Seq<Seq<char>>, widths: Seq<nat>, right: Seq<bool>) -> Seq<char>
    decreases cells.len(),
{
    if cells.len() <= 1 {
        if cells.len() == 1 {
            cells[0]
        } else {
            Seq::empty()
        }
    } else {
        padded(cells[0], widths[0], right[0]) + "  "@ + render_cells(cells.drop_first(), widths.drop_first(), right.drop_first())
    }
}

/// The lines of a table whose rows are `rows`: each column as wide as its
/// widest cell in bytes.
pub open spec fn rendered(rows: Seq<Seq<Seq<char>>>, right: Seq<bool>) -> Seq<Seq<char>> {
    let widths = Seq::new(right.len(), |c: int| col_width(rows, c));
    rows.map_values(|cells: Seq<Seq<char>>| render_cells(cells, widths, right))
}

/// The byte length of `s`.
fn text_byte_len(s: &str) -> (n: usize)
    ensures
        n == byte_len(s@),
{
    s.as_bytes().len()
}

fn append_spaces(s: &mut String, n: usize)
    ensures
        final(s)@ == old(s)@ + spaces(n as nat),
{
    let mut i: usize = 0;
    assert(old(s)@ =~= old(s)@ + spaces(0));
    while i < n
        invariant
            i <= n,
            s@ == old(s)@ + spaces(i as nat),
        decreases n - i,
    {
        proof {
            reveal_strlit(" ");
        }
        s.append(" ");
        assert(s@ =~= old(s)@ + spaces((i + 1) as nat));
        i = i + 1;
    }
}

pub(crate) fn append_padded(line: &mut String, cell: &str, w: usize, right: bool)
    ensures
        final(line)@ == old(line)@ + padded(cell@, w as nat, right),
{
    let len = cell.unicode_len();
    if len >= w {
        line.append(cell);
        assert(line@ =~= old(line)@ + padded(cell@, w as nat, right));
    } else if right {
        append_spaces(line, w - len);
        line.append(cell);
        assert(line@ =~= old(line)@ + padded(cell@, w as nat, right));
    } else {
        line.append(cell);
        append_spaces(line, w - len);
        assert(line@ =~= old(line)@ + padded(cell@, w as nat, right));
    }
}

pub open spec fn cells_of(rows: Seq<Vec<String>>) -> Seq<Seq<Seq<char>>> {
    rows.map_values(|r: Vec<String>| r@.map_values(|s: String| s@))
}

/// Formats a table: each column padded to the byte length of its widest
/// cell (the last column is not padded), cells separated by two spaces,
/// and the columns marked in `right` aligned to the right.
pub fn render_table(rows: &Vec<Vec<String>>, right: &Vec<bool>) -> (r: Vec<String>)
    requires
        right@.len() > 0,
        forall|i: int| 0 <= i < rows@.len() ==> (#[trigger] rows@[i])@.len() == right@.len(),
    ensures
        r@.map_values(|s: String| s@) == rendered(cells_of(rows@), right@),
{
    let ghost cells = cells_of(rows@);
    let ncols = right.len();
    let nrows = rows.len();
    // Column widths.
    let mut widths: Vec<usize> = Vec::new();
    let mut c: usize = 0;
    while c < ncols
        invariant
            ncols == right@.len(),
            nrows == rows@.len(),
            cells == cells_of(rows@),
            forall|i: int| 0 <= i < rows@.len() ==> (#[trigger] rows@[i])@.len() == right@.len(),
            c <= ncols,
            widths@.len() == c,
            forall|k: int| 0 <= k < c ==> widths@[k] as nat == col_width(cells, k),
        decreases ncols - c,
    {
        let mut w: usize = 0;
        let mut i: usize = 0;
        assert(cells.take(0) =~= Seq::<Seq<Seq<char>>>::empty());
        while i < nrows
            invariant
                ncols == right@.len(),
                nrows == rows@.len(),
                cells == cells_of(rows@),
                forall|i: int| 0 <= i < rows@.len() ==> (#[trigger] rows@[i])@.len() == right@.len(),
                c < ncols,
                i <= nrows,
                w as nat == col_width(cells.take(i as int), c as int),
            decreases nrows - i,
        {
            assert(cells.take(i + 1).drop_last() =~= cells.take(i as int));
            assert(cells.take(i + 1).last()[c as int] == rows@[i as int]@[c as int]@);
            let b = text_byte_len(rows[i][c].as_str());
            if b > w {
                w = b;
            }
            i = i + 1;
        }
        assert(cells.take(nrows as int) =~= cells);
        widths.push(w);
        c = c + 1;
    }
    let ghost wv = Seq::new(right@.len(), |k: int| col_width(cells, k));
    assert(widths@.map_values(|x: usize| x as nat) =~= wv);
    // Lines.
    let mut out: Vec<String> = Vec::new();
    let mut i: usize = 0;
    while i < nrows
        invariant
            ncols == right@.len(),
            ncols > 0,
            nrows == rows@.len(),
            cells == cells_of(rows@),
            forall|i: int| 0 <= i < rows@.len() ==> (#[trigger] rows@[i])@.len() == right@.len(),
            widths@.len() == ncols,
            widths@.map_values(|x: usize| x as nat) == wv,
            wv == Seq::new(right@.len(), |k: int| col_width(cells, k)),
            i <= nrows,
            out@.map_values(|s: String| s@) == rendered(cells_of(rows@), right@).take(i as int),
        decreases nrows - i,
    {
        let row = &rows[i];
        let ghost rc = cells[i as int];
        assert(rc == row@.map_values(|s: String| s@));
        let mut line = String::new();
        let mut k: usize = 0;
        assert(rc.skip(0) =~= rc);
        assert(wv.skip(0) =~= wv);
        assert(right@.skip(0) =~= right@);
        assert(line@ + render_cells(rc, wv, right@) =~= render_cells(rc, wv, right@));
        while k + 1 < ncols
            invariant
                ncols == right@.len(),
                ncols > 0,
                row@.len() == ncols,
                rc == row@.map_values(|s: String| s@),
                widths@.len() == ncols,
                widths@.map_values(|x: usize| x as nat) == wv,
                wv.len() == ncols,
                k + 1 <= ncols,
                line@ + render_cells(rc.skip(k as int), wv.skip(k as int), right@.skip(k as int)) == render_cells(rc, wv, right@),
            decreases ncols - k,
        {
            let ghost before = line@;
            assert(widths@[k as int] as nat == wv[k as int]);
            append_padded(&mut line, row[k].as_str(), widths[k], right[k]);
            proof {
                let rs = rc.skip(k as int);
                assert(rs.drop_first() =~= rc.skip(k + 1));
                assert(wv.skip(k as int).drop_first() =~= wv.skip(k + 1));
                assert(right@.skip(k as int).drop_first() =~= right@.skip(k + 1));
                assert(rs[0] == row@[k as int]@);
            }
            line.append("  ");
            proof {
                let rs = rc.skip(k as int);
                assert(render_cells(rs, wv.skip(k as int), right@.skip(k as int)) == padded(rs[0], wv.skip(k as int)[0], right@.skip(k as int)[0]) + "  "@ + render_cells(rc.skip(k + 1), wv.skip(k + 1), right@.skip(k + 1)));
                assert(line@ =~= before + padded(rs[0], wv.skip(k as int)[0], right@.skip(k as int)[0]) + "  "@);
            }
            k = k + 1;
        }
        assert(rc.skip(k as int).len() == 1);
        line.append(row[k].as_str());
        assert(line@ =~= render_cells(rc, wv, right@));
        let ghost before = out@.map_values(|s: String| s@);
        out.push(line);
        assert(out@.map_values(|s: String| s@) =~= before.push(line@));
        assert(rendered(cells_of(rows@), right@).take(i + 1) =~= rendered(cells_of(rows@), right@).take(i as int).push(line@));
        i = i + 1;
    }
    assert(rendered(cells_of(rows@), right@).take(nrows as int) =~= rendered(cells_of(rows@), right@));
    out
}

} // verus!
