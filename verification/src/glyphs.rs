//! The 5×7 bitmap font of the emote-wheel labels and the lit cells of a
//! label, glyph by glyph.

use vstd::prelude::*;

use crate::text::chars_of;

verus! {

/// Rows of the 5×7 glyph of `c`, top row first, bit 4 the left column;
/// only the letters the labels use (A B E N O S V W Y) and space.
pub open spec fn glyph_rows(c: char) -> Option<Seq<u8>> {
    if c == ' ' {
        Some(seq![0u8, 0, 0, 0, 0, 0, 0])
    } else if c == 'A' {
        Some(seq![0b01110u8, 0b10001, 0b10001, 0b11111, 0b10001, 0b10001, 0b10001])
    } else if c == 'B' {
        Some(seq![0b11110u8, 0b10001, 0b10001, 0b11110, 0b10001, 0b10001, 0b11110])
    } else if c == 'E' {
        Some(seq![0b11111u8, 0b10000, 0b10000, 0b11110, 0b10000, 0b10000, 0b11111])
    } else if c == 'N' {
        Some(seq![0b10001u8, 0b11001, 0b10101, 0b10011, 0b10001, 0b10001, 0b10001])
    } else if c == 'O' {
        Some(seq![0b01110u8, 0b10001, 0b10001, 0b10001, 0b10001, 0b10001, 0b01110])
    } else if c == 'S' {
        Some(seq![0b01111u8, 0b10000, 0b10000, 0b01110, 0b00001, 0b00001, 0b11110])
    } else if c == 'V' {
        Some(seq![0b10001u8, 0b10001, 0b10001, 0b10001, 0b10001, 0b01010, 0b00100])
    } else if c == 'W' {
        Some(seq![0b10001u8, 0b10001, 0b10001, 0b10101, 0b10101, 0b10101, 0b01010])
    } else if c == 'Y' {
        Some(seq![0b10001u8, 0b10001, 0b01010, 0b00100, 0b00100, 0b00100, 0b00100])
    } else {
        None
    }
}

/// 5×7 uppercase bitmap font (rows top first, bit 4 the left column).
pub fn glyph5x7(c: char) -> (r: Option<[u8; 7]>)
    ensures
        match glyph_rows(c) {
            Some(rows) => r matches Some(a) && a@ == rows,
            None => r is None,
        },
{
    let r: Option<[u8; 7]> = if c == ' ' {
        Some([0, 0, 0, 0, 0, 0, 0])
    } else if c == 'A' {
        Some([0b01110, 0b10001, 0b10001, 0b11111, 0b10001, 0b10001, 0b10001])
    } else if c == 'B' {
        Some([0b11110, 0b10001, 0b10001, 0b11110, 0b10001, 0b10001, 0b11110])
    } else if c == 'E' {
        Some([0b11111, 0b10000, 0b10000, 0b11110, 0b10000, 0b10000, 0b11111])
    } else if c == 'N' {
        Some([0b10001, 0b11001, 0b10101, 0b10011, 0b10001, 0b10001, 0b10001])
    } else if c == 'O' {
        Some([0b01110, 0b10001, 0b10001, 0b10001, 0b10001, 0b10001, 0b01110])
    } else if c == 'S' {
        Some([0b01111, 0b10000, 0b10000, 0b01110, 0b00001, 0b00001, 0b11110])
    } else if c == 'V' {
        Some([0b10001, 0b10001, 0b10001, 0b10001, 0b10001, 0b01010, 0b00100])
    } else if c == 'W' {
        Some([0b10001, 0b10001, 0b10001, 0b10101, 0b10101, 0b10101, 0b01010])
    } else if c == 'Y' {
        Some([0b10001, 0b10001, 0b01010, 0b00100, 0b00100, 0b00100, 0b00100])
    } else {
        None
    };
    proof {
        if let Some(a) = r {
            assert(a@ =~= glyph_rows(c)->0);
        }
    }
    r
}

/// ASCII uppercase of a character.
pub open spec fn upper(c: char) -> char {
    if 'a' <= c <= 'z' {
        ((c as u32) - 32) as char
    } else {
        c
    }
}

/// The characters a label draws: uppercased, keeping those with a glyph.
pub open spec fn label_chars(text: Seq<char>) -> Seq<char> {
    text.filter_map(
        |c: char|
            if glyph_rows(upper(c)) is Some {
                Some(upper(c))
            } else {
                None
            },
    )
}

/// Whether column `col` (0 the left) of a glyph row is lit.
pub open spec fn row_lit(bits: u8, col: int) -> bool {
    bits & (16u8 >> (col as u8)) != 0
}

/// Whether cell `(row, col)` of glyph slot `k` of the label is lit.
pub open spec fn cell_lit(chars: Seq<char>, k: int, row: int, col: int) -> bool {
    &&& 0 <= k < chars.len()
    &&& 0 <= row < 7
    &&& 0 <= col < 5
    &&& glyph_rows(chars[k]) matches Some(rows) && row_lit(rows[row], col)
}

/// Lexicographic order of cells.
pub open spec fn cell_before(a: (usize, u8, u8), b: (usize, u8, u8)) -> bool {
    a.0 < b.0 || (a.0 == b.0 && (a.1 < b.1 || (a.1 == b.1 && a.2 < b.2)))
}

fn upper_char(c: char) -> (u: char)
    ensures
        u == upper(c),
{
    if 'a' <= c && c <= 'z' {
        let v = c as u32 - 32;
        let b = v as u8;
        b as char
    } else {
        c
    }
}

/// The glyph characters of a label, in order.
pub fn label_glyphs(text: &str) -> (r: Vec<char>)
    ensures
        r@ == label_chars(text@),
{
    let t = chars_of(text);
    let mut r: Vec<char> = Vec::new();
    let n = t.len();
    let mut i: usize = 0;
    while i < n
        invariant
            n == t@.len(),
            t@ == text@,
            i <= n,
            r@ == label_chars(t@.take(i as int)),
        decreases n - i,
    {
        let u = upper_char(t[i]);
        assert(t@.take(i + 1).drop_last() =~= t@.take(i as int));
        if glyph5x7(u).is_some() {
            r.push(u);
        }
        i = i + 1;
    }
    assert(t@.take(n as int) =~= t@);
    r
}

/// The lit cells of a label as `(glyph slot, row, column)`, slot by slot,
/// each glyph top row first and left to right. The caller places a quad per
/// cell.
pub fn label_cells(text: &str) -> (r: (Vec<char>, Vec<(usize, u8, u8)>))
    ensures
        r.0@ == label_chars(text@),
        forall|i: int|
            0 <= i < r.1@.len() ==> cell_lit(
                r.0@,
                (#[trigger] r.1@[i]).0 as int,
                r.1@[i].1 as int,
                r.1@[i].2 as int,
            ),
        forall|k: int, row: int, col: int|
            #![trigger cell_lit(r.0@, k, row, col)]
            cell_lit(r.0@, k, row, col) ==> r.1@.contains((k as usize, row as u8, col as u8)),
        forall|i: int, j: int| 0 <= i < j < r.1@.len() ==> cell_before(r.1@[i], r.1@[j]),
{
    let chars = label_glyphs(text);
    let ghost cs = chars@;
    let mut cells: Vec<(usize, u8, u8)> = Vec::new();
    let n = chars.len();
    let mut k: usize = 0;
    while k < n
        invariant
            n == cs.len(),
            chars@ == cs,
            cs == label_chars(text@),
            k <= n,
            forall|i: int|
                0 <= i < cells@.len() ==> cell_lit(
                    cs,
                    (#[trigger] cells@[i]).0 as int,
                    cells@[i].1 as int,
                    cells@[i].2 as int,
                ) && cells@[i].0 < k,
            forall|kk: int, row: int, col: int|
                #![trigger cell_lit(cs, kk, row, col)]
                cell_lit(cs, kk, row, col) && kk < k ==> cells@.contains(
                    (kk as usize, row as u8, col as u8),
                ),
            forall|i: int, j: int| 0 <= i < j < cells@.len() ==> cell_before(cells@[i], cells@[j]),
        decreases n - k,
    {
        let rows = match glyph5x7(chars[k]) {
            Some(rows) => rows,
            None => {
                proof {
                    lemma_label_chars_have_glyphs(text@, k as int);
                }
                [0u8; 7]
            },
        };
        proof {
            lemma_label_chars_have_glyphs(text@, k as int);
        }
        let ghost before = cells@;
        let mut row: u8 = 0;
        while row < 7
            invariant
                n == cs.len(),
                chars@ == cs,
                k < n,
                glyph_rows(cs[k as int]) == Some(rows@),
                row <= 7,
                before.len() <= cells@.len(),
                forall|i: int| 0 <= i < before.len() ==> cells@[i] == before[i],
                forall|i: int|
                    0 <= i < before.len() ==> cell_lit(
                        cs,
                        (#[trigger] before[i]).0 as int,
                        before[i].1 as int,
                        before[i].2 as int,
                    ) && before[i].0 < k,
                forall|i: int|
                    before.len() <= i < cells@.len() ==> cell_lit(
                        cs,
                        (#[trigger] cells@[i]).0 as int,
                        cells@[i].1 as int,
                        cells@[i].2 as int,
                    ) && cells@[i].0 == k && cells@[i].1 < row,
                forall|kk: int, rr: int, col: int|
                    #![trigger cell_lit(cs, kk, rr, col)]
                    cell_lit(cs, kk, rr, col) && (kk < k || (kk == k && rr < row)) ==> cells@.contains(
                        (kk as usize, rr as u8, col as u8),
                    ),
                forall|i: int, j: int|
                    0 <= i < j < cells@.len() ==> cell_before(cells@[i], cells@[j]),
            decreases 7 - row,
        {
            let bits = rows[row as usize];
            let mut col: u8 = 0;
            while col < 5
                invariant
                    n == cs.len(),
                    chars@ == cs,
                    k < n,
                    glyph_rows(cs[k as int]) == Some(rows@),
                    row < 7,
                    bits == rows@[row as int],
                    col <= 5,
                    before.len() <= cells@.len(),
                    forall|i: int| 0 <= i < before.len() ==> cells@[i] == before[i],
                    forall|i: int|
                        0 <= i < before.len() ==> cell_lit(
                            cs,
                            (#[trigger] before[i]).0 as int,
                            before[i].1 as int,
                            before[i].2 as int,
                        ) && before[i].0 < k,
                    forall|i: int|
                        before.len() <= i < cells@.len() ==> cell_lit(
                            cs,
                            (#[trigger] cells@[i]).0 as int,
                            cells@[i].1 as int,
                            cells@[i].2 as int,
                        ) && cells@[i].0 == k && (cells@[i].1 < row || (cells@[i].1 == row
                            && cells@[i].2 < col)),
                    forall|kk: int, rr: int, cc: int|
                        #![trigger cell_lit(cs, kk, rr, cc)]
                        cell_lit(cs, kk, rr, cc) && (kk < k || (kk == k && rr < row) || (kk == k
                            && rr == row && cc < col)) ==> cells@.contains(
                            (kk as usize, rr as u8, cc as u8),
                        ),
                    forall|i: int, j: int|
                        0 <= i < j < cells@.len() ==> cell_before(cells@[i], cells@[j]),
                decreases 5 - col,
            {
                if bits & (16u8 >> col) != 0 {
                    let ghost prev = cells@;
                    cells.push((k, row, col));
                    proof {
                        assert(cell_lit(cs, k as int, row as int, col as int));
                        assert(cells@[prev.len() as int] == (k, row, col));
                        assert forall|i: int, j: int|
                            0 <= i < j < cells@.len() implies cell_before(cells@[i], cells@[j]) by {
                            if j == prev.len() {
                                assert(cells@[i] == prev[i]);
                                if i < before.len() {
                                    assert(prev[i] == before[i]);
                                    assert(before[i].0 < k);
                                } else {
                                    assert(cell_lit(cs, prev[i].0 as int, prev[i].1 as int, prev[i].2 as int));
                                }
                            } else {
                                assert(cells@[i] == prev[i] && cells@[j] == prev[j]);
                            }
                        }
                        assert forall|kk: int, rr: int, cc: int|
                            #![trigger cell_lit(cs, kk, rr, cc)]
                            cell_lit(cs, kk, rr, cc) && (kk < k || (kk == k && rr < row) || (kk
                                == k && rr == row && cc < col + 1)) implies cells@.contains(
                            (kk as usize, rr as u8, cc as u8),
                        ) by {
                            if kk == k && rr == row && cc == col {
                                assert(cells@[prev.len() as int] == (kk as usize, rr as u8, cc as u8));
                            } else {
                                let w = choose|w: int|
                                    0 <= w < prev.len() && prev[w] == (kk as usize, rr as u8, cc as u8);
                                assert(cells@[w] == prev[w]);
                            }
                        }
                    }
                } else {
                    proof {
                        assert forall|kk: int, rr: int, cc: int|
                            #![trigger cell_lit(cs, kk, rr, cc)]
                            cell_lit(cs, kk, rr, cc) && (kk < k || (kk == k && rr < row) || (kk
                                == k && rr == row && cc < col + 1)) implies cells@.contains(
                            (kk as usize, rr as u8, cc as u8),
                        ) by {
                            if kk == k && rr == row && cc == col {
                                assert(!cell_lit(cs, kk, rr, cc));
                            }
                        }
                    }
                }
                col = col + 1;
            }
            row = row + 1;
        }
        assert forall|i: int| 0 <= i < cells@.len() implies cell_lit(
            cs,
            (#[trigger] cells@[i]).0 as int,
            cells@[i].1 as int,
            cells@[i].2 as int,
        ) && cells@[i].0 < k + 1 by {
            if i < before.len() {
                assert(cells@[i] == before[i]);
                assert(cell_lit(cs, before[i].0 as int, before[i].1 as int, before[i].2 as int));
            }
        }
        k = k + 1;
    }
    (chars, cells)
}

/// Every character a label keeps has a glyph.
proof fn lemma_label_chars_have_glyphs(text: Seq<char>, k: int)
    requires
        0 <= k < label_chars(text).len(),
    ensures
        glyph_rows(label_chars(text)[k]) is Some,
    decreases text.len(),
{
    let f = |c: char|
        if glyph_rows(upper(c)) is Some {
            Some(upper(c))
        } else {
            None
        };
    let rest = text.drop_last();
    if text.len() > 0 {
        if k < label_chars(rest).len() {
            lemma_label_chars_have_glyphs(rest, k);
            match f(text.last()) {
                Some(s) => {
                    assert(label_chars(text) == label_chars(rest) + seq![s]);
                },
                None => {},
            }
        }
    }
}

} // verus!
