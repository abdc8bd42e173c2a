//! The positioning board: a screen of rows and columns that CSI cursor
//! control writes and erases in place.

use vstd::prelude::*;
use crate::cursor::CursorPos;
use crate::data::{RichData, RichDataView};
use crate::piece::{LinePiece, LinePieceView};
use crate::text::{spaces, blank_run};

verus! {

/// A segment with new text; its first piece shows the same text.
pub open spec fn with_text(r: RichDataView, t: Seq<char>) -> RichDataView {
    RichDataView {
        text: t,
        line_pieces: if r.line_pieces.len() > 0 {
            r.line_pieces.update(0, LinePieceView { line: t, ..r.line_pieces[0] })
        } else {
            r.line_pieces
        },
        ..r
    }
}

/// Erasing a row from its start through column `col` (columns count from
/// 1), the segments of the row beginning after column `sum`: segments that
/// end at or before `col` turn into spaces; in the one that holds column
/// `col` strictly inside, its characters through `col` turn into spaces and
/// the rest stays; the segments after column `col` stay as they are.
pub open spec fn erase_to_start(segs: Seq<RichDataView>, col: int, sum: int) -> Seq<RichDataView>
    decreases segs.len(),
{
    if segs.len() == 0 || sum >= col {
        segs
    } else {
        let r = segs[0];
        let len = r.text.len() as int;
        if sum + len > col {
            seq![with_text(r, spaces((col - sum) as nat) + r.text.skip(col - sum))] + segs.skip(1)
        } else {
            seq![with_text(r, spaces(len as nat))] + erase_to_start(segs.skip(1), col, sum + len)
        }
    }
}

/// Erasing a row from column `col` (columns count from 1) to its end, the
/// segments of the row beginning after column `sum`: the segment that holds
/// column `col` keeps its characters before `col` and the rest turns into
/// spaces; the segments after it, or all of them where the row's first
/// segment starts after `col`, are removed.
pub open spec fn erase_to_end(segs: Seq<RichDataView>, col: int, sum: int) -> Seq<RichDataView>
    decreases segs.len(),
{
    if segs.len() == 0 {
        segs
    } else {
        let r = segs[0];
        let len = r.text.len() as int;
        if sum + len >= col {
            if col - 1 >= sum {
                seq![with_text(r, r.text.take(col - 1 - sum) + spaces((sum + len - col + 1) as nat))]
            } else {
                Seq::empty()
            }
        } else {
            seq![r] + erase_to_end(segs.skip(1), col, sum + len)
        }
    }
}

/// A blanked row: its first segment holds `cols` spaces and is the only
/// one left.
pub open spec fn blank_row(segs: Seq<RichDataView>, cols: nat) -> Seq<RichDataView> {
    if segs.len() > 0 {
        seq![with_text(segs[0], spaces(cols))]
    } else {
        segs
    }
}

/// The segments of one board row.
#[derive(Debug)]
pub struct BoardRow {
    /// Row number, from 1.
    pub row: usize,
    pub segments: Vec<RichData>,
}

/// The rows of the board that hold data, by increasing row number.
#[derive(Debug)]
pub struct LineDataMap {
    pub rows: Vec<BoardRow>,
}

/// The contents of a board row.
pub open spec fn row_view(r: BoardRow) -> (usize, Seq<RichDataView>) {
    (r.row, r.segments@.map_values(|d: RichData| d@))
}

impl View for LineDataMap {
    type V = Seq<(usize, Seq<RichDataView>)>;

    open spec fn view(&self) -> Seq<(usize, Seq<RichDataView>)> {
        self.rows@.map_values(|r: BoardRow| row_view(r))
    }
}

/// Whether the row numbers increase strictly.
pub open spec fn rows_sorted(rows: Seq<(usize, Seq<RichDataView>)>) -> bool {
    forall|i: int, j: int| 0 <= i < j < rows.len() ==> rows[i].0 < rows[j].0
}

/// The rows as a map from row number to segments.
pub open spec fn rows_map(rows: Seq<(usize, Seq<RichDataView>)>) -> Map<usize, Seq<RichDataView>> {
    Map::new(
        |k: usize| exists|i: int| 0 <= i < rows.len() && rows[i].0 == k,
        |k: usize| rows[choose|i: int| 0 <= i < rows.len() && rows[i].0 == k].1,
    )
}

impl LineDataMap {
    /// The board rows are kept by increasing row number.
    pub open spec fn wf(&self) -> bool {
        rows_sorted(self@)
    }

    /// The rows as a map from row number to segments.
    pub open spec fn map(&self) -> Map<usize, Seq<RichDataView>> {
        rows_map(self@)
    }

    /// An empty map.
    pub fn new() -> (m: LineDataMap)
        ensures
            m@ == Seq::<(usize, Seq<RichDataView>)>::empty(),
            m.wf(),
    {
        LineDataMap { rows: Vec::new() }
    }
}

/// The row erase applied to one vector of segments.
fn with_text_in_place(rd: &mut RichData, t: Vec<char>)
    ensures
        final(rd)@ == with_text(old(rd)@, t@),
{
    if rd.line_pieces.len() > 0 {
        let c = t.clone();
        assert(c@ =~= t@);
        rd.line_pieces[0].line = c;
        assert(rd.line_pieces@.map_values(|p: LinePiece| p@) =~= old(rd)@.line_pieces.update(0, LinePieceView { line: t@, ..old(rd)@.line_pieces[0] }));
    }
    rd.text = t;
}


/// The contents of segments.
pub open spec fn views(v: Seq<RichData>) -> Seq<RichDataView> {
    v.map_values(|d: RichData| d@)
}

/// Erases a row from its start to column `col`.
pub fn erase_row_to_start(segs: &mut Vec<RichData>, col: usize)
    ensures
        views(final(segs)@) == erase_to_start(views(old(segs)@), col as int, 0),
{
    let ghost old_v = views(segs@);
    let mut i: usize = 0;
    let mut sum: usize = 0;
    let n = segs.len();
    assert(old_v.skip(0) =~= old_v);
    assert(views(segs@).take(0) =~= Seq::<RichDataView>::empty());
    while i < n
        invariant
            n == segs@.len(),
            n == old_v.len(),
            old_v == views(old(segs)@),
            i <= n,
            sum <= col,
            views(segs@).skip(i as int) == old_v.skip(i as int),
            erase_to_start(old_v, col as int, 0) == views(segs@).take(i as int) + erase_to_start(old_v.skip(i as int), col as int, sum as int),
        decreases n - i,
    {
        let ghost before = views(segs@);
        assert(old_v.skip(i as int)[0] == old_v[i as int]);
        assert(old_v.skip(i as int).skip(1) =~= old_v.skip(i + 1));
        if sum >= col {
            proof {
                assert(views(segs@) =~= views(segs@).take(i as int) + views(segs@).skip(i as int));
            }
            return;
        }
        let chars_len = segs[i].text.len();
        assert(before[i as int] == old_v[i as int]) by {
            assert(before.skip(i as int)[0] == before[i as int]);
        }
        if chars_len > col - sum {
            let sub_char_len = col - sum;
            let mut t = blank_run(sub_char_len);
            let mut k = sub_char_len;
            while k < chars_len
                invariant
                    sub_char_len <= k <= chars_len,
                    chars_len == segs@[i as int].text@.len(),
                    i < segs@.len(),
                    t@ == spaces(sub_char_len as nat) + segs@[i as int].text@.subrange(sub_char_len as int, k as int),
                decreases chars_len - k,
            {
                t.push(segs[i].text[k]);
                k = k + 1;
                assert(t@ =~= spaces(sub_char_len as nat) + segs@[i as int].text@.subrange(sub_char_len as int, k as int));
            }
            assert(t@ =~= spaces((col - sum) as nat) + old_v[i as int].text.skip(col - sum));
            with_text_in_place(&mut segs[i], t);
            proof {
                let after = views(segs@);
                assert(after =~= before.update(i as int, with_text(old_v[i as int], t@)));
                assert(after.take(i as int) =~= before.take(i as int));
                assert(after.skip(i as int + 1) =~= old_v.skip(i + 1));
                assert(after =~= after.take(i as int) + seq![with_text(old_v[i as int], t@)] + after.skip(i as int + 1));
                assert(erase_to_start(old_v.skip(i as int), col as int, sum as int) == seq![with_text(old_v[i as int], t@)] + old_v.skip(i as int).skip(1));
                assert(after =~= erase_to_start(old_v, col as int, 0));
            }
            return;
        } else {
            let t = blank_run(chars_len);
            with_text_in_place(&mut segs[i], t);
            let ghost next_sum: int = sum + chars_len;
            proof {
                let after = views(segs@);
                assert(after =~= before.update(i as int, with_text(old_v[i as int], spaces(chars_len as nat))));
                assert(after.take(i as int + 1) =~= before.take(i as int).push(with_text(old_v[i as int], spaces(chars_len as nat))));
                assert(after.skip(i as int + 1) =~= old_v.skip(i + 1));
                assert(erase_to_start(old_v.skip(i as int), col as int, sum as int) == seq![with_text(old_v[i as int], spaces(chars_len as nat))] + erase_to_start(old_v.skip(i + 1), col as int, next_sum));
            }
            sum = sum + chars_len;
            i = i + 1;
        }
    }
    proof {
        assert(old_v.skip(n as int) =~= Seq::<RichDataView>::empty());
        assert(views(segs@).take(n as int) =~= views(segs@));
    }
}

/// Erases a row from column `col` to its end.
pub fn erase_row_to_end(segs: &mut Vec<RichData>, col: usize)
    ensures
        views(final(segs)@) == erase_to_end(views(old(segs)@), col as int, 0),
{
    let ghost old_v = views(segs@);
    let mut i: usize = 0;
    let mut sum: usize = 0;
    let n = segs.len();
    assert(old_v.skip(0) =~= old_v);
    assert(views(segs@).take(0) =~= Seq::<RichDataView>::empty());
    while i < n
        invariant
            n == segs@.len(),
            n == old_v.len(),
            old_v == views(old(segs)@),
            i <= n,
            sum <= col,
            views(segs@).skip(i as int) == old_v.skip(i as int),
            erase_to_end(old_v, col as int, 0) == views(segs@).take(i as int) + erase_to_end(old_v.skip(i as int), col as int, sum as int),
        decreases n - i,
    {
        let ghost before = views(segs@);
        assert(old_v.skip(i as int)[0] == old_v[i as int]);
        assert(old_v.skip(i as int).skip(1) =~= old_v.skip(i + 1));
        assert(before[i as int] == old_v[i as int]) by {
            assert(before.skip(i as int)[0] == before[i as int]);
        }
        let char_len = segs[i].text.len();
        if char_len >= col - sum && (col == 0 || col - 1 < sum) {
            segs.truncate(i);
            proof {
                let after = views(segs@);
                assert(after =~= before.take(i as int));
                assert(erase_to_end(old_v.skip(i as int), col as int, sum as int) =~= Seq::<RichDataView>::empty());
                assert(after =~= erase_to_end(old_v, col as int, 0));
            }
            return;
        } else if char_len >= col - sum {
            let keep = col - 1 - sum;
            let mut t: Vec<char> = Vec::new();
            let mut k: usize = 0;
            while k < keep
                invariant
                    k <= keep < char_len,
                    char_len == segs@[i as int].text@.len(),
                    i < segs@.len(),
                    t@ == segs@[i as int].text@.subrange(0, k as int),
                decreases keep - k,
            {
                t.push(segs[i].text[k]);
                k = k + 1;
                assert(t@ =~= segs@[i as int].text@.subrange(0, k as int));
            }
            let tail = blank_run(char_len - keep);
            let mut j: usize = 0;
            let ghost head = t@;
            while j < tail.len()
                invariant
                    j <= tail@.len(),
                    t@ == head + tail@.subrange(0, j as int),
                decreases tail@.len() - j,
            {
                t.push(tail[j]);
                j = j + 1;
                assert(t@ =~= head + tail@.subrange(0, j as int));
            }
            assert(t@ =~= old_v[i as int].text.take(col - 1 - sum) + spaces((sum + char_len - col + 1) as nat));
            with_text_in_place(&mut segs[i], t);
            segs.truncate(i + 1);
            proof {
                let after = views(segs@);
                assert(after =~= before.take(i as int).push(with_text(old_v[i as int], t@)));
                assert(erase_to_end(old_v.skip(i as int), col as int, sum as int) =~= seq![with_text(old_v[i as int], t@)]);
                assert(after =~= erase_to_end(old_v, col as int, 0));
            }
            return;
        } else {
            proof {
                assert(before.take(i as int + 1) =~= before.take(i as int).push(old_v[i as int]));
                assert(before.skip(i as int + 1) =~= old_v.skip(i + 1));
            }
            sum = sum + char_len;
            i = i + 1;
        }
    }
    proof {
        assert(old_v.skip(n as int) =~= Seq::<RichDataView>::empty());
        assert(views(segs@).take(n as int) =~= views(segs@));
    }
}

/// Blanks a row: its first segment gets `cols` spaces and is the only one
/// left.
pub fn blank_row_in_place(segs: &mut Vec<RichData>, cols: usize)
    ensures
        views(final(segs)@) == blank_row(views(old(segs)@), cols as nat),
{
    if segs.len() > 0 {
        let t = blank_run(cols);
        with_text_in_place(&mut segs[0], t);
        segs.truncate(1);
        assert(views(segs@) =~= blank_row(views(old(segs)@), cols as nat));
    }
}

/// What an erase does to one row of the board.
#[derive(Debug, Clone, Copy, PartialEq, Eq, Structural)]
pub enum RowErase {
    /// The row stays as it is.
    Keep,
    /// From the start of the row to the cursor column.
    ToStart,
    /// From the cursor column to the end of the row.
    ToEnd,
    /// All segments of the row are removed.
    Clear,
    /// The row becomes one blank segment.
    Blank,
}

/// The segments of a row after the erase `op`.
pub open spec fn row_erased(op: RowErase, segs: Seq<RichDataView>, col: int, cols: nat) -> Seq<RichDataView> {
    match op {
        RowErase::Keep => segs,
        RowErase::ToStart => erase_to_start(segs, col, 0),
        RowErase::ToEnd => erase_to_end(segs, col, 0),
        RowErase::Clear => Seq::empty(),
        RowErase::Blank => blank_row(segs, cols),
    }
}

/// Applies the erase `op` to one row.
fn erase_row(segs: &mut Vec<RichData>, op: RowErase, col: usize, cols: usize)
    ensures
        views(final(segs)@) == row_erased(op, views(old(segs)@), col as int, cols as nat),
{
    match op {
        RowErase::Keep => {},
        RowErase::ToStart => erase_row_to_start(segs, col),
        RowErase::ToEnd => erase_row_to_end(segs, col),
        RowErase::Clear => {
            segs.clear();
            assert(views(segs@) =~= Seq::<RichDataView>::empty());
        },
        RowErase::Blank => blank_row_in_place(segs, cols),
    }
}

/// The erase of each row when erasing in the line of the cursor at
/// (`row`, `col`): mode 1 erases to the start of the line, mode 2 the whole
/// line, any other mode to its end, where at column 1 the line loses all
/// its segments.
pub open spec fn line_erase_op(mode: u8, row: usize, col: usize, k: usize) -> RowErase {
    if k != row {
        RowErase::Keep
    } else if mode == 1 {
        RowErase::ToStart
    } else if mode == 2 {
        RowErase::Blank
    } else if col == 1 {
        RowErase::Clear
    } else {
        RowErase::ToEnd
    }
}

/// The erase of each row when erasing in the display with the cursor at
/// (`row`, `col`) on a board of `max_rows` rows: mode 1 erases the cursor
/// row to its start and blanks the rows above it, modes 2 and 3 blank every
/// row of the board, any other mode erases the cursor row to its end and
/// blanks the rows below it.
pub open spec fn display_erase_op(mode: u8, row: usize, max_rows: usize, k: usize) -> RowErase {
    if mode == 1 {
        if k == row {
            RowErase::ToStart
        } else if 1 <= k < row {
            RowErase::Blank
        } else {
            RowErase::Keep
        }
    } else if mode == 2 || mode == 3 {
        if 1 <= k <= max_rows {
            RowErase::Blank
        } else {
            RowErase::Keep
        }
    } else {
        if k == row {
            RowErase::ToEnd
        } else if row < k <= max_rows {
            RowErase::Blank
        } else {
            RowErase::Keep
        }
    }
}

/// The rows after each has been erased as `op` says for its number.
pub open spec fn rows_erased(rows: Seq<(usize, Seq<RichDataView>)>, op: spec_fn(usize) -> RowErase, col: int, cols: nat) -> Seq<(usize, Seq<RichDataView>)> {
    rows.map_values(|e: (usize, Seq<RichDataView>)| (e.0, row_erased(op(e.0), e.1, col, cols)))
}

/// The bottom of a board of `rows` rows of height `line_height` with
/// `line_space` between rows, starting at `top_y`.
pub open spec fn board_bottom(top_y: int, rows: int, line_height: int, line_space: int) -> int {
    top_y + rows * line_height + line_space * (rows - 1)
}

/// A board that CSI cursor control writes in place: rows and columns,
/// where it stands, and the data of each row.
#[derive(Debug)]
pub struct ReWriteBoard {
    /// Number of rows.
    pub max_rows: usize,
    /// Number of columns.
    pub max_cols: usize,
    /// Top of the board, relative to the panel.
    pub top_y: usize,
    /// Bottom of the board, relative to the panel.
    pub bottom_y: usize,
    /// Standard row height.
    pub line_height: usize,
    /// Space between rows.
    pub line_space: usize,
    /// The data of each row, by row number.
    pub line_data_map: LineDataMap,
    pub cursor_pos: CursorPos,
}

impl ReWriteBoard {
    /// The row data are kept by increasing row number.
    pub open spec fn wf(&self) -> bool {
        self.line_data_map.wf()
    }

    /// An empty board of `max_rows` rows and `max_cols` columns with the
    /// cursor in its top left corner.
    pub fn new(max_rows: usize, max_cols: usize, top_y: usize, line_height: usize, line_space: usize) -> (b: ReWriteBoard)
        requires
            max_rows >= 1,
            board_bottom(top_y as int, max_rows as int, line_height as int, line_space as int) <= usize::MAX,
        ensures
            b.wf(),
            b.max_rows == max_rows,
            b.max_cols == max_cols,
            b.top_y == top_y,
            b.bottom_y == board_bottom(top_y as int, max_rows as int, line_height as int, line_space as int),
            b.line_height == line_height,
            b.line_space == line_space,
            b.line_data_map@ == Seq::<(usize, Seq<RichDataView>)>::empty(),
            b.cursor_pos == CursorPos::spec_new(1, 1, max_rows, max_cols),
    {
        proof {
            lemma_board_bottom_parts(top_y as int, max_rows as int, line_height as int, line_space as int);
        }
        let bottom_y = top_y + max_rows * line_height + line_space * (max_rows - 1);
        ReWriteBoard {
            max_rows,
            max_cols,
            top_y,
            bottom_y,
            line_height,
            line_space,
            line_data_map: LineDataMap::new(),
            cursor_pos: CursorPos::new(1, 1, max_rows, max_cols),
        }
    }

    /// Gives the board `rows` rows and `cols` columns; its bottom follows.
    pub fn resize(&mut self, rows: usize, cols: usize)
        requires
            rows >= 1,
            board_bottom(old(self).top_y as int, rows as int, old(self).line_height as int, old(self).line_space as int) <= usize::MAX,
        ensures
            *final(self) == (ReWriteBoard {
                max_rows: rows,
                max_cols: cols,
                bottom_y: board_bottom(old(self).top_y as int, rows as int, old(self).line_height as int, old(self).line_space as int) as usize,
                ..*old(self)
            }),
    {
        proof {
            lemma_board_bottom_parts(self.top_y as int, rows as int, self.line_height as int, self.line_space as int);
        }
        self.max_rows = rows;
        self.max_cols = cols;
        self.bottom_y = self.top_y + rows * self.line_height + self.line_space * (rows - 1);
    }

    /// Erases in the line of the cursor: mode 1 from the start of the line
    /// to the cursor, mode 2 the whole line (it keeps one segment of blanks
    /// as wide as the board), any other mode from the cursor to the end of
    /// the line (from column 1 the line loses all its segments).
    pub fn erase_in_line(&mut self, erase_mode: u8)
        requires
            old(self).wf(),
        ensures
            final(self).wf(),
            final(self).line_data_map@ == rows_erased(old(self).line_data_map@,
                |k: usize| line_erase_op(erase_mode, old(self).cursor_pos.n, old(self).cursor_pos.m, k),
                old(self).cursor_pos.m as int, old(self).max_cols as nat),
            final(self).cursor_pos == old(self).cursor_pos,
            final(self).max_rows == old(self).max_rows,
            final(self).max_cols == old(self).max_cols,
            final(self).top_y == old(self).top_y,
            final(self).bottom_y == old(self).bottom_y,
            final(self).line_height == old(self).line_height,
            final(self).line_space == old(self).line_space,
    {
        let (row, col) = self.cursor_pos.get();
        let ghost op = |k: usize| line_erase_op(erase_mode, row, col, k);
        let n = self.line_data_map.rows.len();
        let mut i: usize = 0;
        while i < n
            invariant
                n == self.line_data_map.rows@.len(),
                n == old(self).line_data_map@.len(),
                i <= n,
                forall|j: int| 0 <= j < n ==> #[trigger] self.line_data_map.rows@[j].row == old(self).line_data_map.rows@[j].row,
                forall|j: int| 0 <= j < i ==> #[trigger] row_view(self.line_data_map.rows@[j]).1
                    == row_erased(op(old(self).line_data_map.rows@[j].row), row_view(old(self).line_data_map.rows@[j]).1, col as int, self.max_cols as nat),
                forall|j: int| i <= j < n ==> #[trigger] self.line_data_map.rows@[j] == old(self).line_data_map.rows@[j],
                self.cursor_pos == old(self).cursor_pos,
                self.max_cols == old(self).max_cols,
                self.max_rows == old(self).max_rows,
                self.top_y == old(self).top_y,
                self.bottom_y == old(self).bottom_y,
                self.line_height == old(self).line_height,
                self.line_space == old(self).line_space,
                row == self.cursor_pos.n,
                col == self.cursor_pos.m,
                op == (|k: usize| line_erase_op(erase_mode, row, col, k)),
            decreases n - i,
        {
            let k = self.line_data_map.rows[i].row;
            let kind = if k != row {
                RowErase::Keep
            } else if erase_mode == 1 {
                RowErase::ToStart
            } else if erase_mode == 2 {
                RowErase::Blank
            } else if col == 1 {
                RowErase::Clear
            } else {
                RowErase::ToEnd
            };
            let cols = self.max_cols;
            let ghost old_segs = views(self.line_data_map.rows@[i as int].segments@);
            erase_row(&mut self.line_data_map.rows[i].segments, kind, col, cols);
            proof {
                assert(kind == op(k));
                assert(old_segs == row_view(old(self).line_data_map.rows@[i as int]).1);
                assert(row_view(self.line_data_map.rows@[i as int]).1 == views(self.line_data_map.rows@[i as int].segments@));
            }
            i = i + 1;
        }
        proof {
            lemma_rows_erased(old(self).line_data_map, self.line_data_map, op, col as int, self.max_cols as nat);
        }
    }

    /// Erases in the display: mode 1 from the cursor back to the top left
    /// corner, modes 2 and 3 the whole board, any other mode from the
    /// cursor to the bottom right corner. Rows erased whole keep one segment
    /// of blanks as wide as the board.
    pub fn erase_in_display(&mut self, erase_mode: u8)
        requires
            old(self).wf(),
        ensures
            final(self).wf(),
            final(self).line_data_map@ == rows_erased(old(self).line_data_map@,
                |k: usize| display_erase_op(erase_mode, old(self).cursor_pos.n, old(self).max_rows, k),
                old(self).cursor_pos.m as int, old(self).max_cols as nat),
            final(self).cursor_pos == old(self).cursor_pos,
            final(self).max_rows == old(self).max_rows,
            final(self).max_cols == old(self).max_cols,
            final(self).top_y == old(self).top_y,
            final(self).bottom_y == old(self).bottom_y,
            final(self).line_height == old(self).line_height,
            final(self).line_space == old(self).line_space,
    {
        let (row, col) = self.cursor_pos.get();
        let max_rows = self.max_rows;
        let ghost op = |k: usize| display_erase_op(erase_mode, row, max_rows, k);
        let n = self.line_data_map.rows.len();
        let mut i: usize = 0;
        while i < n
            invariant
                n == self.line_data_map.rows@.len(),
                n == old(self).line_data_map@.len(),
                i <= n,
                forall|j: int| 0 <= j < n ==> #[trigger] self.line_data_map.rows@[j].row == old(self).line_data_map.rows@[j].row,
                forall|j: int| 0 <= j < i ==> #[trigger] row_view(self.line_data_map.rows@[j]).1
                    == row_erased(op(old(self).line_data_map.rows@[j].row), row_view(old(self).line_data_map.rows@[j]).1, col as int, self.max_cols as nat),
                forall|j: int| i <= j < n ==> #[trigger] self.line_data_map.rows@[j] == old(self).line_data_map.rows@[j],
                self.cursor_pos == old(self).cursor_pos,
                self.max_cols == old(self).max_cols,
                self.max_rows == old(self).max_rows,
                self.top_y == old(self).top_y,
                self.bottom_y == old(self).bottom_y,
                self.line_height == old(self).line_height,
                self.line_space == old(self).line_space,
                row == self.cursor_pos.n,
                col == self.cursor_pos.m,
                max_rows == self.max_rows,
                op == (|k: usize| display_erase_op(erase_mode, row, max_rows, k)),
            decreases n - i,
        {
            let k = self.line_data_map.rows[i].row;
            let kind = if erase_mode == 1 {
                if k == row {
                    RowErase::ToStart
                } else if 1 <= k && k < row {
                    RowErase::Blank
                } else {
                    RowErase::Keep
                }
            } else if erase_mode == 2 || erase_mode == 3 {
                if 1 <= k && k <= max_rows {
                    RowErase::Blank
                } else {
                    RowErase::Keep
                }
            } else {
                if k == row {
                    RowErase::ToEnd
                } else if row < k && k <= max_rows {
                    RowErase::Blank
                } else {
                    RowErase::Keep
                }
            };
            let cols = self.max_cols;
            let ghost old_segs = views(self.line_data_map.rows@[i as int].segments@);
            erase_row(&mut self.line_data_map.rows[i].segments, kind, col, cols);
            proof {
                assert(kind == op(k));
                assert(old_segs == row_view(old(self).line_data_map.rows@[i as int]).1);
                assert(row_view(self.line_data_map.rows@[i as int]).1 == views(self.line_data_map.rows@[i as int].segments@));
            }
            i = i + 1;
        }
        proof {
            lemma_rows_erased(old(self).line_data_map, self.line_data_map, op, col as int, self.max_cols as nat);
        }
    }
}

/// The parts of the bottom of a board each fit where the whole does.
proof fn lemma_board_bottom_parts(top_y: int, rows: int, line_height: int, line_space: int)
    requires
        rows >= 1,
        top_y >= 0,
        line_height >= 0,
        line_space >= 0,
    ensures
        rows * line_height >= 0,
        line_space * (rows - 1) >= 0,
        top_y + rows * line_height <= board_bottom(top_y, rows, line_height, line_space),
        rows * line_height <= board_bottom(top_y, rows, line_height, line_space),
        line_space * (rows - 1) <= board_bottom(top_y, rows, line_height, line_space),
{
    assert(rows * line_height >= 0) by (nonlinear_arith)
        requires rows >= 1, line_height >= 0;
    assert(line_space * (rows - 1) >= 0) by (nonlinear_arith)
        requires rows >= 1, line_space >= 0;
}

/// Rows whose numbers stayed and whose segments were each erased as `op`
/// says make the erased view, and stay sorted.
proof fn lemma_rows_erased(before: LineDataMap, after: LineDataMap, op: spec_fn(usize) -> RowErase, col: int, cols: nat)
    requires
        before.wf(),
        after.rows@.len() == before.rows@.len(),
        forall|j: int| 0 <= j < before.rows@.len() ==> #[trigger] after.rows@[j].row == before.rows@[j].row,
        forall|j: int| 0 <= j < before.rows@.len() ==> #[trigger] row_view(after.rows@[j]).1
            == row_erased(op(before.rows@[j].row), row_view(before.rows@[j]).1, col, cols),
    ensures
        after.wf(),
        after@ == rows_erased(before@, op, col, cols),
{
    assert forall|j: int| 0 <= j < after@.len() implies #[trigger] after@[j] == rows_erased(before@, op, col, cols)[j] by {
        assert(after.rows@[j].row == before.rows@[j].row);
        assert(row_view(after.rows@[j]).1 == row_erased(op(before.rows@[j].row), row_view(before.rows@[j]).1, col, cols));
    }
    assert(after@ =~= rows_erased(before@, op, col, cols));
    assert forall|i: int, j: int| 0 <= i < j < after@.len() implies after@[i].0 < after@[j].0 by {
        assert(after.rows@[i].row == before.rows@[i].row);
        assert(after.rows@[j].row == before.rows@[j].row);
        assert(before@[i].0 < before@[j].0);
    }
}

/// The length of the first line of `text` ended by CR LF, that ending
/// included, or none where no CR LF follows.
pub open spec fn crlf_line_len(text: Seq<char>, i: int) -> Option<int>
    decreases text.len() - i,
{
    if i + 1 >= text.len() {
        None
    } else if text[i] == '\r' && text[i + 1] == '\n' {
        Some(i + 2)
    } else {
        crlf_line_len(text, i + 1)
    }
}

/// `text` cut after every CR LF; the rest after the last one, where there
/// is any, is the last line.
pub open spec fn split_crlf(text: Seq<char>) -> Seq<Seq<char>>
    decreases text.len(),
{
    match crlf_line_len(text, 0) {
        Some(k) => if 0 < k <= text.len() {
            seq![text.take(k)] + split_crlf(text.skip(k))
        } else {
            Seq::empty()
        },
        None => if text.len() == 0 { Seq::empty() } else { seq![text] },
    }
}

/// `text` without its carriage returns.
pub open spec fn without_cr(text: Seq<char>) -> Seq<char> {
    text.filter(|c: char| c != '\r')
}

/// The lines of board text: cut after every CR LF, without carriage
/// returns.
pub open spec fn board_lines(text: Seq<char>) -> Seq<Seq<char>> {
    split_crlf(text).map_values(|l: Seq<char>| without_cr(l))
}

/// Whether a character is white space (the Unicode `White_Space` property).
pub open spec fn is_white(c: char) -> bool {
    ||| c == '\t' || c == '\n' || c == '\u{0B}' || c == '\u{0C}' || c == '\r' || c == ' '
    ||| c == '\u{85}' || c == '\u{A0}' || c == '\u{1680}'
    ||| ('\u{2000}' <= c && c <= '\u{200A}')
    ||| c == '\u{2028}' || c == '\u{2029}' || c == '\u{202F}' || c == '\u{205F}' || c == '\u{3000}'
}

/// Whether a text holds nothing but white space.
pub open spec fn is_blank(text: Seq<char>) -> bool {
    forall|i: int| 0 <= i < text.len() ==> is_white(#[trigger] text[i])
}

/// Whether a character is white space.
fn is_white_exec(c: char) -> (b: bool)
    ensures
        b == is_white(c),
{
    c == '\t' || c == '\n' || c == '\u{0B}' || c == '\u{0C}' || c == '\r' || c == ' '
        || c == '\u{85}' || c == '\u{A0}' || c == '\u{1680}'
        || ('\u{2000}' <= c && c <= '\u{200A}')
        || c == '\u{2028}' || c == '\u{2029}' || c == '\u{202F}' || c == '\u{205F}' || c == '\u{3000}'
}

/// Whether a text holds nothing but white space.
pub fn is_blank_text(text: &Vec<char>) -> (b: bool)
    ensures
        b == is_blank(text@),
{
    let mut i: usize = 0;
    while i < text.len()
        invariant
            i <= text@.len(),
            forall|k: int| 0 <= k < i ==> is_white(#[trigger] text@[k]),
        decreases text@.len() - i,
    {
        if !is_white_exec(text[i]) {
            return false;
        }
        i = i + 1;
    }
    true
}

/// The length of the first line ended by CR LF from position `i` on.
fn find_crlf(text: &Vec<char>, i: usize) -> (r: Option<usize>)
    requires
        i <= text@.len(),
    ensures
        match r {
            Some(k) => crlf_line_len(text@, i as int) == Some(k as int) && i + 2 <= k <= text@.len(),
            None => crlf_line_len(text@, i as int) is None,
        },
    decreases text@.len() - i,
{
    let mut j = i;
    while text.len() - j > 1
        invariant
            i <= j <= text@.len(),
            crlf_line_len(text@, i as int) == crlf_line_len(text@, j as int),
        decreases text@.len() - j,
    {
        if text[j] == '\r' && text[j + 1] == '\n' {
            return Some(j + 2);
        }
        j = j + 1;
    }
    None
}

/// The characters of `text` from `a` to `b`, without carriage returns.
fn copy_without_cr(text: &Vec<char>, a: usize, b: usize) -> (r: Vec<char>)
    requires
        a <= b <= text@.len(),
    ensures
        r@ == without_cr(text@.subrange(a as int, b as int)),
{
    let mut r: Vec<char> = Vec::new();
    let mut k = a;
    while k < b
        invariant
            a <= k <= b <= text@.len(),
            r@ == without_cr(text@.subrange(a as int, k as int)),
        decreases b - k,
    {
        let c = text[k];
        proof {
            let s0 = text@.subrange(a as int, k as int);
            let s1 = text@.subrange(a as int, k + 1);
            assert(s1 =~= s0.push(c));
            reveal(Seq::filter);
            assert(s1.drop_last() =~= s0);
            assert(s1.last() == c);
        }
        if c != '\r' {
            r.push(c);
        }
        k = k + 1;
    }
    r
}

/// The lines of board text, as `board_lines` says.
pub fn split_board_lines(text: &Vec<char>) -> (lines: Vec<Vec<char>>)
    ensures
        lines@.map_values(|l: Vec<char>| l@) == board_lines(text@),
{
    let mut lines: Vec<Vec<char>> = Vec::new();
    let mut i: usize = 0;
    let n = text.len();
    let ghost full = text@;
    assert(full.skip(0) =~= full);
    while i < n
        invariant
            n == text@.len(),
            full == text@,
            i <= n,
            lines@.map_values(|l: Vec<char>| l@) + board_lines(full.skip(i as int)) == board_lines(full),
        decreases n - i,
    {
        let ghost rest = full.skip(i as int);
        proof {
            lemma_crlf_shift(full, i as int, 0);
        }
        match find_crlf(text, i) {
            Some(k) => {
                let line = copy_without_cr(text, i, k);
                proof {
                    assert(crlf_line_len(rest, 0) == Some(k - i));
                    assert(rest.take(k - i) =~= full.subrange(i as int, k as int));
                    assert(rest.skip(k - i) =~= full.skip(k as int));
                    assert(split_crlf(rest) == seq![rest.take(k - i)] + split_crlf(rest.skip(k - i)));
                    assert(board_lines(rest) =~= seq![line@] + board_lines(full.skip(k as int)));
                }
                lines.push(line);
                assert(lines@.map_values(|l: Vec<char>| l@) + board_lines(full.skip(k as int))
                    =~= board_lines(full));
                i = k;
            },
            None => {
                let line = copy_without_cr(text, i, n);
                proof {
                    assert(crlf_line_len(rest, 0) is None);
                    assert(rest =~= full.subrange(i as int, n as int));
                    assert(board_lines(rest) =~= seq![line@]);
                    assert(full.skip(n as int) =~= Seq::<char>::empty());
                    assert(board_lines(full.skip(n as int)) =~= Seq::<Seq<char>>::empty());
                }
                lines.push(line);
                assert(lines@.map_values(|l: Vec<char>| l@) + board_lines(full.skip(n as int))
                    =~= board_lines(full));
                i = n;
            },
        }
    }
    assert(full.skip(n as int) =~= Seq::<char>::empty());
    assert(board_lines(full.skip(n as int)) =~= Seq::<Seq<char>>::empty());
    assert(lines@.map_values(|l: Vec<char>| l@) =~= board_lines(full));
    lines
}

/// Looking for CR LF from `i + j` in `text` is looking from `j` in what
/// follows `i`.
proof fn lemma_crlf_shift(text: Seq<char>, i: int, j: int)
    requires
        0 <= i <= text.len(),
        0 <= j,
    ensures
        crlf_line_len(text.skip(i), j) == match crlf_line_len(text, i + j) {
            Some(k) => Some(k - i),
            None => None,
        },
    decreases text.len() - i - j,
{
    let r = text.skip(i);
    if j + 1 >= r.len() {
    } else {
        assert(r[j] == text[i + j]);
        assert(r[j + 1] == text[i + j + 1]);
        if !(r[j] == '\r' && r[j + 1] == '\n') {
            lemma_crlf_shift(text, i, j + 1);
        }
    }
}

/// The position of row `row` among the rows, or where it would go.
pub open spec fn row_position(rows: Seq<(usize, Seq<RichDataView>)>, row: usize) -> int
    decreases rows.len(),
{
    if rows.len() == 0 || rows[0].0 >= row {
        0
    } else {
        1 + row_position(rows.skip(1), row)
    }
}

/// The rows after a segment went to row `row` with the board cursor at
/// column `col`: a row that exists gets the segment at its end (at column
/// 1 the segment replaces the row's segments); else a new row holds it.
pub open spec fn rows_with(rows: Seq<(usize, Seq<RichDataView>)>, row: usize, col: usize, r: RichDataView) -> Seq<(usize, Seq<RichDataView>)> {
    let p = row_position(rows, row);
    if p < rows.len() && rows[p].0 == row {
        rows.update(p, (row, if col == 1 { seq![r] } else { rows[p].1.push(r) }))
    } else {
        rows.insert(p, (row, seq![r]))
    }
}

/// The position of a row: rows before it have smaller numbers.
proof fn lemma_row_position(rows: Seq<(usize, Seq<RichDataView>)>, row: usize)
    requires
        rows_sorted(rows),
    ensures
        0 <= row_position(rows, row) <= rows.len(),
        forall|i: int| 0 <= i < row_position(rows, row) ==> rows[i].0 < row,
        forall|i: int| row_position(rows, row) <= i < rows.len() ==> rows[i].0 >= row,
    decreases rows.len(),
{
    if rows.len() > 0 && rows[0].0 < row {
        let rest = rows.skip(1);
        assert(rows_sorted(rest)) by {
            assert forall|i: int, j: int| 0 <= i < j < rest.len() implies rest[i].0 < rest[j].0 by {
                assert(rest[i] == rows[i + 1]);
                assert(rest[j] == rows[j + 1]);
            }
        }
        lemma_row_position(rest, row);
        assert forall|i: int| 0 <= i < row_position(rows, row) implies rows[i].0 < row by {
            if i > 0 {
                assert(rows[i] == rest[i - 1]);
            }
        }
        assert forall|i: int| row_position(rows, row) <= i < rows.len() implies rows[i].0 >= row by {
            assert(rows[i] == rest[i - 1]);
        }
    }
}

/// All the data of the board, row after row.
pub open spec fn board_data(rows: Seq<(usize, Seq<RichDataView>)>) -> Seq<RichDataView>
    decreases rows.len(),
{
    if rows.len() == 0 {
        Seq::empty()
    } else {
        board_data(rows.drop_last()) + rows.last().1
    }
}

impl ReWriteBoard {
    /// The segment of one board line cut from `data`: its text is
    /// `content`, and it belongs to the board unless the cursor row lies
    /// below the board.
    pub fn line_segment(&self, data: &RichData, content: Vec<char>) -> (rd: RichData)
        ensures
            rd@ == (RichDataView {
                text: content@,
                rewrite_board_data: if self.cursor_pos.n > self.max_rows { data.rewrite_board_data } else { true },
                ..data@
            }),
    {
        let mut rd = data.duplicate();
        rd.text = content;
        if self.cursor_pos.n <= self.max_rows {
            rd.rewrite_board_data = true;
        }
        rd
    }

    /// Places one laid-out board line at the cursor. Below the board the
    /// line is handed back and the cursor stays. On the board a line that is
    /// not blank goes to the cursor row (see `rows_with`) and the cursor
    /// moves right by its characters; a line that ends in a line feed then
    /// moves the cursor to column 1 of the next row.
    pub fn place_line(&mut self, rd: RichData) -> (exceed: Option<RichData>)
        requires
            old(self).wf(),
            old(self).cursor_pos.m + rd.text@.len() <= usize::MAX,
            old(self).cursor_pos.n + 1 <= usize::MAX,
        ensures
            final(self).wf(),
            final(self).max_rows == old(self).max_rows,
            final(self).max_cols == old(self).max_cols,
            final(self).top_y == old(self).top_y,
            final(self).bottom_y == old(self).bottom_y,
            final(self).line_height == old(self).line_height,
            final(self).line_space == old(self).line_space,
            old(self).cursor_pos.n > old(self).max_rows ==> {
                &&& exceed is Some && exceed->0@ == rd@
                &&& final(self).line_data_map@ == old(self).line_data_map@
                &&& final(self).cursor_pos == old(self).cursor_pos
            },
            old(self).cursor_pos.n <= old(self).max_rows ==> {
                let c = old(self).cursor_pos;
                let blank = is_blank(rd.text@);
                let c1 = if blank { c } else { CursorPos { m: (c.m + rd.text@.len()) as usize, ..c } };
                let ends_nl = rd.text@.len() > 0 && rd.text@.last() == '\n';
                &&& exceed is None
                &&& final(self).line_data_map@ == if blank { old(self).line_data_map@ } else {
                        rows_with(old(self).line_data_map@, c.n, c.m, rd@)
                    }
                &&& final(self).cursor_pos == if ends_nl {
                        CursorPos { n: (c1.n + 1) as usize, m: crate::cursor::clamp_pos(1, 1, c1.max_m as int) as usize, ..c1 }
                    } else {
                        c1
                    }
            },
    {
        let (current_row, current_col) = self.cursor_pos.get();
        if current_row > self.max_rows {
            return Some(rd);
        }
        let blank = is_blank_text(&rd.text);
        let n = rd.text.len();
        let ends_nl = n > 0 && rd.text[n - 1] == '\n';
        if !blank {
            let char_len = rd.text.len();
            self.line_data_map.put(current_row, current_col, rd);
            self.cursor_pos.add_m(char_len);
        }
        if ends_nl {
            self.cursor_pos.add_n(1);
            self.cursor_pos.set_m(1);
        }
        None
    }

    /// Copies of all the data of the board, row after row.
    pub fn all_data(&self) -> (all: Vec<RichData>)
        ensures
            views(all@) == board_data(self.line_data_map@),
    {
        let mut all: Vec<RichData> = Vec::new();
        let rows = &self.line_data_map.rows;
        let mut i: usize = 0;
        while i < rows.len()
            invariant
                i <= rows@.len(),
                rows@ == self.line_data_map.rows@,
                views(all@) == board_data(self.line_data_map@.take(i as int)),
            decreases rows@.len() - i,
        {
            let segs = &rows[i].segments;
            let ghost before = views(all@);
            let mut k: usize = 0;
            while k < segs.len()
                invariant
                    k <= segs@.len(),
                    views(all@) == before + views(segs@).take(k as int),
                decreases segs@.len() - k,
            {
                let d = segs[k].duplicate();
                assert(views(segs@)[k as int] == segs@[k as int]@);
                let ghost old_all = all@;
                all.push(d);
                assert(views(all@) =~= views(old_all).push(d@));
                assert(views(segs@).take(k + 1) =~= views(segs@).take(k as int).push(segs@[k as int]@));
                k = k + 1;
                assert(views(all@) =~= before + views(segs@).take(k as int));
            }
            proof {
                let t = self.line_data_map@.take(i + 1);
                assert(t.drop_last() =~= self.line_data_map@.take(i as int));
                assert(t.last() == row_view(rows@[i as int]));
                assert(views(segs@).take(k as int) =~= views(segs@));
            }
            i = i + 1;
        }
        assert(self.line_data_map@.take(rows@.len() as int) =~= self.line_data_map@);
        all
    }
}

impl LineDataMap {
    /// Puts segment `rd` into row `row` with the cursor at column `col`, as
    /// `rows_with` says.
    pub fn put(&mut self, row: usize, col: usize, rd: RichData)
        requires
            old(self).wf(),
        ensures
            final(self).wf(),
            final(self)@ == rows_with(old(self)@, row, col, rd@),
    {
        proof {
            lemma_row_position(self@, row);
        }
        let mut p: usize = 0;
        while p < self.rows.len() && self.rows[p].row < row
            invariant
                p <= self.rows@.len(),
                self.rows@ == old(self).rows@,
                rows_sorted(self@),
                forall|i: int| 0 <= i < p ==> self@[i].0 < row,
                0 <= row_position(self@, row) <= self@.len(),
                forall|i: int| 0 <= i < row_position(self@, row) ==> self@[i].0 < row,
                forall|i: int| row_position(self@, row) <= i < self@.len() ==> self@[i].0 >= row,
            decreases self.rows@.len() - p,
        {
            p = p + 1;
        }
        assert(p == row_position(old(self)@, row)) by {
            if p < row_position(old(self)@, row) {
                assert(self@[p as int].0 < row);
            }
            if p > row_position(old(self)@, row) {
                let q = row_position(old(self)@, row);
                assert(self@[q].0 >= row);
            }
        }
        let ghost old_rows = self@;
        if p < self.rows.len() && self.rows[p].row == row {
            if col == 1 {
                self.rows[p].segments.clear();
            }
            self.rows[p].segments.push(rd);
            proof {
                assert(row_view(self.rows@[p as int]).1 =~= if col == 1 { seq![rd@] } else { old_rows[p as int].1.push(rd@) });
                assert(self@ =~= rows_with(old_rows, row, col, rd@));
            }
        } else {
            let mut segs: Vec<RichData> = Vec::new();
            segs.push(rd);
            self.rows.insert(p, BoardRow { row, segments: segs });
            proof {
                assert(row_view(BoardRow { row, segments: segs }) == (row, seq![rd@])) by {
                    assert(segs@.map_values(|d: RichData| d@) =~= seq![rd@]);
                }
                assert(self@ =~= rows_with(old_rows, row, col, rd@));
            }
        }
        proof {
            assert forall|i: int, j: int| 0 <= i < j < self@.len() implies self@[i].0 < self@[j].0 by {
                if p < old_rows.len() && old_rows[p as int].0 == row {
                    assert(self@[i].0 == old_rows[i].0);
                    assert(self@[j].0 == old_rows[j].0);
                } else {
                    if j < p {
                        assert(self@[i] == old_rows[i] && self@[j] == old_rows[j]);
                    } else if j == p {
                        assert(self@[i] == old_rows[i]);
                    } else if i == p {
                        assert(self@[j] == old_rows[j - 1]);
                    } else if i < p {
                        assert(self@[i] == old_rows[i] && self@[j] == old_rows[j - 1]);
                    } else {
                        assert(self@[i] == old_rows[i - 1] && self@[j] == old_rows[j - 1]);
                    }
                }
            }
        }
    }
}

/// Writing a segment into a row the board already holds keeps the row's
/// earlier segments and appends the new one at its end, unless the cursor
/// is at column 1, where the new segment alone makes the row; the other
/// rows stay as they were.
pub proof fn law_put_appends_to_row(rows: Seq<(usize, Seq<RichDataView>)>, row: usize, col: usize, r: RichDataView, i: int)
    requires
        rows_sorted(rows),
        0 <= i < rows.len(),
        rows[i].0 == row,
    ensures
        rows_with(rows, row, col, r).len() == rows.len(),
        rows_with(rows, row, col, r)[i].0 == row,
        col != 1 ==> rows_with(rows, row, col, r)[i].1 == rows[i].1 + seq![r],
        col == 1 ==> rows_with(rows, row, col, r)[i].1 == seq![r],
        forall|j: int| 0 <= j < rows.len() && j != i ==> rows_with(rows, row, col, r)[j] == rows[j],
{
    lemma_row_position(rows, row);
    let p = row_position(rows, row);
    if p < i {
        assert(rows[p].0 < rows[i].0);
    }
    assert(p == i);
    assert(rows[i].1.push(r) =~= rows[i].1 + seq![r]);
}

/// Writing a segment into a row the board does not hold yet adds that row,
/// holding just the segment, in its place by row number; the other rows
/// stay, in order.
pub proof fn law_put_adds_row(rows: Seq<(usize, Seq<RichDataView>)>, row: usize, col: usize, r: RichDataView)
    requires
        rows_sorted(rows),
        forall|j: int| 0 <= j < rows.len() ==> rows[j].0 != row,
    ensures
        rows_with(rows, row, col, r).len() == rows.len() + 1,
        rows_sorted(rows_with(rows, row, col, r)),
        exists|i: int| 0 <= i < rows.len() + 1 && rows_with(rows, row, col, r)[i] == (row, seq![r])
            && rows_with(rows, row, col, r) == rows.insert(i, (row, seq![r])),
{
    lemma_row_position(rows, row);
    let p = row_position(rows, row);
    let out = rows_with(rows, row, col, r);
    if p < rows.len() {
        assert(rows[p].0 != row);
    }
    assert(out == rows.insert(p, (row, seq![r])));
    assert(out[p] == (row, seq![r]));
    assert forall|a: int, b: int| 0 <= a < b < out.len() implies out[a].0 < out[b].0 by {
        if b < p {
            assert(out[a] == rows[a] && out[b] == rows[b]);
        } else if b == p {
            assert(out[a] == rows[a]);
        } else if a == p {
            assert(out[b] == rows[b - 1]);
        } else if a < p {
            assert(out[a] == rows[a] && out[b] == rows[b - 1]);
        } else {
            assert(out[a] == rows[a - 1] && out[b] == rows[b - 1]);
        }
    }
}

/// Erasing a row to the start only turns characters into spaces: the row
/// keeps its segments, each with as many characters as before.
pub proof fn law_erase_to_start_keeps_lengths(segs: Seq<RichDataView>, col: int, sum: int)
    ensures
        erase_to_start(segs, col, sum).len() == segs.len(),
        forall|i: int| 0 <= i < segs.len() ==> #[trigger] erase_to_start(segs, col, sum)[i].text.len() == segs[i].text.len(),
    decreases segs.len(),
{
    if segs.len() > 0 && sum < col {
        let r = segs[0];
        let len = r.text.len() as int;
        law_erase_to_start_keeps_lengths(segs.skip(1), col, sum + len);
        let e = erase_to_start(segs, col, sum);
        if sum + len > col {
            assert forall|i: int| 0 <= i < segs.len() implies #[trigger] e[i].text.len() == segs[i].text.len() by {
                if i > 0 {
                    assert(e[i] == segs.skip(1)[i - 1]);
                }
            }
        } else {
            assert forall|i: int| 0 <= i < segs.len() implies #[trigger] e[i].text.len() == segs[i].text.len() by {
                if i > 0 {
                    assert(e[i] == erase_to_start(segs.skip(1), col, sum + len)[i - 1]);
                    assert(segs.skip(1)[i - 1] == segs[i]);
                }
            }
        }
    }
}

/// Erasing a row to the end never adds segments.
pub proof fn law_erase_to_end_shrinks(segs: Seq<RichDataView>, col: int, sum: int)
    ensures
        erase_to_end(segs, col, sum).len() <= segs.len(),
    decreases segs.len(),
{
    if segs.len() > 0 {
        law_erase_to_end_shrinks(segs.skip(1), col, sum + segs[0].text.len());
    }
}

/// A blanked row of a row that held data is one segment of `cols` spaces.
pub proof fn law_blank_row(segs: Seq<RichDataView>, cols: nat)
    requires
        segs.len() > 0,
    ensures
        blank_row(segs, cols).len() == 1,
        blank_row(segs, cols)[0].text == spaces(cols),
{
}

/// Every erase keeps the row numbers of the board, and so their order.
pub proof fn law_erase_keeps_rows(rows: Seq<(usize, Seq<RichDataView>)>, op: spec_fn(usize) -> RowErase, col: int, cols: nat)
    ensures
        rows_erased(rows, op, col, cols).len() == rows.len(),
        forall|i: int| 0 <= i < rows.len() ==> #[trigger] rows_erased(rows, op, col, cols)[i].0 == rows[i].0,
        rows_sorted(rows) ==> rows_sorted(rows_erased(rows, op, col, cols)),
{
}

/// Lines joined into one text.
pub open spec fn join_lines(lines: Seq<Seq<char>>) -> Seq<char>
    decreases lines.len(),
{
    if lines.len() == 0 { Seq::empty() } else { lines[0] + join_lines(lines.skip(1)) }
}

/// The lines of board text, joined again, are the text without its
/// carriage returns: cutting loses no character.
pub proof fn law_board_lines_join(text: Seq<char>)
    ensures
        join_lines(board_lines(text)) == without_cr(text),
    decreases text.len(),
{
    match crlf_line_len(text, 0) {
        Some(k) => {
            lemma_crlf_bounds(text, 0);
            let head = text.take(k);
            let rest = text.skip(k);
            law_board_lines_join(rest);
            let all = board_lines(text);
            assert(all =~= seq![without_cr(head)] + board_lines(rest));
            assert(all.skip(1) =~= board_lines(rest));
            assert(text =~= head + rest);
            Seq::filter_distributes_over_add(head, rest, |c: char| c != '\r');
            assert(all[0] == without_cr(head));
            assert(join_lines(all) == all[0] + join_lines(all.skip(1)));
            assert(without_cr(text) == without_cr(head) + without_cr(rest));
        },
        None => {
            if text.len() == 0 {
                reveal(Seq::filter);
                assert(board_lines(text) =~= Seq::<Seq<char>>::empty());
            } else {
                let all = board_lines(text);
                assert(all =~= seq![without_cr(text)]);
                assert(all.skip(1) =~= Seq::<Seq<char>>::empty());
                assert(join_lines(all.skip(1)) == Seq::<char>::empty());
                assert(join_lines(all) == all[0] + join_lines(all.skip(1)));
                assert(without_cr(text) + Seq::<char>::empty() =~= without_cr(text));
            }
        },
    }
}

/// A line found by `crlf_line_len` ends within the text.
proof fn lemma_crlf_bounds(text: Seq<char>, i: int)
    requires
        0 <= i,
    ensures
        match crlf_line_len(text, i) {
            Some(k) => i + 2 <= k <= text.len(),
            None => true,
        },
    decreases text.len() - i,
{
    if i + 1 < text.len() && !(text[i] == '\r' && text[i + 1] == '\n') {
        lemma_crlf_bounds(text, i + 1);
    }
}

} // verus!
