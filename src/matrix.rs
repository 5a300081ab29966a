use vstd::prelude::*;

use crate::error::MatrixError;
use crate::vector::{append_decimal, decimal, dot, dot_product, Numeric, Vector};

verus! {

/// The mathematical content of a matrix: its shape and its row-major cells.
pub struct MatrixModel<T> {
    pub rows: nat,
    pub cols: nat,
    pub data: Seq<T>,
}

impl<T> MatrixModel<T> {
    /// The backing sequence holds exactly one element per cell.
    pub open spec fn wf(self) -> bool {
        self.data.len() == self.rows * self.cols
    }

    /// Cell (i, j), stored at index i * cols + j.
    pub open spec fn entry(self, i: int, j: int) -> T {
        self.data[i * self.cols + j]
    }

    /// Row `i`, left to right.
    pub open spec fn row_of(self, i: int) -> Seq<T> {
        Seq::new(self.cols, |j: int| self.entry(i, j))
    }

    /// Column `j`, top to bottom.
    pub open spec fn col_of(self, j: int) -> Seq<T> {
        Seq::new(self.rows, |i: int| self.entry(i, j))
    }
}

/// The value of output cell `idx` (row-major) of the product `a * b`.
pub open spec fn product_cell<T: Numeric>(a: MatrixModel<T>, b: MatrixModel<T>, idx: int) -> T {
    dot(a.row_of(idx / b.cols as int), b.col_of(idx % b.cols as int))
}

/// The product `a * b`: shape a.rows x b.cols, each cell the dot product of a
/// row of `a` and a column of `b`.
pub open spec fn product<T: Numeric>(a: MatrixModel<T>, b: MatrixModel<T>) -> MatrixModel<T> {
    MatrixModel {
        rows: a.rows,
        cols: b.cols,
        data: Seq::new(a.rows * b.cols, |idx: int| product_cell(a, b, idx)),
    }
}

/// Row-major position `idx` of a grid with `c` columns names row idx / c and
/// column idx % c, inside the grid.
proof fn lemma_cell_position(idx: int, r: int, c: int)
    requires
        0 <= idx < r * c,
        0 <= r,
        0 <= c,
    ensures
        c > 0,
        0 <= idx / c < r,
        0 <= idx % c < c,
        idx == (idx / c) * c + idx % c,
{
    if c == 0 {
        assert(r * c == 0);
    }
    vstd::arithmetic::div_mod::lemma_fundamental_div_mod(idx, c);
    vstd::arithmetic::div_mod::lemma_mod_pos_bound(idx, c);
    vstd::arithmetic::div_mod::lemma_div_pos_is_pos(idx, c);
    let q = idx / c;
    let m = idx % c;
    assert(q < r) by (nonlinear_arith)
        requires
            idx == c * q + m,
            0 <= m,
            idx < r * c,
            c > 0,
    ;
    assert(idx == q * c + m) by (nonlinear_arith)
        requires
            idx == c * q + m,
    ;
}

/// Row i and column j of a grid with `c` columns sit at position i * c + j,
/// which lies inside the grid.
proof fn lemma_position_of_cell(i: int, j: int, r: int, c: int)
    requires
        0 <= i < r,
        0 <= j < c,
    ensures
        0 <= i * c + j < r * c,
        (i * c + j) / c == i,
        (i * c + j) % c == j,
{
    assert(0 <= i * c + j < r * c) by (nonlinear_arith)
        requires
            0 <= i < r,
            0 <= j < c,
    ;
    vstd::arithmetic::div_mod::lemma_fundamental_div_mod_converse(i * c + j, c, i, j);
}

/// A dense row-major matrix.
pub struct Matrix<T> {
    data: Vec<T>,
    row: usize,
    col: usize,
}

impl<T> View for Matrix<T> {
    type V = MatrixModel<T>;

    closed spec fn view(&self) -> MatrixModel<T> {
        MatrixModel { rows: self.row as nat, cols: self.col as nat, data: self.data@ }
    }
}

impl<T> Matrix<T> {
    /// Stores `data` as the row-major cells of a `row` x `col` matrix, as given.
    pub fn new(data: Vec<T>, row: usize, col: usize) -> (r: Self)
        ensures
            r@ == (MatrixModel { rows: row as nat, cols: col as nat, data: data@ }),
    {
        Matrix { data, row, col }
    }

    pub fn rows(&self) -> (r: usize)
        ensures
            r == self@.rows,
    {
        self.row
    }

    pub fn cols(&self) -> (r: usize)
        ensures
            r == self@.cols,
    {
        self.col
    }

    /// The row-major cells.
    pub fn data(&self) -> (r: &Vec<T>)
        ensures
            r@ == self@.data,
    {
        &self.data
    }
}

impl<T: Numeric> Matrix<T> {
    /// Copies row `i` out of the matrix.
    pub fn row_vector(&self, i: usize) -> (r: Vector<T>)
        requires
            self@.wf(),
            i < self@.rows,
        ensures
            r@ == self@.row_of(i as int),
    {
        let mut out: Vec<T> = Vec::new();
        let n = self.data.len();
        let mut k: usize = 0;
        while k < self.col
            invariant
                n == self@.data.len(),
                self@.wf(),
                i < self@.rows,
                k <= self.col,
                out@ == self@.row_of(i as int).subrange(0, k as int),
            decreases self.col - k,
        {
            proof {
                lemma_position_of_cell(i as int, k as int, self.row as int, self.col as int);
            }
            out.push(self.data[i * self.col + k]);
            k = k + 1;
            assert(out@ =~= self@.row_of(i as int).subrange(0, k as int));
        }
        assert(out@ =~= self@.row_of(i as int));
        Vector::new(out)
    }

    /// Copies column `j` out of the matrix, top to bottom.
    pub fn col_vector(&self, j: usize) -> (r: Vector<T>)
        requires
            self@.wf(),
            j < self@.cols,
        ensures
            r@ == self@.col_of(j as int),
    {
        let mut out: Vec<T> = Vec::new();
        let n = self.data.len();
        let mut k: usize = 0;
        while k < self.row
            invariant
                n == self@.data.len(),
                self@.wf(),
                j < self@.cols,
                k <= self.row,
                out@ == self@.col_of(j as int).subrange(0, k as int),
            decreases self.row - k,
        {
            proof {
                lemma_position_of_cell(k as int, j as int, self.row as int, self.col as int);
            }
            out.push(self.data[k * self.col + j]);
            k = k + 1;
            assert(out@ =~= self@.col_of(j as int).subrange(0, k as int));
        }
        assert(out@ =~= self@.col_of(j as int));
        Vector::new(out)
    }
}

/// The cells of one row, rendered and separated by single spaces.
pub open spec fn row_text<T: Numeric>(cells: Seq<T>) -> Seq<char>
    decreases cells.len(),
{
    if cells.len() == 0 {
        Seq::empty()
    } else if cells.len() == 1 {
        cells[0].text_spec()
    } else {
        row_text(cells.drop_last()) + seq![' '] + cells.last().text_spec()
    }
}

/// The first `n` rows of `m`, rendered and separated by a comma and a space.
pub open spec fn rows_text<T: Numeric>(m: MatrixModel<T>, n: int) -> Seq<char>
    decreases n,
{
    if n <= 0 {
        Seq::empty()
    } else if n == 1 {
        row_text(m.row_of(0))
    } else {
        rows_text(m, n - 1) + seq![',', ' '] + row_text(m.row_of(n - 1))
    }
}

/// The display form: `{1 2 3, 4 5 6}` for a 2 x 3 matrix.
pub open spec fn display_text<T: Numeric>(m: MatrixModel<T>) -> Seq<char> {
    seq!['{'] + rows_text(m, m.rows as int) + seq!['}']
}

/// The debug form: `Matrix(row=2, col=3, {1 2 3, 4 5 6})`.
pub open spec fn debug_text<T: Numeric>(m: MatrixModel<T>) -> Seq<char> {
    "Matrix(row="@ + decimal(m.rows) + ", col="@ + decimal(m.cols) + ", "@ + display_text(m) + ")"@
}

impl<T: Numeric> Matrix<T> {
    /// Appends the display form to `s`.
    fn write_display(&self, s: &mut String)
        requires
            self@.wf(),
        ensures
            final(s)@ == old(s)@ + display_text(self@),
    {
        let ghost start = s@;
        let ghost m = self@;
        let n = self.data.len();
        proof { reveal_strlit("{"); }
        s.append("{");
        let mut i: usize = 0;
        while i < self.row
            invariant
                m == self@,
                m.wf(),
                n == m.data.len(),
                i <= m.rows,
                s@ == start + seq!['{'] + rows_text(m, i as int),
            decreases m.rows - i,
        {
            let ghost before_row = s@;
            if i > 0 {
                proof { reveal_strlit(", "); }
                s.append(", ");
            }
            let ghost row_start = s@;
            let mut j: usize = 0;
            while j < self.col
                invariant
                    m == self@,
                    m.wf(),
                    n == m.data.len(),
                    i < m.rows,
                    j <= m.cols,
                    s@ == row_start + row_text(m.row_of(i as int).subrange(0, j as int)),
                decreases m.cols - j,
            {
                let ghost cur = m.row_of(i as int).subrange(0, j as int);
                let ghost next = m.row_of(i as int).subrange(0, j as int + 1);
                assert(next.drop_last() =~= cur);
                if j > 0 {
                    proof { reveal_strlit(" "); }
                    s.append(" ");
                }
                proof {
                    lemma_position_of_cell(i as int, j as int, m.rows as int, m.cols as int);
                }
                self.data[i * self.col + j].render_into(s);
                proof {
                    if j == 0 {
                        assert(cur =~= Seq::<T>::empty());
                    }
                }
                j = j + 1;
                assert(s@ =~= row_start + row_text(m.row_of(i as int).subrange(0, j as int)));
            }
            assert(m.row_of(i as int).subrange(0, j as int) =~= m.row_of(i as int));
            i = i + 1;
            assert(s@ =~= start + seq!['{'] + rows_text(m, i as int));
        }
        proof { reveal_strlit("}"); }
        s.append("}");
        assert(s@ =~= start + display_text(m));
    }

    /// The display form: rows inside braces, separated by `, `, each row's
    /// elements separated by single spaces.
    pub fn display_string(&self) -> (r: String)
        requires
            self@.wf(),
        ensures
            r@ == display_text(self@),
    {
        let mut s = String::new();
        self.write_display(&mut s);
        assert(s@ =~= display_text(self@));
        s
    }

    /// The debug form: the shape, then the display form.
    pub fn debug_string(&self) -> (r: String)
        requires
            self@.wf(),
        ensures
            r@ == debug_text(self@),
    {
        let mut s = String::new();
        proof { reveal_strlit("Matrix(row="); }
        s.append("Matrix(row=");
        append_decimal(&mut s, self.row as u128);
        proof { reveal_strlit(", col="); }
        s.append(", col=");
        append_decimal(&mut s, self.col as u128);
        proof { reveal_strlit(", "); }
        s.append(", ");
        self.write_display(&mut s);
        proof { reveal_strlit(")"); }
        s.append(")");
        assert(s@ =~= debug_text(self@));
        s
    }
}

/// One unit of work: the output cell `idx` and the row and column whose dot
/// product fills it.
pub struct MsgInput<T> {
    idx: usize,
    row: Vector<T>,
    col: Vector<T>,
}

impl<T> MsgInput<T> {
    pub fn new(idx: usize, row: Vector<T>, col: Vector<T>) -> (r: Self)
        ensures
            r.index() == idx,
            r.row_view() == row@,
            r.col_view() == col@,
    {
        MsgInput { idx, row, col }
    }

    /// The destination cell.
    pub closed spec fn index(&self) -> nat {
        self.idx as nat
    }

    /// The row operand.
    pub closed spec fn row_view(&self) -> Seq<T> {
        self.row@
    }

    /// The column operand.
    pub closed spec fn col_view(&self) -> Seq<T> {
        self.col@
    }

    pub fn idx(&self) -> (r: usize)
        ensures
            r == self.index(),
    {
        self.idx
    }
}

/// One result: the output cell `idx` and its value.
pub struct MsgOutput<T> {
    idx: usize,
    v: T,
}

impl<T> MsgOutput<T> {
    pub fn new(idx: usize, v: T) -> (r: Self)
        ensures
            r.index() == idx,
            r.value() == v,
    {
        MsgOutput { idx, v }
    }

    /// The destination cell.
    pub closed spec fn index(&self) -> nat {
        self.idx as nat
    }

    /// The computed value.
    pub closed spec fn value(&self) -> T {
        self.v
    }

    pub fn idx(&self) -> (r: usize)
        ensures
            r == self.index(),
    {
        self.idx
    }
}

/// Builds the task for output cell `idx` of `a * b`: row idx / b.cols of `a`
/// and column idx % b.cols of `b`.
pub fn task_for<T: Numeric>(a: &Matrix<T>, b: &Matrix<T>, idx: usize) -> (r: MsgInput<T>)
    requires
        a@.wf(),
        b@.wf(),
        idx < a@.rows * b@.cols,
    ensures
        r.index() == idx,
        r.row_view() == a@.row_of(idx as int / b@.cols as int),
        r.col_view() == b@.col_of(idx as int % b@.cols as int),
{
    proof {
        lemma_cell_position(idx as int, a.row as int, b.col as int);
    }
    let i = idx / b.col;
    let j = idx % b.col;
    let row = a.row_vector(i);
    let col = b.col_vector(j);
    MsgInput::new(idx, row, col)
}

/// The worker that receives task `idx` when `workers` workers are served in
/// turn.
pub fn worker_for(idx: usize, workers: usize) -> (r: usize)
    requires
        workers > 0,
    ensures
        r == idx % workers,
        r < workers,
{
    idx % workers
}

/// What a worker does with one task: the dot product of its row and column,
/// addressed to the task's cell.
pub fn run_task<T: Numeric>(input: MsgInput<T>) -> (r: Result<MsgOutput<T>, MatrixError>)
    ensures
        r is Ok <==> input.row_view().len() == input.col_view().len(),
        r is Ok ==> r->Ok_0.index() == input.index() && r->Ok_0.value() == dot(
            input.row_view(),
            input.col_view(),
        ),
        r is Err ==> r == Err::<MsgOutput<T>, MatrixError>(MatrixError::LengthMismatch),
{
    let MsgInput { idx, row, col } = input;
    match dot_product(row, col) {
        Ok(v) => Ok(MsgOutput { idx, v }),
        Err(e) => Err(e),
    }
}

/// Records the reply for cell `idx` into the received slots: defined only when
/// the cell exists and has not been answered yet.
pub open spec fn accept_step<T>(slots: Seq<Option<T>>, idx: nat, v: T) -> Option<Seq<Option<T>>> {
    if idx < slots.len() && slots[idx as int] is None {
        Some(slots.update(idx as int, Some(v)))
    } else {
        None
    }
}

/// Records `replies` in their order of arrival; `None` once one of them does
/// not pair with an outstanding cell.
pub open spec fn collect<T>(slots: Seq<Option<T>>, replies: Seq<MsgOutput<T>>) -> Option<Seq<Option<T>>>
    decreases replies.len(),
{
    if replies.len() == 0 {
        Some(slots)
    } else {
        match collect(slots, replies.drop_last()) {
            Some(s) => accept_step(s, replies.last().index(), replies.last().value()),
            None => None,
        }
    }
}

/// Every slot has been answered.
pub open spec fn all_received<T>(slots: Seq<Option<T>>) -> bool {
    forall|k: int| 0 <= k < slots.len() ==> (#[trigger] slots[k]) is Some
}

/// No slot has been answered.
pub open spec fn none_received<T>(n: nat) -> Seq<Option<T>> {
    Seq::new(n, |k: int| None)
}

/// The output buffer of one multiplication: one slot per output cell, each
/// filled by exactly one reply, in whatever order the replies come.
pub struct Assembly<T> {
    cells: Vec<T>,
    filled: Vec<bool>,
    row: usize,
    col: usize,
}

impl<T> Assembly<T> {
    /// The slots, in row-major order: the value received for each cell, if any.
    pub closed spec fn received(&self) -> Seq<Option<T>> {
        Seq::new(self.filled@.len(), |k: int| if self.filled@[k] { Some(self.cells@[k]) } else { None })
    }

    pub closed spec fn rows(&self) -> nat {
        self.row as nat
    }

    pub closed spec fn cols(&self) -> nat {
        self.col as nat
    }

    pub closed spec fn wf(&self) -> bool {
        &&& self.cells@.len() == self.filled@.len()
        &&& self.filled@.len() == self.row * self.col
    }
}

impl<T: Numeric> Assembly<T> {
    /// An empty buffer for a `rows` x `cols` result.
    pub fn new(rows: usize, cols: usize) -> (r: Self)
        requires
            rows * cols <= usize::MAX,
        ensures
            r.wf(),
            r.rows() == rows,
            r.cols() == cols,
            r.received() == none_received::<T>((rows * cols) as nat),
    {
        let n = rows * cols;
        let mut cells: Vec<T> = Vec::new();
        let mut filled: Vec<bool> = Vec::new();
        let mut k: usize = 0;
        while k < n
            invariant
                k <= n,
                cells@.len() == k,
                filled@.len() == k,
                forall|m: int| 0 <= m < k ==> !(#[trigger] filled@[m]),
            decreases n - k,
        {
            cells.push(T::zero());
            filled.push(false);
            k = k + 1;
        }
        let r = Assembly { cells, filled, row: rows, col: cols };
        assert(r.received() =~= none_received::<T>((rows * cols) as nat));
        r
    }

    /// Records one reply. A reply for a cell that does not exist, or that has
    /// already been answered, breaks the task/reply pairing and is refused.
    pub fn accept(&mut self, out: MsgOutput<T>) -> (r: Result<(), MatrixError>)
        requires
            old(self).wf(),
        ensures
            final(self).wf(),
            final(self).rows() == old(self).rows(),
            final(self).cols() == old(self).cols(),
            r is Ok <==> accept_step(old(self).received(), out.index(), out.value()) is Some,
            r is Ok ==> Some(final(self).received()) == accept_step(
                old(self).received(),
                out.index(),
                out.value(),
            ),
            r is Err ==> r == Err::<(), MatrixError>(MatrixError::ChannelBroken),
            r is Err ==> final(self).received() == old(self).received(),
    {
        let MsgOutput { idx, v } = out;
        if idx >= self.filled.len() || self.filled[idx] {
            return Err(MatrixError::ChannelBroken);
        }
        let ghost before = self.received();
        self.cells.set(idx, v);
        self.filled.set(idx, true);
        assert(self.received() =~= before.update(idx as int, Some(v)));
        Ok(())
    }

    /// The assembled matrix, once every cell has been answered.
    pub fn finish(self) -> (r: Result<Matrix<T>, MatrixError>)
        requires
            self.wf(),
        ensures
            r is Ok <==> all_received(self.received()),
            r is Ok ==> r->Ok_0@ == (MatrixModel {
                rows: self.rows(),
                cols: self.cols(),
                data: Seq::new(self.received().len(), |k: int| self.received()[k]->Some_0),
            }),
            r is Err ==> r == Err::<Matrix<T>, MatrixError>(MatrixError::ChannelBroken),
    {
        let mut k: usize = 0;
        while k < self.filled.len()
            invariant
                self.wf(),
                k <= self.filled@.len(),
                forall|m: int| 0 <= m < k ==> #[trigger] self.filled@[m],
            decreases self.filled@.len() - k,
        {
            if !self.filled[k] {
                assert(self.received()[k as int] is None);
                return Err(MatrixError::ChannelBroken);
            }
            k = k + 1;
        }
        assert(all_received(self.received()));
        let Assembly { cells, filled, row, col } = self;
        let m = Matrix::new(cells, row, col);
        assert(m@.data =~= Seq::new(self.received().len(), |k: int| self.received()[k]->Some_0));
        Ok(m)
    }
}

/// The reply for cell `i` is among the first `m` replies.
pub open spec fn answered<T>(replies: Seq<MsgOutput<T>>, m: int, i: int) -> bool {
    exists|k: int| 0 <= k < m && (#[trigger] replies[k]).index() == i
}

/// Replies that are correct, one per cell at most, each for a cell of `a * b`.
pub open spec fn sound_replies<T: Numeric>(
    a: MatrixModel<T>,
    b: MatrixModel<T>,
    replies: Seq<MsgOutput<T>>,
) -> bool {
    &&& forall|k: int|
        0 <= k < replies.len() ==> (#[trigger] replies[k]).index() < a.rows * b.cols
            && replies[k].value() == product_cell(a, b, replies[k].index() as int)
    &&& forall|k1: int, k2: int|
        0 <= k1 < replies.len() && 0 <= k2 < replies.len() && k1 != k2 ==> (#[trigger] replies[k1]).index()
            != (#[trigger] replies[k2]).index()
}

proof fn lemma_collect_prefix<T: Numeric>(
    a: MatrixModel<T>,
    b: MatrixModel<T>,
    replies: Seq<MsgOutput<T>>,
    m: int,
)
    requires
        sound_replies(a, b, replies),
        0 <= m <= replies.len(),
    ensures
        collect(none_received::<T>(a.rows * b.cols), replies.subrange(0, m)) == Some(
            Seq::new(
                a.rows * b.cols,
                |i: int| if answered(replies, m, i) { Some(product_cell(a, b, i)) } else { None },
            ),
        ),
    decreases m,
{
    let n = a.rows * b.cols;
    let target = Seq::new(
        n,
        |i: int| if answered(replies, m, i) { Some(product_cell(a, b, i)) } else { None },
    );
    if m == 0 {
        assert(replies.subrange(0, 0) =~= Seq::<MsgOutput<T>>::empty());
        assert(none_received::<T>(n) =~= target);
    } else {
        lemma_collect_prefix(a, b, replies, m - 1);
        let p = replies.subrange(0, m);
        assert(p.drop_last() =~= replies.subrange(0, m - 1));
        let prev = Seq::new(
            n,
            |i: int| if answered(replies, m - 1, i) { Some(product_cell(a, b, i)) } else { None },
        );
        let x = replies[m - 1].index() as int;
        assert(!answered(replies, m - 1, x)) by {
            if answered(replies, m - 1, x) {
                let k = choose|k: int| 0 <= k < m - 1 && (#[trigger] replies[k]).index() == x;
                assert(replies[k].index() != replies[m - 1].index());
            }
        }
        assert forall|i: int| 0 <= i < n implies answered(replies, m, i) == (answered(
            replies,
            m - 1,
            i,
        ) || i == x) by {
            if answered(replies, m, i) && i != x {
                let k = choose|k: int| 0 <= k < m && (#[trigger] replies[k]).index() == i;
                assert(k < m - 1);
            }
            if i == x {
                assert(replies[m - 1].index() == i);
            }
            if answered(replies, m - 1, i) {
                let k = choose|k: int| 0 <= k < m - 1 && (#[trigger] replies[k]).index() == i;
                assert(0 <= k < m);
            }
        }
        assert(prev.update(x, Some(replies[m - 1].value())) =~= target);
    }
}

/// Reassembly depends neither on which worker computed a reply nor on the
/// order in which replies arrive: recording the correct replies of all cells
/// of `a * b`, one per cell, in any order, fills every cell with its product
/// value.
pub proof fn lemma_any_arrival_order<T: Numeric>(
    a: MatrixModel<T>,
    b: MatrixModel<T>,
    replies: Seq<MsgOutput<T>>,
)
    requires
        a.wf(),
        b.wf(),
        a.cols == b.rows,
        sound_replies(a, b, replies),
        forall|i: int| 0 <= i < a.rows * b.cols ==> answered(replies, replies.len() as int, i),
    ensures
        collect(none_received::<T>(a.rows * b.cols), replies) == Some(
            Seq::new(a.rows * b.cols, |i: int| Some(product(a, b).data[i])),
        ),
        all_received(Seq::new(a.rows * b.cols, |i: int| Some(product(a, b).data[i]))),
{
    let n = a.rows * b.cols;
    lemma_collect_prefix(a, b, replies, replies.len() as int);
    assert(replies.subrange(0, replies.len() as int) =~= replies);
    assert(Seq::new(
        n,
        |i: int|
            if answered(replies, replies.len() as int, i) {
                Some(product_cell(a, b, i))
            } else {
                None
            },
    ) =~= Seq::new(n, |i: int| Some(product(a, b).data[i])));
}

/// Multiplies `a` by `b`: every output cell is computed as an independent
/// task and its reply is placed at the cell the task names.
pub fn multiply<T: Numeric>(a: &Matrix<T>, b: &Matrix<T>) -> (r: Result<Matrix<T>, MatrixError>)
    requires
        a@.wf(),
        b@.wf(),
        a@.rows * b@.cols <= usize::MAX,
    ensures
        r is Ok <==> a@.cols == b@.rows,
        r is Err ==> r == Err::<Matrix<T>, MatrixError>(MatrixError::Dimension),
        r is Ok ==> {
            let m = r->Ok_0@;
            &&& m == product(a@, b@)
            &&& m.wf()
            &&& m.rows == a@.rows
            &&& m.cols == b@.cols
            &&& forall|i: int, j: int|
                0 <= i < a@.rows && 0 <= j < b@.cols ==> #[trigger] m.entry(i, j) == dot(
                    a@.row_of(i),
                    b@.col_of(j),
                )
        },
{
    if a.col != b.row {
        return Err(MatrixError::Dimension);
    }
    let n = a.row * b.col;
    let mut buffer: Assembly<T> = Assembly::new(a.row, b.col);
    let mut idx: usize = 0;
    while idx < n
        invariant
            a@.wf(),
            b@.wf(),
            a@.cols == b@.rows,
            n == a@.rows * b@.cols,
            idx <= n,
            buffer.wf(),
            buffer.rows() == a@.rows,
            buffer.cols() == b@.cols,
            buffer.received() == Seq::new(
                n as nat,
                |k: int| if k < idx { Some(product_cell(a@, b@, k)) } else { None::<T> },
            ),
        decreases n - idx,
    {
        let task = task_for(a, b, idx);
        let out = match run_task(task) {
            Ok(o) => o,
            Err(e) => return Err(e),
        };
        let ghost before = buffer.received();
        match buffer.accept(out) {
            Ok(()) => {},
            Err(e) => return Err(e),
        }
        idx = idx + 1;
        assert(buffer.received() =~= Seq::new(
            n as nat,
            |k: int| if k < idx { Some(product_cell(a@, b@, k)) } else { None::<T> },
        ));
    }
    let r = buffer.finish();
    match r {
        Ok(m) => {
            assert(m@.data =~= product(a@, b@).data);
            assert forall|i: int, j: int| 0 <= i < a@.rows && 0 <= j < b@.cols implies #[trigger] m@.entry(
                i,
                j,
            ) == dot(a@.row_of(i), b@.col_of(j)) by {
                lemma_position_of_cell(i, j, a@.rows as int, b@.cols as int);
            }
            Ok(m)
        },
        Err(e) => Err(e),
    }
}

} // verus!
