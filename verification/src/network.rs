//! The network oracle: the base latency between two processes, and what
//! becomes of it once loss and jitter have been drawn.
//!
//! Latencies are whole time units. The draws themselves are made by the
//! caller with the run's random source; this module decides what they mean.

use vstd::prelude::*;
use crate::event::{ProcessId, Time};

verus! {

/// A latency without perturbation.
#[derive(Clone, Copy, Debug, PartialEq, Eq, Structural)]
pub struct NoJitter;

impl NoJitter {
    /// The jitter of a latency, which is always zero.
    pub fn get_jitter(&self, latency: Time) -> (jitter: Time)
        ensures
            jitter == 0,
    {
        0
    }
}

/// The delay of a message with base latency `base` and jitter `jitter`:
/// their sum, never negative and never beyond the largest time.
pub open spec fn delay_of(base: Time, jitter: Time) -> Time {
    if base + jitter < 0 {
        0
    } else if base + jitter > Time::MAX {
        Time::MAX
    } else {
        (base + jitter) as Time
    }
}

/// What the oracle answers for one message: nothing where the message is
/// lost, else its delay.
pub open spec fn latency_of(dropped: bool, base: Time, jitter: Time) -> Option<Time> {
    if dropped {
        None
    } else {
        Some(delay_of(base, jitter))
    }
}

/// The oracle's answer for one message, from the outcome of the loss draw,
/// the base latency and the jitter drawn for it.
pub fn latency_with(dropped: bool, base: Time, jitter: Time) -> (r: Option<Time>)
    ensures
        r == latency_of(dropped, base, jitter),
        r matches Some(d) ==> d >= 0,
{
    if dropped {
        None
    } else {
        let sum: i64 = base as i64 + jitter as i64;
        if sum < 0 {
            Some(0)
        } else if sum > Time::MAX as i64 {
            Some(Time::MAX)
        } else {
            Some(sum as Time)
        }
    }
}

/// A network in which every pair of processes is equally far apart.
#[derive(Clone, Copy, Debug, PartialEq, Eq, Structural)]
pub struct ConstantNetwork {
    pub latency: Time,
}

impl ConstantNetwork {
    pub fn new(latency: Time) -> (network: ConstantNetwork)
        ensures
            network.latency == latency,
    {
        ConstantNetwork { latency }
    }

    /// The base latency between any two processes.
    pub fn base_latency(&self, sender: ProcessId, target: ProcessId) -> (latency: Time)
        ensures
            latency == self.latency,
    {
        self.latency
    }
}

impl Default for ConstantNetwork {
    /// A latency of 100 time units.
    fn default() -> (network: ConstantNetwork)
        ensures
            network.latency == 100,
    {
        ConstantNetwork { latency: 100 }
    }
}

/// One line of a latency file: two nodes and the latency between them.
pub type LatencyEntry = (ProcessId, ProcessId, Time);

/// Row `i` of `m` holds `i + 1` cells: the lower triangle of a square matrix.
pub open spec fn is_triangle(m: Seq<Seq<Time>>) -> bool {
    forall|i: int| 0 <= i < m.len() ==> (#[trigger] m[i]).len() == i + 1
}

/// The latency between `a` and `b` in a lower triangle, which is symmetric.
pub open spec fn cell(m: Seq<Seq<Time>>, a: int, b: int) -> Time {
    if a > b {
        m[a][b]
    } else {
        m[b][a]
    }
}

/// The triangle `m` with the latency between `a` and `b` set to `x`.
pub open spec fn with_cell(m: Seq<Seq<Time>>, a: int, b: int, x: Time) -> Seq<Seq<Time>> {
    if a > b {
        m.update(a, m[a].update(b, x))
    } else {
        m.update(b, m[b].update(a, x))
    }
}

/// The triangle of `n` rows that holds zero everywhere.
pub open spec fn zeros(n: nat) -> Seq<Seq<Time>> {
    Seq::new(n, |i: int| Seq::new((i + 1) as nat, |j: int| 0i32))
}

/// The triangle of `n` rows after the entries were written to it in order.
/// An entry that names a node beyond `n` is passed over.
pub open spec fn loaded(entries: Seq<LatencyEntry>, n: nat) -> Seq<Seq<Time>>
    decreases entries.len(),
{
    if entries.len() == 0 {
        zeros(n)
    } else {
        let e = entries.last();
        let m = loaded(entries.drop_last(), n);
        if e.0 < n && e.1 < n {
            with_cell(m, e.0 as int, e.1 as int, e.2)
        } else {
            m
        }
    }
}

/// The number of nodes that the entries describe: one more than the largest
/// node named, and one where there is no entry.
pub open spec fn file_nodes(entries: Seq<LatencyEntry>) -> nat
    decreases entries.len(),
{
    if entries.len() == 0 {
        1
    } else {
        let e = entries.last();
        let before = file_nodes(entries.drop_last());
        let here = if e.0 > e.1 {
            e.0 + 1
        } else {
            e.1 + 1
        };
        if here > before {
            here as nat
        } else {
            before
        }
    }
}

/// The sum of a row.
pub open spec fn row_sum(row: Seq<Time>) -> int
    decreases row.len(),
{
    if row.len() == 0 {
        0
    } else {
        row_sum(row.drop_last()) + row.last()
    }
}

/// `sum / count` rounded to the nearest whole number, halves away from zero,
/// and kept within the range of `Time`. Over a count of zero, the average of
/// a positive sum is the largest time, of a negative sum the smallest, and of
/// zero it is zero.
pub open spec fn rounded_average(sum: int, count: int) -> Time {
    if count <= 0 {
        if sum > 0 {
            Time::MAX
        } else if sum < 0 {
            Time::MIN
        } else {
            0
        }
    } else {
        let q = if sum >= 0 {
            (2 * sum + count) / (2 * count)
        } else {
            -((2 * (-sum) + count) / (2 * count))
        };
        if q > Time::MAX {
            Time::MAX
        } else if q < Time::MIN {
            Time::MIN
        } else {
            q as Time
        }
    }
}

/// Row `i` of a node that the file does not describe, made from the rows
/// before it: towards every earlier node `j` it has the latency of node
/// `i mod f`, the node it copies, and towards itself zero. The cell towards
/// the copied node, which would hold that node's latency to itself, holds
/// the row's sum divided by `i - 1` instead.
pub open spec fn synthesized_row(m: Seq<Seq<Time>>, i: int, f: int) -> Seq<Time> {
    let copied = Seq::new(
        (i + 1) as nat,
        |j: int|
            if j < i {
                cell(m, i % f, j)
            } else {
                0i32
            },
    );
    copied.update(i % f, rounded_average(row_sum(copied), i - 1))
}

/// The triangle `m` with every row from `f` up to `upto` synthesized in turn.
pub open spec fn extended(m: Seq<Seq<Time>>, f: nat, upto: nat) -> Seq<Seq<Time>>
    decreases upto,
{
    if upto <= f || f == 0 {
        m
    } else {
        let before = extended(m, f, (upto - 1) as nat);
        before.update(upto - 1, synthesized_row(before, upto - 1, f as int))
    }
}

/// The latency matrix of `n` processes from the entries of a latency file.
pub open spec fn matrix_of(entries: Seq<LatencyEntry>, n: nat) -> Seq<Seq<Time>> {
    extended(loaded(entries, n), file_nodes(entries), n)
}

/// The rows of a matrix as sequences.
pub open spec fn rows_of(m: &Vec<Vec<Time>>) -> Seq<Seq<Time>> {
    Seq::new(m@.len(), |i: int| m@[i]@)
}

/// `sum / count` rounded, as `rounded_average` says.
pub fn average(sum: i64, count: u32) -> (r: Time)
    ensures
        r == rounded_average(sum as int, count as int),
{
    if count == 0 {
        if sum > 0 {
            Time::MAX
        } else if sum < 0 {
            Time::MIN
        } else {
            0
        }
    } else {
        let s: i128 = sum as i128;
        let c: i128 = count as i128;
        let q: i128 = if s >= 0 {
            (2 * s + c) / (2 * c)
        } else {
            -((2 * (-s) + c) / (2 * c))
        };
        if q > Time::MAX as i128 {
            Time::MAX
        } else if q < Time::MIN as i128 {
            Time::MIN
        } else {
            q as Time
        }
    }
}

/// The zero triangle keeps its shape.
pub proof fn lemma_zeros_shape(n: nat)
    ensures
        zeros(n).len() == n,
        is_triangle(zeros(n)),
{
}

/// Writing a cell keeps the shape of a triangle.
pub proof fn lemma_with_cell_shape(m: Seq<Seq<Time>>, a: int, b: int, x: Time)
    requires
        is_triangle(m),
        0 <= a < m.len(),
        0 <= b < m.len(),
    ensures
        with_cell(m, a, b, x).len() == m.len(),
        is_triangle(with_cell(m, a, b, x)),
{
}

/// Loading entries gives a triangle of `n` rows.
pub proof fn lemma_loaded_shape(entries: Seq<LatencyEntry>, n: nat)
    ensures
        loaded(entries, n).len() == n,
        is_triangle(loaded(entries, n)),
    decreases entries.len(),
{
    if entries.len() == 0 {
        lemma_zeros_shape(n);
    } else {
        lemma_loaded_shape(entries.drop_last(), n);
        let e = entries.last();
        if e.0 < n && e.1 < n {
            lemma_with_cell_shape(loaded(entries.drop_last(), n), e.0 as int, e.1 as int, e.2);
        }
    }
}

/// The entries of a file describe at least one node, and every node that
/// they name.
pub proof fn lemma_file_nodes_bounds(entries: Seq<LatencyEntry>)
    ensures
        1 <= file_nodes(entries) <= u32::MAX + 1,
        forall|k: int|
            0 <= k < entries.len() ==> (#[trigger] entries[k]).0 < file_nodes(entries)
                && entries[k].1 < file_nodes(entries),
    decreases entries.len(),
{
    if entries.len() > 0 {
        lemma_file_nodes_bounds(entries.drop_last());
        assert forall|k: int| 0 <= k < entries.len() implies (#[trigger] entries[k]).0
            < file_nodes(entries) && entries[k].1 < file_nodes(entries) by {
            if k < entries.len() - 1 {
                assert(entries.drop_last()[k] == entries[k]);
            }
        }
    }
}

/// Synthesizing rows keeps the shape of a triangle, and the rows below `f`.
pub proof fn lemma_extended_shape(m: Seq<Seq<Time>>, f: nat, upto: nat)
    requires
        is_triangle(m),
        upto <= m.len(),
    ensures
        extended(m, f, upto).len() == m.len(),
        is_triangle(extended(m, f, upto)),
        forall|i: int|
            0 <= i < m.len() && (i < f || i >= upto) ==> #[trigger] extended(m, f, upto)[i] == m[i],
    decreases upto,
{
    if upto <= f || f == 0 {
    } else {
        lemma_extended_shape(m, f, (upto - 1) as nat);
    }
}

/// A triangle of `n` rows of zeros.
fn zero_triangle(n: ProcessId) -> (m: Vec<Vec<Time>>)
    ensures
        rows_of(&m) == zeros(n as nat),
{
    let mut m: Vec<Vec<Time>> = Vec::new();
    let mut i: u32 = 0;
    while i < n
        invariant
            i <= n,
            m@.len() == i,
            forall|k: int| 0 <= k < i ==> (#[trigger] m@[k])@ == zeros(n as nat)[k],
        decreases n - i,
    {
        let mut row: Vec<Time> = Vec::new();
        let mut j: u32 = 0;
        while j <= i
            invariant
                i < n,
                j <= i + 1,
                row@.len() == j,
                forall|k: int| 0 <= k < j ==> #[trigger] row@[k] == 0,
            decreases i + 1 - j,
        {
            row.push(0);
            j += 1;
        }
        proof {
            assert(row@ =~= zeros(n as nat)[i as int]);
        }
        m.push(row);
        i += 1;
    }
    proof {
        assert(rows_of(&m) =~= zeros(n as nat));
    }
    m
}

/// Sets the latency between two nodes of a triangle.
fn set_latency(m: &mut Vec<Vec<Time>>, sender: ProcessId, target: ProcessId, latency: Time)
    requires
        is_triangle(rows_of(old(m))),
        sender < old(m)@.len(),
        target < old(m)@.len(),
    ensures
        rows_of(final(m)) == with_cell(rows_of(old(m)), sender as int, target as int, latency),
{
    proof {
        assert(rows_of(m)[sender as int].len() == sender + 1);
        assert(rows_of(m)[target as int].len() == target + 1);
    }
    if sender > target {
        m[sender as usize][target as usize] = latency;
    } else {
        m[target as usize][sender as usize] = latency;
    }
    proof {
        assert(rows_of(m) =~= with_cell(rows_of(old(m)), sender as int, target as int, latency));
    }
}

/// The latency between two nodes of a triangle.
fn get_latency(m: &Vec<Vec<Time>>, sender: ProcessId, target: ProcessId) -> (latency: Time)
    requires
        is_triangle(rows_of(m)),
        sender < m@.len(),
        target < m@.len(),
    ensures
        latency == cell(rows_of(m), sender as int, target as int),
{
    proof {
        assert(rows_of(m)[sender as int].len() == sender + 1);
        assert(rows_of(m)[target as int].len() == target + 1);
    }
    if sender > target {
        m[sender as usize][target as usize]
    } else {
        m[target as usize][sender as usize]
    }
}

/// The number of nodes that the entries describe.
pub fn count_file_nodes(entries: &Vec<LatencyEntry>) -> (f: u64)
    ensures
        f == file_nodes(entries@),
{
    let mut f: u64 = 1;
    let mut k: usize = 0;
    proof {
        assert(entries@.take(0) =~= Seq::<LatencyEntry>::empty());
    }
    while k < entries.len()
        invariant
            k <= entries.len(),
            f == file_nodes(entries@.take(k as int)),
            f <= u32::MAX + 1,
        decreases entries.len() - k,
    {
        let e = entries[k];
        let here: u64 = if e.0 > e.1 {
            e.0 as u64 + 1
        } else {
            e.1 as u64 + 1
        };
        proof {
            assert(entries@.take(k + 1).drop_last() =~= entries@.take(k as int));
            assert(entries@.take(k + 1).last() == e);
        }
        if here > f {
            f = here;
        }
        k += 1;
    }
    proof {
        assert(entries@.take(k as int) =~= entries@);
    }
    f
}

/// The triangle of `n` rows with the entries written to it in order.
fn load(entries: &Vec<LatencyEntry>, n: ProcessId) -> (m: Vec<Vec<Time>>)
    ensures
        rows_of(&m) == loaded(entries@, n as nat),
{
    let mut m = zero_triangle(n);
    let mut k: usize = 0;
    proof {
        assert(entries@.take(0) =~= Seq::<LatencyEntry>::empty());
    }
    while k < entries.len()
        invariant
            k <= entries.len(),
            rows_of(&m) == loaded(entries@.take(k as int), n as nat),
        decreases entries.len() - k,
    {
        let e = entries[k];
        proof {
            lemma_loaded_shape(entries@.take(k as int), n as nat);
            assert(entries@.take(k + 1).drop_last() =~= entries@.take(k as int));
            assert(entries@.take(k + 1).last() == e);
        }
        if e.0 < n && e.1 < n {
            set_latency(&mut m, e.0, e.1, e.2);
        }
        k += 1;
    }
    proof {
        assert(entries@.take(k as int) =~= entries@);
    }
    m
}

/// The sum of a row stays within what its length allows.
pub proof fn lemma_row_sum_bounds(row: Seq<Time>)
    ensures
        -0x8000_0000 * row.len() <= row_sum(row) <= 0x7fff_ffff * row.len(),
    decreases row.len(),
{
    if row.len() > 0 {
        lemma_row_sum_bounds(row.drop_last());
    }
}

/// Row `i` of a node that the file does not describe.
fn synthesize_row(m: &Vec<Vec<Time>>, i: ProcessId, f: u64) -> (row: Vec<Time>)
    requires
        is_triangle(rows_of(m)),
        i < m@.len(),
        0 < f <= i,
    ensures
        row@ == synthesized_row(rows_of(m), i as int, f as int),
{
    let template: u32 = (i as u64 % f) as u32;
    let ghost copied = Seq::new(
        (i + 1) as nat,
        |j: int|
            if j < i {
                cell(rows_of(m), i as int % f as int, j)
            } else {
                0i32
            },
    );
    let mut row: Vec<Time> = Vec::new();
    let mut sum: i64 = 0;
    let mut j: u32 = 0;
    while j < i
        invariant
            j <= i,
            i < m@.len(),
            is_triangle(rows_of(m)),
            template == i as int % f as int,
            template < i,
            copied.len() == i + 1,
            forall|k: int| 0 <= k < i ==> #[trigger] copied[k] == cell(rows_of(m), template as int, k),
            row@ == copied.take(j as int),
            sum == row_sum(row@),
        decreases i - j,
    {
        let latency = get_latency(m, template, j);
        proof {
            lemma_row_sum_bounds(row@);
            assert(row@.len() == j);
            assert(copied[j as int] == latency);
            assert(copied.take(j + 1) =~= copied.take(j as int).push(latency));
            assert(copied.take(j + 1).drop_last() =~= copied.take(j as int));
        }
        row.push(latency);
        sum = sum + latency as i64;
        j += 1;
    }
    proof {
        assert(copied.take(i + 1) =~= copied.take(i as int).push(0i32));
        assert(copied.take(i + 1).drop_last() =~= copied.take(i as int));
        assert(copied.take(i + 1) =~= copied);
    }
    row.push(0);
    let mean = average(sum, i - 1);
    row.set(template as usize, mean);
    row
}

/// A network whose latencies are given pair by pair.
#[derive(Debug)]
pub struct MatrixNetwork {
    latency_matrix: Vec<Vec<Time>>,
}

impl MatrixNetwork {
    /// The rows of the latency matrix, of which only the lower triangle is
    /// kept: row `i` holds the latencies between node `i` and the nodes up
    /// to `i`.
    pub closed spec fn rows(&self) -> Seq<Seq<Time>> {
        rows_of(&self.latency_matrix)
    }

    /// The matrix is a lower triangle.
    pub open spec fn wf(&self) -> bool {
        is_triangle(self.rows())
    }

    /// The network of `n` processes from the entries of a latency file,
    /// which may describe fewer nodes than `n`, or more. Entries are written
    /// in order; a process that the file does not describe copies node
    /// `i mod f`, where `f` is the number of nodes that the file describes.
    pub fn new(entries: &Vec<LatencyEntry>, n: ProcessId) -> (network: MatrixNetwork)
        ensures
            network.wf(),
            network.rows().len() == n,
            network.rows() == matrix_of(entries@, n as nat),
    {
        let mut m = load(entries, n);
        let f = count_file_nodes(entries);
        proof {
            lemma_loaded_shape(entries@, n as nat);
            lemma_file_nodes_bounds(entries@);
        }
        if f < n as u64 {
            let mut i: u32 = f as u32;
            while i < n
                invariant
                    0 < f <= i <= n,
                    f == file_nodes(entries@),
                    rows_of(&m) == extended(loaded(entries@, n as nat), f as nat, i as nat),
                    is_triangle(loaded(entries@, n as nat)),
                    loaded(entries@, n as nat).len() == n,
                decreases n - i,
            {
                proof {
                    lemma_extended_shape(loaded(entries@, n as nat), f as nat, i as nat);
                }
                let row = synthesize_row(&m, i, f);
                m[i as usize] = row;
                proof {
                    assert(rows_of(&m) =~= extended(
                        loaded(entries@, n as nat),
                        f as nat,
                        (i + 1) as nat,
                    ));
                }
                i += 1;
            }
        }
        proof {
            lemma_extended_shape(loaded(entries@, n as nat), f as nat, n as nat);
        }
        MatrixNetwork { latency_matrix: m }
    }

    /// The network of a given matrix, where that is a lower triangle.
    pub fn new_from_matrix(latency_matrix: Vec<Vec<Time>>) -> (network: Option<MatrixNetwork>)
        ensures
            network.is_some() == is_triangle(rows_of(&latency_matrix)),
            network matches Some(net) ==> net.wf() && net.rows() == rows_of(&latency_matrix),
    {
        let mut i: usize = 0;
        while i < latency_matrix.len()
            invariant
                i <= latency_matrix@.len(),
                forall|k: int| 0 <= k < i ==> (#[trigger] rows_of(&latency_matrix)[k]).len() == k + 1,
            decreases latency_matrix.len() - i,
        {
            if i == usize::MAX || latency_matrix[i].len() != i + 1 {
                proof {
                    assert(rows_of(&latency_matrix)[i as int].len() != i + 1);
                }
                return None;
            }
            i += 1;
        }
        Some(MatrixNetwork { latency_matrix })
    }

    /// The number of processes of the network.
    pub fn len(&self) -> (n: usize)
        ensures
            n == self.rows().len(),
    {
        self.latency_matrix.len()
    }

    /// The rows of the latency matrix.
    pub fn latency_matrix(&self) -> (m: &Vec<Vec<Time>>)
        ensures
            rows_of(m) == self.rows(),
    {
        &self.latency_matrix
    }

    /// The base latency between two processes of the network, which is the
    /// same in both directions.
    pub fn base_latency(&self, sender: ProcessId, target: ProcessId) -> (latency: Time)
        requires
            self.wf(),
            sender < self.rows().len(),
            target < self.rows().len(),
        ensures
            latency == cell(self.rows(), sender as int, target as int),
    {
        get_latency(&self.latency_matrix, sender, target)
    }
}

/// The last row of a network of one node more than the file describes: for
/// every node `j` but the first, the latency between the new node and `j`
/// is the latency between `j` and the first node, which the new node
/// copies; towards itself its latency is zero; and the cell towards the
/// first node holds the average of its row as copied, the first node's
/// latency to itself included, over the number of the other nodes.
pub proof fn lemma_one_more_node(entries: Seq<LatencyEntry>, n: nat)
    requires
        n == file_nodes(entries) + 1,
    ensures
        forall|j: int|
            0 < j < n - 1 ==> #[trigger] matrix_of(entries, n)[n - 1][j] == matrix_of(
                entries,
                n,
            )[j][0],
        matrix_of(entries, n)[n - 1][n - 1] == 0,
        matrix_of(entries, n)[n - 1][0] == rounded_average(
            row_sum(matrix_of(entries, n)[n - 1].update(0, loaded(entries, n)[0][0])),
            n - 2,
        ),
{
    let f = file_nodes(entries);
    let base = loaded(entries, n);
    lemma_loaded_shape(entries, n);
    lemma_file_nodes_bounds(entries);
    lemma_extended_shape(base, f, f);
    lemma_extended_shape(base, f, n);
    let before = extended(base, f, f);
    assert(before == base);
    let last = (n - 1) as int;
    assert(last % (f as int) == 0) by {
        assert(last == f);
    }
    let copied = Seq::new(
        (last + 1) as nat,
        |j: int|
            if j < last {
                cell(before, last % (f as int), j)
            } else {
                0i32
            },
    );
    assert(matrix_of(entries, n)[last] == synthesized_row(before, last, f as int));
    assert(matrix_of(entries, n)[last].update(0, base[0][0]) =~= copied);
}

/// The network of a run: constant, or pair by pair.
#[derive(Debug)]
pub enum Network {
    Constant(ConstantNetwork),
    Matrix(MatrixNetwork),
}

impl Network {
    /// The network is sound and knows the processes `0..n`.
    pub open spec fn covers(&self, n: nat) -> bool {
        match self {
            Network::Constant(_) => true,
            Network::Matrix(m) => m.wf() && n <= m.rows().len(),
        }
    }

    /// The base latency between two processes.
    pub open spec fn base(&self, sender: ProcessId, target: ProcessId) -> Time {
        match self {
            Network::Constant(c) => c.latency,
            Network::Matrix(m) => cell(m.rows(), sender as int, target as int),
        }
    }

    /// The base latency between two processes that the network knows.
    pub fn base_latency(&self, sender: ProcessId, target: ProcessId) -> (latency: Time)
        requires
            self.covers((sender + 1) as nat),
            self.covers((target + 1) as nat),
        ensures
            latency == self.base(sender, target),
    {
        match self {
            Network::Constant(c) => c.base_latency(sender, target),
            Network::Matrix(m) => m.base_latency(sender, target),
        }
    }
}

impl Default for Network {
    /// A constant network with a latency of 100 time units.
    fn default() -> (network: Network)
        ensures
            network == Network::Constant(ConstantNetwork { latency: 100 }),
    {
        Network::Constant(ConstantNetwork { latency: 100 })
    }
}

} // verus!
