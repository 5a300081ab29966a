use concurrency::error::MatrixError;
use concurrency::matrix::{multiply, run_task, task_for, worker_for, Assembly, Matrix, MsgInput, MsgOutput};
use concurrency::vector::{dot_product, Vector};

#[test]
fn test_matrix() {
    let a = Matrix::new(vec![1, 2, 3, 4, 5, 6], 2, 3);
    let b = Matrix::new(vec![1, 2, 3, 4, 5, 6], 3, 2);
    let r = multiply(&a, &b).unwrap();
    assert_eq!(r.cols(), 2);
    assert_eq!(r.rows(), 2);
    assert_eq!(*r.data(), vec![22, 28, 49, 64]);
}

#[test]
fn test_a_can_not_multiply_b() {
    let a = Matrix::new(vec![1, 2, 3, 4, 5, 6], 2, 3);
    let b = Matrix::new(vec![1, 2, 3, 4, 5, 6], 2, 3);
    let r = multiply(&a, &b);
    assert!(r.is_err());
}

#[test]
fn test_matrix_display() {
    let a = Matrix::new(vec![1, 2, 3, 4, 5, 6], 2, 3);
    assert_eq!(a.display_string(), "{1 2 3, 4 5 6}");
    let b = Matrix::new(vec![1, 2, 3, 4, 5, 6], 3, 2);
    assert_eq!(b.display_string(), "{1 2, 3 4, 5 6}");
}

#[test]
fn incompatible_shapes_give_dimension_error() {
    let a = Matrix::new(vec![1, 2, 3, 4, 5, 6], 2, 3);
    let b = Matrix::new(vec![1, 2, 3, 4, 5, 6], 2, 3);
    assert_eq!(multiply(&a, &b).err(), Some(MatrixError::Dimension));
}

#[test]
fn degenerate_shapes_give_dimension_error() {
    let a: Matrix<i64> = Matrix::new(vec![], 0, 3);
    let b: Matrix<i64> = Matrix::new(vec![], 0, 5);
    assert_eq!(multiply(&a, &b).err(), Some(MatrixError::Dimension));
    let c: Matrix<i64> = Matrix::new(vec![], 2, 0);
    let d: Matrix<i64> = Matrix::new(vec![1, 2], 1, 2);
    assert_eq!(multiply(&c, &d).err(), Some(MatrixError::Dimension));
}

#[test]
fn zero_inner_dimension_gives_zeros() {
    let a: Matrix<i64> = Matrix::new(vec![], 2, 0);
    let b: Matrix<i64> = Matrix::new(vec![], 0, 3);
    let r = multiply(&a, &b).unwrap();
    assert_eq!(r.rows(), 2);
    assert_eq!(r.cols(), 3);
    assert_eq!(*r.data(), vec![0; 6]);
}

#[test]
fn product_of_single_cells() {
    let a = Matrix::new(vec![7i64], 1, 1);
    let b = Matrix::new(vec![-6i64], 1, 1);
    assert_eq!(*multiply(&a, &b).unwrap().data(), vec![-42]);
}

#[test]
fn product_with_unsigned_elements() {
    let a = Matrix::new(vec![1u64, 2, 3, 4], 2, 2);
    let b = Matrix::new(vec![5u64, 6, 7, 8], 2, 2);
    assert_eq!(*multiply(&a, &b).unwrap().data(), vec![19, 22, 43, 50]);
}

#[test]
fn product_wraps_on_overflow() {
    let a = Matrix::new(vec![i32::MAX, 1], 1, 2);
    let b = Matrix::new(vec![1, 1], 2, 1);
    assert_eq!(*multiply(&a, &b).unwrap().data(), vec![i32::MIN]);
}

struct Lcg(u64);

impl Lcg {
    fn next(&mut self) -> i64 {
        self.0 = self.0.wrapping_mul(6364136223846793005).wrapping_add(1442695040888963407);
        ((self.0 >> 33) % 2001) as i64 - 1000
    }
}

fn random_matrix(g: &mut Lcg, r: usize, c: usize) -> (Vec<i64>, Matrix<i64>) {
    let data: Vec<i64> = (0..r * c).map(|_| g.next()).collect();
    (data.clone(), Matrix::new(data, r, c))
}

fn naive(a: &[i64], b: &[i64], r: usize, k: usize, c: usize) -> Vec<i64> {
    let mut out = vec![0i64; r * c];
    for i in 0..r {
        for j in 0..c {
            let mut s = 0i64;
            for m in 0..k {
                s = s.wrapping_add(a[i * k + m].wrapping_mul(b[m * c + j]));
            }
            out[i * c + j] = s;
        }
    }
    out
}

#[test]
fn random_products_match_naive_loops() {
    let mut g = Lcg(42);
    for &(r, k, c) in &[(1, 1, 1), (3, 7, 2), (17, 5, 29), (64, 80, 48), (150, 120, 130)] {
        let (ad, a) = random_matrix(&mut g, r, k);
        let (bd, b) = random_matrix(&mut g, k, c);
        let m = multiply(&a, &b).unwrap();
        assert_eq!(m.rows(), r);
        assert_eq!(m.cols(), c);
        assert_eq!(*m.data(), naive(&ad, &bd, r, k, c));
    }
}

#[test]
fn cells_are_row_dot_column() {
    let a = Matrix::new(vec![1, -2, 3, 0, 5, 6], 2, 3);
    let b = Matrix::new(vec![2, 1, 0, -1, 4, 3], 3, 2);
    let m = multiply(&a, &b).unwrap();
    for i in 0..2 {
        for j in 0..2 {
            let row = a.row_vector(i);
            let col = b.col_vector(j);
            assert_eq!(m.data()[i * 2 + j], dot_product(row, col).unwrap());
        }
    }
}

#[test]
fn row_and_column_extraction() {
    let m = Matrix::new(vec![1, 2, 3, 4, 5, 6], 2, 3);
    assert_eq!(*m.row_vector(1).as_vec(), vec![4, 5, 6]);
    assert_eq!(*m.col_vector(2).as_vec(), vec![3, 6]);
}

#[test]
fn tasks_name_their_cell_row_and_column() {
    let a = Matrix::new(vec![1, 2, 3, 4, 5, 6], 2, 3);
    let b = Matrix::new(vec![1, 2, 3, 4, 5, 6], 3, 2);
    let t = task_for(&a, &b, 3);
    assert_eq!(t.idx(), 3);
    let out = run_task(t).unwrap();
    assert_eq!(out.idx(), 3);
    let mut buffer = Assembly::new(1, 4);
    buffer.accept(out).unwrap();
    let single = buffer.finish();
    assert_eq!(single.err(), Some(MatrixError::ChannelBroken));
}

#[test]
fn result_is_independent_of_arrival_order_and_worker_count() {
    let a = Matrix::new(vec![1, 2, 3, 4, 5, 6], 2, 3);
    let b = Matrix::new(vec![1, 2, 3, 4, 5, 6], 3, 2);
    let expected = multiply(&a, &b).unwrap();
    for workers in 1..6usize {
        let mut queues: Vec<Vec<MsgInput<i32>>> = (0..workers).map(|_| Vec::new()).collect();
        for idx in 0..4 {
            queues[worker_for(idx, workers)].push(task_for(&a, &b, idx));
        }
        let mut buffer = Assembly::new(2, 2);
        for queue in queues.into_iter().rev() {
            for task in queue.into_iter().rev() {
                buffer.accept(run_task(task).unwrap()).unwrap();
            }
        }
        assert_eq!(*buffer.finish().unwrap().data(), *expected.data());
    }
}

#[test]
fn round_robin_assignment() {
    assert_eq!(worker_for(0, 4), 0);
    assert_eq!(worker_for(5, 4), 1);
    assert_eq!(worker_for(11, 4), 3);
    assert_eq!(worker_for(7, 1), 0);
}

#[test]
fn duplicate_reply_breaks_the_pairing() {
    let mut buffer: Assembly<i32> = Assembly::new(1, 2);
    assert!(buffer.accept(MsgOutput::new(0, 5)).is_ok());
    assert_eq!(buffer.accept(MsgOutput::new(0, 6)), Err(MatrixError::ChannelBroken));
    assert_eq!(buffer.accept(MsgOutput::new(2, 6)), Err(MatrixError::ChannelBroken));
    assert!(buffer.accept(MsgOutput::new(1, 7)).is_ok());
    assert_eq!(*buffer.finish().unwrap().data(), vec![5, 7]);
}

#[test]
fn dot_product_sums_in_order() {
    let a = Vector::new(vec![1i64, 2, 3]);
    let b = Vector::new(vec![4i64, -5, 6]);
    assert_eq!(dot_product(a, b), Ok(12));
    assert_eq!(dot_product(Vector::<i32>::new(vec![]), Vector::new(vec![])), Ok(0));
}

#[test]
fn dot_product_length_mismatch() {
    let a = Vector::new(vec![1i64, 2, 3]);
    let b = Vector::new(vec![4i64, 5]);
    assert_eq!(dot_product(a, b), Err(MatrixError::LengthMismatch));
    let t = MsgInput::new(0, Vector::new(vec![1u32]), Vector::new(vec![]));
    assert_eq!(run_task(t).err(), Some(MatrixError::LengthMismatch));
}

#[test]
fn display_of_other_shapes() {
    let e: Matrix<i32> = Matrix::new(vec![], 0, 0);
    assert_eq!(e.display_string(), "{}");
    let n = Matrix::new(vec![-10i64, 0, 305, i64::MIN], 2, 2);
    assert_eq!(n.display_string(), "{-10 0, 305 -9223372036854775808}");
    let u = Matrix::new(vec![u64::MAX], 1, 1);
    assert_eq!(u.display_string(), "{18446744073709551615}");
    let z: Matrix<i32> = Matrix::new(vec![], 3, 0);
    assert_eq!(z.display_string(), "{, , }");
}

#[test]
fn debug_form() {
    let a = Matrix::new(vec![1, 2, 3, 4, 5, 6], 2, 3);
    assert_eq!(a.debug_string(), "Matrix(row=2, col=3, {1 2 3, 4 5 6})");
}
