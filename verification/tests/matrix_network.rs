use corten::kernel::SimulationKernel;
use corten::network::{average, count_file_nodes, latency_with, ConstantNetwork, MatrixNetwork, Network, NoJitter};

use rand::distributions::{Distribution, Uniform};

type Time = i32;

/// The lines of a latency file of `nodes` nodes: one for each ordered pair
/// of distinct nodes, the same latency in both directions.
fn latency_lines(nodes: u32) -> Vec<(u32, u32, Time)> {
    let mut lines = Vec::new();
    for i in 0..nodes {
        for j in 0..nodes {
            if i != j {
                let (a, b) = if i > j { (i, j) } else { (j, i) };
                lines.push((i, j, 10 + ((a * 31 + b * 17) % 100) as Time));
            }
        }
    }
    lines
}

#[test]
fn test_matrix_exact_nodes() {
    let total_nodes = 226;
    let network = MatrixNetwork::new(&latency_lines(226), total_nodes);
    assert_eq!(network.latency_matrix().len(), 226);
}

#[test]
fn test_matrix_less_nodes() {
    let total_nodes = 10;
    let network = MatrixNetwork::new(&latency_lines(226), total_nodes);
    assert_eq!(network.latency_matrix().len(), 10);
}

#[test]
fn test_matrix_one_more_node() {
    let total_nodes = 227;
    let network = MatrixNetwork::new(&latency_lines(226), total_nodes);
    let latency_matrix = network.latency_matrix();
    assert_eq!(latency_matrix.len(), total_nodes as usize);
    for i in 1..(total_nodes - 1) {
        let latency = latency_matrix[(total_nodes - 1) as usize][i as usize];
        let compare_latency = latency_matrix[i as usize][0 as usize];
        assert_ne!(latency, 0);
        assert_eq!(latency, compare_latency);
    }
    let mut latencies_sum = 0;
    for i in 1..total_nodes {
        latencies_sum += latency_matrix[(total_nodes - 1) as usize][i as usize];
    }
    let latency = latencies_sum as f32 / (total_nodes - 2) as f32;
    assert_eq!(latency_matrix[(total_nodes - 1) as usize][0], latency.round() as Time);
    assert_eq!(latency_matrix[(total_nodes - 1) as usize][(total_nodes - 1) as usize], 0);
}

#[test]
fn matrix_is_a_lower_triangle_for_every_size() {
    for n in [0u32, 1, 3, 5, 6, 7, 13] {
        let network = MatrixNetwork::new(&latency_lines(6), n);
        let m = network.latency_matrix();
        assert_eq!(m.len(), n as usize);
        assert_eq!(network.len(), n as usize);
        for (i, row) in m.iter().enumerate() {
            assert_eq!(row.len(), i + 1);
        }
        for a in 0..n {
            for b in 0..n {
                assert_eq!(network.base_latency(a, b), network.base_latency(b, a));
            }
        }
    }
}

#[test]
fn small_matrix_has_exact_cells() {
    // Three nodes in the file, five processes.
    let lines = vec![(0, 1, 10), (1, 0, 10), (0, 2, 20), (2, 0, 20), (1, 2, 31), (2, 1, 31)];
    let network = MatrixNetwork::new(&lines, 5);
    let m = network.latency_matrix();
    assert_eq!(m[0], vec![0]);
    assert_eq!(m[1], vec![10, 0]);
    assert_eq!(m[2], vec![20, 31, 0]);
    // Node 3 copies node 0: 0, 10, 20 towards 0, 1, 2; the average 30 / 2
    // takes the place of the latency towards node 0.
    assert_eq!(m[3], vec![15, 10, 20, 0]);
    // Node 4 copies node 1: 10, 0, 31, 10 towards 0..3; the average
    // 51 / 3 takes the place of the latency towards node 1.
    assert_eq!(m[4], vec![10, 17, 31, 10, 0]);
    assert_eq!(network.base_latency(4, 2), 31);
    assert_eq!(network.base_latency(2, 4), 31);
}

#[test]
fn later_lines_overwrite_earlier_ones_and_far_nodes_are_skipped() {
    let lines = vec![(0, 1, 10), (1, 0, 12), (5, 0, 99), (1, 1, 3)];
    assert_eq!(count_file_nodes(&lines), 6);
    let network = MatrixNetwork::new(&lines, 2);
    assert_eq!(network.latency_matrix(), &vec![vec![0], vec![12, 3]]);
    assert_eq!(count_file_nodes(&Vec::new()), 1);
    assert_eq!(count_file_nodes(&vec![(u32::MAX, 0, 1)]), u32::MAX as u64 + 1);
}

#[test]
fn empty_file_gives_a_defined_matrix() {
    let network = MatrixNetwork::new(&Vec::new(), 3);
    assert_eq!(network.latency_matrix(), &vec![vec![0], vec![0, 0], vec![0, 0, 0]]);
}

#[test]
fn average_rounds_half_away_from_zero() {
    assert_eq!(average(30, 2), 15);
    assert_eq!(average(51, 3), 17);
    assert_eq!(average(5, 2), 3);
    assert_eq!(average(-5, 2), -3);
    assert_eq!(average(7, 3), 2);
    assert_eq!(average(8, 3), 3);
    assert_eq!(average(-7, 3), -2);
    assert_eq!(average(0, 5), 0);
    assert_eq!(average(0, 0), 0);
    assert_eq!(average(4, 0), i32::MAX);
    assert_eq!(average(-4, 0), i32::MIN);
    assert_eq!(average(i64::MAX, 1), i32::MAX);
    assert_eq!(average(i64::MIN, 1), i32::MIN);
}

#[test]
fn new_from_matrix_wants_a_triangle() {
    assert!(MatrixNetwork::new_from_matrix(vec![vec![0], vec![5, 0]]).is_some());
    assert!(MatrixNetwork::new_from_matrix(Vec::new()).is_some());
    assert!(MatrixNetwork::new_from_matrix(vec![vec![0], vec![5]]).is_none());
    assert!(MatrixNetwork::new_from_matrix(vec![vec![0, 1]]).is_none());
    let network = MatrixNetwork::new_from_matrix(vec![vec![0], vec![5, 0]]).unwrap();
    assert_eq!(network.base_latency(0, 1), 5);
}

#[test]
fn latency_is_the_clamped_sum_unless_dropped() {
    assert_eq!(latency_with(true, 100, 5), None);
    assert_eq!(latency_with(false, 100, 5), Some(105));
    assert_eq!(latency_with(false, 100, -30), Some(70));
    assert_eq!(latency_with(false, 100, -130), Some(0));
    assert_eq!(latency_with(false, 0, 0), Some(0));
    assert_eq!(latency_with(false, i32::MAX, 1), Some(i32::MAX));
    assert_eq!(latency_with(false, i32::MIN, i32::MIN), Some(0));
}

#[test]
fn constant_network_and_no_jitter() {
    let network = ConstantNetwork::new(42);
    assert_eq!(network.base_latency(0, 7), 42);
    assert_eq!(ConstantNetwork::default().latency, 100);
    assert_eq!(NoJitter.get_jitter(100), 0);
    assert_eq!(NoJitter.get_jitter(-3), 0);
    match Network::default() {
        Network::Constant(c) => assert_eq!(c.latency, 100),
        Network::Matrix(_) => panic!("the default network is constant"),
    }
    assert_eq!(Network::Constant(network).base_latency(3, 4), 42);
}

#[test]
fn loss_of_zero_never_drops_and_loss_of_one_always_does() {
    let mut kernel = SimulationKernel::new(0);
    let uniform = Uniform::new(0.0, 1.0);
    for _ in 0..10_000 {
        let draw: f64 = uniform.sample(&mut kernel.rng);
        assert_eq!(latency_with(draw < 0.0, 100, 0), Some(100));
        assert_eq!(latency_with(draw < 1.0, 100, 0), None);
    }
}
