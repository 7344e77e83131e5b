use chronograph::chrono::ChronoGraph;
use chronograph::sequential::TemporalGraph;
use rand::Rng;
use rayon::iter::{IntoParallelIterator, ParallelIterator};
use rayon::ThreadPoolBuilder;
use std::mem::size_of_val;
use std::time::Instant;

const NODE_COUNT: usize = 10_000;
const EDGE_PER_NODE: usize = 10;
const DENSE_EDGE_PER_NODE: usize = 100;
const QUERY_TIMESTAMP: u64 = 50;

#[test]
fn benchmark_tg_node_edge_insertion() {
    let mut tg = TemporalGraph::new();

    let start_nodes = Instant::now();
    (0..NODE_COUNT).for_each(|i| tg.add_node(i));
    let duration_nodes = start_nodes.elapsed();

    let node_insert_latency = duration_nodes.as_secs_f64() / NODE_COUNT as f64;

    println!(
        "[TG Benchmark] Added {} nodes in {:?} (insert latency: {:.6} sec/node)",
        NODE_COUNT, duration_nodes, node_insert_latency
    );

    let start_edges = Instant::now();
    (0..NODE_COUNT).for_each(|i| {
        (0..EDGE_PER_NODE).for_each(|j| {
            let _ = tg.add_edge(i, (i + j + 1) % NODE_COUNT, (j as u64) * 10);
        });
    });
    let duration_edges = start_edges.elapsed();

    let edge_insert_latency = duration_edges.as_secs_f64() / (NODE_COUNT * EDGE_PER_NODE) as f64;

    println!(
        "[TG Benchmark] Added {} edges in {:?} (insert latency: {:.6} sec/edge)",
        NODE_COUNT * EDGE_PER_NODE,
        duration_edges,
        edge_insert_latency
    );

    let start_query = Instant::now();
    let total_neighbors: usize = (0..NODE_COUNT)
        .map(|i| tg.get_neighbors_at(i, QUERY_TIMESTAMP).len())
        .sum();
    let duration_query = start_query.elapsed();

    let query_throughput = NODE_COUNT as f64 / duration_query.as_secs_f64();

    println!(
        "[TG Benchmark] Queried neighbors at timestamp {} for {} nodes in {:?} (total neighbors: {}, throughput: {:.2} queries/sec)",
        QUERY_TIMESTAMP, NODE_COUNT, duration_query, total_neighbors, query_throughput
    );

    let memory_overhead = size_of_val(&tg);

    println!("[TG Benchmark] Approximate memory overhead: {} bytes", memory_overhead);

    // Edge j of every node is active from 10 * j on: j = 0..=5 are active at 50.
    assert_eq!(total_neighbors, NODE_COUNT * 6);
}

#[test]
fn benchmark_cg_node_edge_insertion() {
    let mut cg = ChronoGraph::new();

    let start_nodes = Instant::now();
    (0..NODE_COUNT).for_each(|i| cg.add_node(i));
    let duration_nodes = start_nodes.elapsed();

    let node_insert_latency = duration_nodes.as_secs_f64() / NODE_COUNT as f64;

    println!(
        "[CG Benchmark] Added {} nodes in {:?} (insert latency: {:.6} sec/node)",
        NODE_COUNT, duration_nodes, node_insert_latency
    );

    let start_edges = Instant::now();
    (0..NODE_COUNT).for_each(|i| {
        (0..EDGE_PER_NODE).for_each(|j| {
            let _ = cg.add_edge(i, (i + j + 1) % NODE_COUNT, (j as u64) * 10);
        });
    });
    let duration_edges = start_edges.elapsed();

    let edge_insert_latency = duration_edges.as_secs_f64() / (NODE_COUNT * EDGE_PER_NODE) as f64;

    println!(
        "[CG Benchmark] Added {} edges in {:?} (insert latency: {:.6} sec/edge)",
        NODE_COUNT * EDGE_PER_NODE,
        duration_edges,
        edge_insert_latency
    );

    let start_query = Instant::now();
    let total_neighbors: usize = (0..NODE_COUNT)
        .into_par_iter()
        .map(|i| cg.get_neighbors_at(i, QUERY_TIMESTAMP).len())
        .sum();
    let duration_query = start_query.elapsed();

    let query_throughput = NODE_COUNT as f64 / duration_query.as_secs_f64();

    println!(
        "[CG Benchmark] Queried neighbors at timestamp {} for {} nodes in {:?} (total neighbors: {}, throughput: {:.2} queries/sec)",
        QUERY_TIMESTAMP, NODE_COUNT, duration_query, total_neighbors, query_throughput
    );

    let memory_overhead = size_of_val(&cg);

    println!("[CG Benchmark] Approximate memory overhead: {} bytes", memory_overhead);

    assert_eq!(total_neighbors, NODE_COUNT * 6);
}

#[test]
fn benchmark_tg_dense() {
    let mut tg = TemporalGraph::new();

    (0..NODE_COUNT).for_each(|i| tg.add_node(i));

    let start_edges = Instant::now();
    (0..NODE_COUNT).for_each(|i| {
        (0..DENSE_EDGE_PER_NODE).for_each(|j| {
            let _ = tg.add_edge(i, (i + j + 1) % NODE_COUNT, (j as u64) * 5);
        });
    });
    let duration_edges = start_edges.elapsed();

    let edge_insert_latency =
        duration_edges.as_secs_f64() / (NODE_COUNT * DENSE_EDGE_PER_NODE) as f64;
    println!(
        "[TG Dense] Inserted {} edges in {:?} ({:.6} sec/edge)",
        NODE_COUNT * DENSE_EDGE_PER_NODE,
        duration_edges,
        edge_insert_latency
    );

    let start_query = Instant::now();
    let total_neighbors: usize = (0..NODE_COUNT)
        .map(|i| tg.get_neighbors_at(i, QUERY_TIMESTAMP).len())
        .sum();
    let duration_query = start_query.elapsed();

    let query_throughput = NODE_COUNT as f64 / duration_query.as_secs_f64();
    println!(
        "[TG Dense] Total neighbors: {}, throughput: {:.2} queries/sec",
        total_neighbors, query_throughput
    );

    println!("[TG Dense] Memory: {} bytes", size_of_val(&tg));

    // Edge j of every node is active from 5 * j on: j = 0..=10 are active at 50.
    assert_eq!(total_neighbors, NODE_COUNT * 11);
}

#[test]
fn benchmark_cg_dense() {
    let mut cg = ChronoGraph::new();

    (0..NODE_COUNT).for_each(|i| cg.add_node(i));

    let start_edges = Instant::now();
    (0..NODE_COUNT).for_each(|i| {
        (0..DENSE_EDGE_PER_NODE).for_each(|j| {
            let _ = cg.add_edge(i, (i + j + 1) % NODE_COUNT, (j as u64) * 5);
        });
    });
    let duration_edges = start_edges.elapsed();

    let edge_insert_latency =
        duration_edges.as_secs_f64() / (NODE_COUNT * DENSE_EDGE_PER_NODE) as f64;
    println!(
        "[CG Dense] Inserted {} edges in {:?} ({:.6} sec/edge)",
        NODE_COUNT * DENSE_EDGE_PER_NODE,
        duration_edges,
        edge_insert_latency
    );

    let start_query = Instant::now();
    let total_neighbors: usize = (0..NODE_COUNT)
        .into_par_iter()
        .map(|i| cg.get_neighbors_at(i, QUERY_TIMESTAMP).len())
        .sum();
    let duration_query = start_query.elapsed();

    let query_throughput = NODE_COUNT as f64 / duration_query.as_secs_f64();
    println!(
        "[CG Dense] Total neighbors: {}, throughput: {:.2} queries/sec",
        total_neighbors, query_throughput
    );

    println!("[CG Dense] Memory: {} bytes", size_of_val(&cg));

    assert_eq!(total_neighbors, NODE_COUNT * 11);
}

#[test]
fn benchmark_tg_variable_timestamps() {
    let start_total = Instant::now();

    let mut tg = TemporalGraph::new();
    let mut rng = rand::thread_rng();

    (0..NODE_COUNT).for_each(|i| tg.add_node(i));

    let mut active_at_query: usize = 0;
    let start_edges = Instant::now();
    (0..NODE_COUNT).for_each(|i| {
        (0..EDGE_PER_NODE).for_each(|j| {
            let random_ts: u64 = rng.gen_range(0..100);
            if random_ts <= QUERY_TIMESTAMP {
                active_at_query += 1;
            }
            let _ = tg.add_edge(i, (i + j + 1) % NODE_COUNT, random_ts);
        });
    });
    let duration_edges = start_edges.elapsed();

    let edge_insert_latency = duration_edges.as_secs_f64() / (NODE_COUNT * EDGE_PER_NODE) as f64;
    println!(
        "[TG Variable TS] Inserted edges in {:?} ({:.6} sec/edge)",
        duration_edges, edge_insert_latency
    );

    let start_query = Instant::now();
    let total_neighbors: usize = (0..NODE_COUNT)
        .map(|i| tg.get_neighbors_at(i, QUERY_TIMESTAMP).len())
        .sum();
    let duration_query = start_query.elapsed();

    let query_throughput = NODE_COUNT as f64 / duration_query.as_secs_f64();
    println!(
        "[TG Variable TS] Total neighbors: {}, throughput: {:.2} queries/sec",
        total_neighbors, query_throughput
    );

    println!("[TG Variable TS] Memory: {} bytes", size_of_val(&tg));
    println!("[TG Variable TS] Total benchmark time: {:?}", start_total.elapsed());

    assert_eq!(total_neighbors, active_at_query);
}

#[test]
fn benchmark_cg_variable_timestamps() {
    let start_total = Instant::now();

    let mut cg = ChronoGraph::new();
    let mut rng = rand::thread_rng();

    (0..NODE_COUNT).for_each(|i| cg.add_node(i));

    let mut active_at_query: usize = 0;
    let start_edges = Instant::now();
    (0..NODE_COUNT).for_each(|i| {
        (0..EDGE_PER_NODE).for_each(|j| {
            let random_ts: u64 = rng.gen_range(0..100);
            if random_ts <= QUERY_TIMESTAMP {
                active_at_query += 1;
            }
            let _ = cg.add_edge(i, (i + j + 1) % NODE_COUNT, random_ts);
        });
    });
    let duration_edges = start_edges.elapsed();

    let edge_insert_latency = duration_edges.as_secs_f64() / (NODE_COUNT * EDGE_PER_NODE) as f64;
    println!(
        "[CG Variable TS] Inserted edges in {:?} ({:.6} sec/edge)",
        duration_edges, edge_insert_latency
    );

    let start_query = Instant::now();
    let total_neighbors: usize = (0..NODE_COUNT)
        .into_par_iter()
        .map(|i| cg.get_neighbors_at(i, QUERY_TIMESTAMP).len())
        .sum();
    let duration_query = start_query.elapsed();

    let query_throughput = NODE_COUNT as f64 / duration_query.as_secs_f64();
    println!(
        "[CG Variable TS] Total neighbors: {}, throughput: {:.2} queries/sec",
        total_neighbors, query_throughput
    );

    println!("[CG Variable TS] Memory: {} bytes", size_of_val(&cg));
    println!("[CG Variable TS] Total benchmark time: {:?}", start_total.elapsed());

    assert_eq!(total_neighbors, active_at_query);
}

#[test]
fn scalability_test() {
    let pool = ThreadPoolBuilder::new()
        .num_threads(128)
        .build()
        .expect("Failed to build local thread pool");

    pool.install(|| {
        let mut cg = ChronoGraph::new();

        let start_nodes = Instant::now();
        (0..NODE_COUNT).for_each(|i| cg.add_node(i));
        let duration_nodes = start_nodes.elapsed();

        let node_insert_latency = duration_nodes.as_secs_f64() / NODE_COUNT as f64;

        println!(
            "[CG Benchmark] Added {} nodes in {:?} (insert latency: {:.6} sec/node)",
            NODE_COUNT, duration_nodes, node_insert_latency
        );

        let start_edges = Instant::now();
        (0..NODE_COUNT).for_each(|i| {
            (0..EDGE_PER_NODE).for_each(|j| {
                let _ = cg.add_edge(i, (i + j + 1) % NODE_COUNT, (j as u64) * 10);
            });
        });
        let duration_edges = start_edges.elapsed();

        let edge_insert_latency =
            duration_edges.as_secs_f64() / (NODE_COUNT * EDGE_PER_NODE) as f64;

        println!(
            "[CG Benchmark] Added {} edges in {:?} (insert latency: {:.6} sec/edge)",
            NODE_COUNT * EDGE_PER_NODE,
            duration_edges,
            edge_insert_latency
        );

        let start_query = Instant::now();
        let total_neighbors: usize = (0..NODE_COUNT)
            .into_par_iter()
            .map(|i| cg.get_neighbors_at(i, QUERY_TIMESTAMP).len())
            .sum();
        let duration_query = start_query.elapsed();

        let query_throughput = NODE_COUNT as f64 / duration_query.as_secs_f64();

        println!(
            "[CG Benchmark] Queried neighbors at timestamp {} for {} nodes in {:?} (total neighbors: {}, throughput: {:.2} queries/sec)",
            QUERY_TIMESTAMP, NODE_COUNT, duration_query, total_neighbors, query_throughput
        );

        let memory_overhead = size_of_val(&cg);

        println!(
            "[CG Benchmark] Approximate memory overhead: {} bytes",
            memory_overhead
        );

        assert_eq!(total_neighbors, NODE_COUNT * 6);
    });
}
