use storage_bench::monitor::numa::{
    holds_cpu, parse_cpu_list, parse_current_cpu, parse_node_memory, parse_node_name, single_node,
    sort_nodes, NumaMonitor, NumaNode, PROCESSOR_FIELD,
};

fn node(id: usize, cpus: &[usize], memory_bytes: u64) -> NumaNode {
    NumaNode { id, cpus: cpus.to_vec(), memory_bytes }
}

#[test]
fn node_directories_are_recognised_by_name() {
    assert_eq!(parse_node_name("node0"), Some(0));
    assert_eq!(parse_node_name("node17"), Some(17));
    assert_eq!(parse_node_name("node+3"), Some(3));
    assert_eq!(parse_node_name("node"), None);
    assert_eq!(parse_node_name("node1a"), None);
    assert_eq!(parse_node_name("nodes"), None);
    assert_eq!(parse_node_name("cpu0"), None);
    assert_eq!(parse_node_name("has_cpu"), None);
    assert_eq!(parse_node_name(""), None);
    assert_eq!(parse_node_name("Node0"), None);
}

#[test]
fn processor_lists_are_read() {
    assert_eq!(parse_cpu_list("0-3,8,10-11\n"), Some(vec![0, 1, 2, 3, 8, 10, 11]));
    assert_eq!(parse_cpu_list("5"), Some(vec![5]));
    assert_eq!(parse_cpu_list("0-0"), Some(vec![0]));
    assert_eq!(parse_cpu_list(" 1 , 2 - 4 ,7 "), Some(vec![1, 2, 3, 4, 7]));
    assert_eq!(parse_cpu_list("3,1,3"), Some(vec![3, 1, 3]));
    // A range that runs backwards names no processor.
    assert_eq!(parse_cpu_list("4-2"), Some(vec![]));
    assert_eq!(parse_cpu_list("4-2,9"), Some(vec![9]));
}

#[test]
fn malformed_processor_lists_are_turned_down() {
    assert_eq!(parse_cpu_list(""), None);
    assert_eq!(parse_cpu_list("\n"), None);
    assert_eq!(parse_cpu_list("0-3,"), None);
    assert_eq!(parse_cpu_list(",1"), None);
    assert_eq!(parse_cpu_list("a"), None);
    assert_eq!(parse_cpu_list("1-"), None);
    assert_eq!(parse_cpu_list("-1"), None);
    assert_eq!(parse_cpu_list("1-2-3"), None);
    assert_eq!(parse_cpu_list("0-3;8"), None);
}

#[test]
fn node_memory_is_read_from_the_first_total_line() {
    assert_eq!(parse_node_memory("MemTotal:       32768 kB\n"), 32768 * 1024);
    assert_eq!(parse_node_memory("MemTotal: 5 KB"), 5120);
    assert_eq!(parse_node_memory("MemTotal: 5 MB"), 5 * 1024 * 1024);
    assert_eq!(parse_node_memory("MemTotal: 5 GB"), 5 * 1024 * 1024 * 1024);
    assert_eq!(parse_node_memory("MemTotal: 5 pages"), 5120);
    assert_eq!(parse_node_memory("MemTotal: 5"), 5120);
    assert_eq!(parse_node_memory("MemFree: 1 kB\nMemTotal: 7 kB\nMemTotal: 9 kB\n"), 7168);
    assert_eq!(parse_node_memory("MemTotal: x kB\nMemTotal: 3 kB"), 3072);
    assert_eq!(parse_node_memory("MemTotal:\nMemTotal: 2 MB\r\n"), 2 * 1024 * 1024);
    assert_eq!(parse_node_memory("MemTotal: 18446744073709551615 GB"), u64::MAX);
}

#[test]
fn node_memory_is_zero_without_a_total_line() {
    assert_eq!(parse_node_memory(""), 0);
    assert_eq!(parse_node_memory("MemFree: 5 kB\n"), 0);
    assert_eq!(parse_node_memory(" MemTotal: 5 kB\n"), 0);
    assert_eq!(parse_node_memory("Node 0 MemTotal:       32768 kB\n"), 0);
    assert_eq!(parse_node_memory("MemTotal:5 kB\n"), 0);
    assert_eq!(parse_node_memory("MemTotal: \n\n"), 0);
}

#[test]
fn current_processor_is_the_field_of_the_status_line() {
    let mut fields: Vec<String> = (0..52).map(|k| format!("{}", 1000 + k)).collect();
    fields[1] = String::from("(bench)");
    fields[PROCESSOR_FIELD] = String::from("13");
    let line = fields.join(" ");
    assert_eq!(parse_current_cpu(&line), Some(13));
    fields[PROCESSOR_FIELD] = String::from("x");
    assert_eq!(parse_current_cpu(&fields.join(" ")), None);
    let short = fields[..PROCESSOR_FIELD].join(" ");
    assert_eq!(parse_current_cpu(&short), None);
    let just = (0..=PROCESSOR_FIELD).map(|k| format!("{}", k)).collect::<Vec<_>>().join("\t");
    assert_eq!(parse_current_cpu(&just), Some(PROCESSOR_FIELD));
    assert_eq!(parse_current_cpu(""), None);
}

#[test]
fn nodes_are_sorted_by_number_and_keep_their_order_otherwise() {
    let nodes = vec![
        node(3, &[6, 7], 30),
        node(1, &[2, 3], 10),
        node(2, &[4, 5], 20),
        node(1, &[9], 11),
        node(0, &[0, 1], 5),
    ];
    let sorted = sort_nodes(nodes);
    let seen: Vec<(usize, u64)> = sorted.iter().map(|n| (n.id, n.memory_bytes)).collect();
    assert_eq!(seen, vec![(0, 5), (1, 10), (1, 11), (2, 20), (3, 30)]);
    assert_eq!(sorted[1].cpus, vec![2, 3]);
    assert!(sort_nodes(Vec::new()).is_empty());
}

#[test]
fn monitor_finds_the_node_of_a_processor() {
    let monitor = NumaMonitor::new(vec![node(1, &[4, 5, 6, 7], 0), node(0, &[0, 1, 2, 3, 4], 0)]);
    assert_eq!(monitor.num_nodes(), 2);
    assert_eq!(monitor.get_numa_node_for_cpu(0), Some(0));
    assert_eq!(monitor.get_numa_node_for_cpu(7), Some(1));
    // A processor that two nodes claim belongs to the first in order.
    assert_eq!(monitor.get_numa_node_for_cpu(4), Some(0));
    assert_eq!(monitor.get_numa_node_for_cpu(8), None);
    assert_eq!(monitor.get_current_numa_node(Some(5)), Some(1));
    assert_eq!(monitor.get_current_numa_node(Some(99)), None);
    assert_eq!(monitor.get_current_numa_node(None), None);
    assert_eq!(monitor.cpu_to_bind(1), Some(4));
    assert_eq!(monitor.cpu_to_bind(0), Some(0));
    assert_eq!(monitor.cpu_to_bind(2), None);
    assert!(holds_cpu(&vec![1, 2, 3], 2));
    assert!(!holds_cpu(&vec![1, 2, 3], 4));
    assert!(!holds_cpu(&Vec::new(), 0));
}

#[test]
fn binding_to_a_node_without_processors_finds_none() {
    let monitor = NumaMonitor::new(vec![node(0, &[], 0), node(0, &[3], 0)]);
    assert_eq!(monitor.cpu_to_bind(0), None);
}

#[test]
fn monitor_reports_its_nodes() {
    let mut monitor = NumaMonitor::with_single_node(2);
    assert_eq!(monitor.num_nodes(), 1);
    assert_eq!(monitor.get_numa_node_for_cpu(1), Some(0));
    assert_eq!(monitor.get_numa_node_for_cpu(2), None);
    let metrics = monitor.collect(
        vec![node(1, &[2, 3], 2048), node(0, &[0, 1], 1024)],
        Some(3),
    );
    assert_eq!(metrics.num_nodes, 2);
    assert_eq!(metrics.node_cpus, vec![vec![0, 1], vec![2, 3]]);
    assert_eq!(metrics.node_memory, vec![1024, 2048]);
    assert_eq!(metrics.current_node, Some(1));
    assert_eq!(monitor.num_nodes(), 2);
    let metrics = monitor.collect(Vec::new(), Some(0));
    assert_eq!(metrics.num_nodes, 0);
    assert!(metrics.node_cpus.is_empty());
    assert_eq!(metrics.current_node, None);
}

#[test]
fn fallback_is_one_node_with_all_processors() {
    let monitor = NumaMonitor::fallback();
    assert_eq!(monitor.num_nodes(), 1);
    assert_eq!(monitor.get_numa_node_for_cpu(0), Some(0));
    assert_eq!(monitor.cpu_to_bind(0), Some(0));
    let single = NumaMonitor::with_single_node(0);
    assert_eq!(single.num_nodes(), 1);
    assert_eq!(single.get_numa_node_for_cpu(0), None);
}

#[test]
fn single_node_holds_the_processors_from_zero() {
    let node = single_node(4);
    assert_eq!(node.id, 0);
    assert_eq!(node.cpus, vec![0, 1, 2, 3]);
    assert_eq!(node.memory_bytes, 0);
    assert!(single_node(0).cpus.is_empty());
    let nodes = NumaMonitor::fallback_nodes();
    assert_eq!(nodes.len(), 1);
    assert_eq!(nodes[0].id, 0);
    assert!(!nodes[0].cpus.is_empty());
    assert_eq!(nodes[0].cpus, (0..nodes[0].cpus.len()).collect::<Vec<usize>>());
}
