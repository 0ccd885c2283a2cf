//! NUMA topology: parsing what the system reports of its nodes, and finding
//! the node of a processor.

use crate::config::available_cpus;
use crate::text::{
    chars_of, field, find_char, find_field, index_of, lemma_index_of, parse_trimmed_usize,
    parse_u64_range, parse_u64_text, parse_usize_range, parse_usize_text, range_eq, starts_with,
    trim_range,
    trimmed,
};
use vstd::prelude::*;

verus! {

/// One NUMA node.
#[derive(Debug, Clone)]
pub struct NumaNode {
    pub id: usize,
    pub cpus: Vec<usize>,
    pub memory_bytes: u64,
}

/// A snapshot of the topology.
#[derive(Debug, Clone)]
pub struct NumaMetrics {
    pub num_nodes: usize,
    pub node_cpus: Vec<Vec<usize>>,
    pub node_memory: Vec<u64>,
    /// The node of the processor that the caller runs on, if known.
    pub current_node: Option<usize>,
}

/// The nodes of the machine, ordered by their number.
pub struct NumaMonitor {
    nodes: Vec<NumaNode>,
}

/// The processors from `first` to `last`, both included; none where `first`
/// lies beyond `last`.
pub open spec fn cpu_range(first: usize, last: usize) -> Seq<usize> {
    if first > last {
        Seq::empty()
    } else {
        Seq::new((last - first + 1) as nat, |i: int| (first + i) as usize)
    }
}

/// The bounds that one piece of a processor list stands for: `a-b` for the
/// range from `a` to `b`, a single number for itself. Blanks around the
/// numbers are ignored.
pub open spec fn cpu_piece(piece: Seq<char>) -> Option<(usize, usize)> {
    let dash = index_of(piece, '-');
    if 0 <= dash < piece.len() {
        match (
            parse_usize_text(trimmed(piece.take(dash))),
            parse_usize_text(trimmed(piece.skip(dash + 1))),
        ) {
            (Some(first), Some(last)) => Some((first, last)),
            _ => None,
        }
    } else {
        match parse_usize_text(trimmed(piece)) {
            Some(cpu) => Some((cpu, cpu)),
            None => None,
        }
    }
}

/// The processors that a comma-separated list of pieces names, in the order
/// of the list; `None` where a piece is no number and no range.
pub open spec fn cpu_list(s: Seq<char>) -> Option<Seq<usize>>
    decreases s.len(),
{
    let comma = index_of(s, ',');
    if 0 <= comma < s.len() {
        match (cpu_piece(s.take(comma)), cpu_list(s.skip(comma + 1))) {
            (Some((first, last)), Some(rest)) => Some(cpu_range(first, last) + rest),
            _ => None,
        }
    } else {
        match cpu_piece(s) {
            Some((first, last)) => Some(cpu_range(first, last)),
            None => None,
        }
    }
}

/// The number of the node whose directory is called `name`: the digits
/// behind the word `node`.
pub open spec fn node_id_of(name: Seq<char>) -> Option<usize> {
    if "node"@.is_prefix_of(name) {
        parse_usize_text(name.skip("node"@.len() as int))
    } else {
        None
    }
}

/// The number of the node whose directory is called `name`, if it is the
/// directory of a node.
pub fn parse_node_name(name: &str) -> (id: Option<usize>)
    ensures
        id == node_id_of(name@),
{
    let v = chars_of(name);
    assert(v@.subrange(0, v.len() as int) == v@);
    if starts_with(&v, 0, v.len(), "node") {
        proof {
            reveal_strlit("node");
        }
        assert(v@.subrange(4, v.len() as int) == name@.skip(4));
        parse_usize_range(&v, 4, v.len())
    } else {
        None
    }
}

fn parse_cpu_piece(v: &Vec<char>, lo: usize, hi: usize) -> (r: Option<(usize, usize)>)
    requires
        lo <= hi <= v.len(),
    ensures
        r == cpu_piece(v@.subrange(lo as int, hi as int)),
{
    let ghost piece = v@.subrange(lo as int, hi as int);
    let dash = find_char(v, lo, hi, '-');
    if dash < hi {
        assert(piece.take(dash - lo) == v@.subrange(lo as int, dash as int));
        assert(piece.skip(dash - lo + 1) == v@.subrange(dash + 1, hi as int));
        let first = parse_trimmed_usize(v, lo, dash);
        let last = parse_trimmed_usize(v, dash + 1, hi);
        match (first, last) {
            (Some(first), Some(last)) => Some((first, last)),
            _ => None,
        }
    } else {
        match parse_trimmed_usize(v, lo, hi) {
            Some(cpu) => Some((cpu, cpu)),
            None => None,
        }
    }
}

fn push_cpu_range(cpus: &mut Vec<usize>, first: usize, last: usize)
    ensures
        final(cpus)@ == old(cpus)@ + cpu_range(first, last),
{
    if first > last {
        assert(cpus@ + Seq::<usize>::empty() == cpus@);
        return ;
    }
    let mut cpu: usize = first;
    loop
        invariant_except_break
            first <= cpu <= last,
            cpus@ == old(cpus)@ + Seq::new((cpu - first) as nat, |i: int| (first + i) as usize),
        ensures
            cpus@ == old(cpus)@ + cpu_range(first, last),
        decreases last - cpu,
    {
        cpus.push(cpu);
        assert(cpus@ == old(cpus)@ + Seq::new(
            (cpu - first + 1) as nat,
            |i: int| (first + i) as usize,
        ));
        if cpu == last {
            break ;
        }
        cpu = cpu + 1;
    }
}

/// Reads a processor list such as `0-3,8,10-11`: the processors that it
/// names, in its order, or `None` where a piece of it is no number and no
/// range of numbers. Blanks around the list and around its numbers are
/// ignored.
pub fn parse_cpu_list(content: &str) -> (r: Option<Vec<usize>>)
    ensures
        match r {
            Some(cpus) => cpu_list(trimmed(content@)) == Some(cpus@),
            None => cpu_list(trimmed(content@)) is None,
        },
{
    let v = chars_of(content);
    assert(v@.subrange(0, v.len() as int) == v@);
    let (lo, hi) = trim_range(&v, 0, v.len());
    let ghost whole = v@.subrange(lo as int, hi as int);
    let mut cpus: Vec<usize> = Vec::new();
    let mut pos: usize = lo;
    loop
        invariant
            lo <= pos <= hi <= v.len(),
            whole == v@.subrange(lo as int, hi as int),
            whole == trimmed(content@),
            cpu_list(whole) == match cpu_list(v@.subrange(pos as int, hi as int)) {
                Some(rest) => Some(cpus@ + rest),
                None => None,
            },
        decreases hi - pos,
    {
        let ghost rest = v@.subrange(pos as int, hi as int);
        let ghost before = cpus@;
        let comma = find_char(&v, pos, hi, ',');
        proof {
            lemma_index_of(rest, ',');
            assert(rest.take(comma - pos) == v@.subrange(pos as int, comma as int));
            if comma < hi {
                assert(rest.skip(comma - pos + 1) == v@.subrange(comma + 1, hi as int));
            } else {
                assert(v@.subrange(pos as int, comma as int) == rest);
            }
        }
        match parse_cpu_piece(&v, pos, comma) {
            Some((first, last)) => {
                push_cpu_range(&mut cpus, first, last);
                if comma == hi {
                    return Some(cpus);
                }
                proof {
                    let tail = cpu_list(v@.subrange(comma + 1, hi as int));
                    if tail is Some {
                        assert(before + (cpu_range(first, last) + tail->0) == (before + cpu_range(
                            first,
                            last,
                        )) + tail->0);
                    }
                }
                pos = comma + 1;
            },
            None => {
                return None;
            },
        }
    }
}

/// The number of bytes that a unit of memory stands for; kilobytes where the
/// unit is missing or unknown.
pub open spec fn unit_factor(unit: Option<Seq<char>>) -> u64 {
    match unit {
        Some(u) => if u == "MB"@ {
            1_048_576u64
        } else if u == "GB"@ {
            1_073_741_824u64
        } else {
            1024u64
        },
        None => 1024u64,
    }
}

/// `value * factor`, held at the largest 64-bit value.
pub open spec fn scaled(value: u64, factor: u64) -> u64 {
    if value * factor > u64::MAX {
        u64::MAX
    } else {
        (value * factor) as u64
    }
}

/// The bytes that a line of the form `MemTotal: <number> <unit>` reports;
/// `None` for any other line.
pub open spec fn mem_total_line(line: Seq<char>) -> Option<u64> {
    if "MemTotal:"@.is_prefix_of(line) {
        match field(line, 1) {
            Some(number) => match parse_u64_text(number) {
                Some(value) => Some(scaled(value, unit_factor(field(line, 2)))),
                None => None,
            },
            None => None,
        }
    } else {
        None
    }
}

/// The memory that the first `MemTotal:` line with a number reports, in
/// bytes; zero where no line does.
pub open spec fn node_memory(content: Seq<char>) -> u64
    decreases content.len(),
{
    let end = index_of(content, '\n');
    if 0 <= end < content.len() {
        match mem_total_line(content.take(end)) {
            Some(bytes) => bytes,
            None => node_memory(content.skip(end + 1)),
        }
    } else {
        match mem_total_line(content) {
            Some(bytes) => bytes,
            None => 0,
        }
    }
}

fn parse_mem_total_line(v: &Vec<char>, lo: usize, hi: usize) -> (r: Option<u64>)
    requires
        lo <= hi <= v.len(),
    ensures
        r == mem_total_line(v@.subrange(lo as int, hi as int)),
{
    if !starts_with(v, lo, hi, "MemTotal:") {
        return None;
    }
    let (a, b) = match find_field(v, lo, hi, 1) {
        Some(bounds) => bounds,
        None => {
            return None;
        },
    };
    let value = match parse_u64_range(v, a, b) {
        Some(value) => value,
        None => {
            return None;
        },
    };
    let factor: u64 = match find_field(v, lo, hi, 2) {
        Some((c, d)) => {
            if range_eq(v, c, d, "MB") {
                1024 * 1024
            } else if range_eq(v, c, d, "GB") {
                1024 * 1024 * 1024
            } else {
                1024
            }
        },
        None => 1024,
    };
    match value.checked_mul(factor) {
        Some(bytes) => Some(bytes),
        None => Some(u64::MAX),
    }
}

/// Reads the memory of a node from the text of its memory report: the value
/// of the first line that begins with `MemTotal:` and holds a number, in
/// bytes. The unit may be `kB`, `KB`, `MB` or `GB`; without a known unit the
/// number counts kilobytes. Zero where no such line exists.
pub fn parse_node_memory(content: &str) -> (bytes: u64)
    ensures
        bytes == node_memory(content@),
{
    let v = chars_of(content);
    let hi = v.len();
    assert(v@.subrange(0, hi as int) == v@);
    let mut pos: usize = 0;
    loop
        invariant
            pos <= hi == v.len(),
            v@ == content@,
            node_memory(content@) == node_memory(v@.subrange(pos as int, hi as int)),
        decreases hi - pos,
    {
        let ghost rest = v@.subrange(pos as int, hi as int);
        let end = find_char(&v, pos, hi, '\n');
        proof {
            lemma_index_of(rest, '\n');
            assert(rest.take(end - pos) == v@.subrange(pos as int, end as int));
            if end < hi {
                assert(rest.skip(end - pos + 1) == v@.subrange(end + 1, hi as int));
            } else {
                assert(v@.subrange(pos as int, end as int) == rest);
            }
        }
        match parse_mem_total_line(&v, pos, end) {
            Some(bytes) => {
                return bytes;
            },
            None => {
                if end == hi {
                    return 0;
                }
                pos = end + 1;
            },
        }
    }
}

/// The index of the field of a process status line that names the processor
/// on which the process last ran.
pub const PROCESSOR_FIELD: usize = 38;

/// Reads the processor on which the process last ran from its status line:
/// the field at `PROCESSOR_FIELD`, if the line has that many fields and the
/// field is a number.
pub fn parse_current_cpu(stat: &str) -> (cpu: Option<usize>)
    ensures
        cpu == match field(stat@, PROCESSOR_FIELD as nat) {
            Some(text) => parse_usize_text(text),
            None => None,
        },
{
    let v = chars_of(stat);
    assert(v@.subrange(0, v.len() as int) == v@);
    match find_field(&v, 0, v.len(), PROCESSOR_FIELD) {
        Some((a, b)) => parse_usize_range(&v, a, b),
        None => None,
    }
}

/// `s` with `node` put behind the last node whose number is not larger.
pub open spec fn insert_by_id(s: Seq<NumaNode>, node: NumaNode) -> Seq<NumaNode>
    decreases s.len(),
{
    if s.len() > 0 && s.last().id > node.id {
        insert_by_id(s.drop_last(), node).push(s.last())
    } else {
        s.push(node)
    }
}

/// The nodes of `s` in ascending order of their numbers; nodes with the same
/// number keep their order.
pub open spec fn sorted_by_id(s: Seq<NumaNode>) -> Seq<NumaNode>
    decreases s.len(),
{
    if s.len() == 0 {
        Seq::empty()
    } else {
        insert_by_id(sorted_by_id(s.drop_last()), s.last())
    }
}

/// Whether the numbers of the nodes ascend.
pub open spec fn ids_ascend(s: Seq<NumaNode>) -> bool {
    forall|i: int, j: int| 0 <= i <= j < s.len() ==> s[i].id <= s[j].id
}

/// Inserting into ascending nodes gives ascending nodes with one node more,
/// and the same nodes as before beside the new one.
pub proof fn lemma_insert_by_id(s: Seq<NumaNode>, node: NumaNode)
    requires
        ids_ascend(s),
    ensures
        ids_ascend(insert_by_id(s, node)),
        insert_by_id(s, node).len() == s.len() + 1,
        insert_by_id(s, node).to_multiset() == s.to_multiset().insert(node),
    decreases s.len(),
{
    broadcast use vstd::seq_lib::group_to_multiset_ensures;

    let r = insert_by_id(s, node);
    if s.len() > 0 && s.last().id > node.id {
        let front = s.drop_last();
        assert forall|i: int, j: int| 0 <= i <= j < front.len() implies front[i].id
            <= front[j].id by {
            assert(front[i] == s[i] && front[j] == s[j]);
        }
        lemma_insert_by_id(front, node);
        let inner = insert_by_id(front, node);
        assert forall|i: int| 0 <= i < inner.len() implies (#[trigger] inner[i]).id
            <= s.last().id by {
            assert(inner.to_multiset().count(inner[i]) > 0);
            if inner[i] != node {
                assert(front.to_multiset().count(inner[i]) > 0);
                let k = choose|k: int| 0 <= k < front.len() && front[k] == inner[i];
                assert(front[k] == s[k]);
            }
        }
        assert forall|i: int, j: int| 0 <= i <= j < r.len() implies r[i].id <= r[j].id by {
            if j < inner.len() {
                assert(r[i] == inner[i] && r[j] == inner[j]);
            } else if i < inner.len() {
                assert(r[i] == inner[i]);
            }
        }
        assert(s == front.push(s.last()));
    } else {
        assert forall|i: int, j: int| 0 <= i <= j < r.len() implies r[i].id <= r[j].id by {
            if j < s.len() {
                assert(r[i] == s[i] && r[j] == s[j]);
            } else if i < s.len() {
                assert(r[i] == s[i]);
                assert(s[i].id <= s.last().id);
            }
        }
    }
}

/// Sorting gives the same nodes in ascending order of their numbers.
pub proof fn lemma_sorted_by_id(s: Seq<NumaNode>)
    ensures
        ids_ascend(sorted_by_id(s)),
        sorted_by_id(s).len() == s.len(),
        sorted_by_id(s).to_multiset() == s.to_multiset(),
    decreases s.len(),
{
    broadcast use vstd::seq_lib::group_to_multiset_ensures;

    if s.len() > 0 {
        lemma_sorted_by_id(s.drop_last());
        lemma_insert_by_id(sorted_by_id(s.drop_last()), s.last());
        assert(s == s.drop_last().push(s.last()));
    }
}

/// Puts the nodes in ascending order of their numbers; nodes with the same
/// number keep their order.
pub fn sort_nodes(nodes: Vec<NumaNode>) -> (sorted: Vec<NumaNode>)
    ensures
        sorted@ == sorted_by_id(nodes@),
        ids_ascend(sorted@),
        sorted@.len() == nodes@.len(),
        sorted@.to_multiset() == nodes@.to_multiset(),
{
    let ghost all = nodes@;
    let mut rest = nodes;
    let mut sorted: Vec<NumaNode> = Vec::new();
    let ghost mut done: int = 0;
    while rest.len() > 0
        invariant
            0 <= done <= all.len(),
            rest@ == all.skip(done),
            sorted@ == sorted_by_id(all.take(done)),
        decreases rest.len(),
    {
        let node = rest.remove(0);
        proof {
            assert(node == all[done]);
            assert(all.take(done + 1).drop_last() == all.take(done));
            assert(all.skip(done).remove(0) == all.skip(done + 1));
        }
        let ghost before = sorted@;
        let mut at: usize = sorted.len();
        proof {
            assert(before.take(before.len() as int) == before);
            assert(insert_by_id(before, node) + before.skip(before.len() as int) == insert_by_id(
                before,
                node,
            ));
        }
        while at > 0 && sorted[at - 1].id > node.id
            invariant
                at <= sorted.len(),
                sorted@ == before,
                insert_by_id(before, node) == insert_by_id(before.take(at as int), node)
                    + before.skip(at as int),
            decreases at,
        {
            proof {
                let head = before.take(at as int);
                assert(head.drop_last() == before.take(at - 1));
                assert(insert_by_id(head.drop_last(), node).push(head.last()) + before.skip(
                    at as int,
                ) == insert_by_id(before.take(at - 1), node) + before.skip(at - 1));
            }
            at = at - 1;
        }
        proof {
            assert(before.take(0).push(node) + before.skip(0) == before.insert(0, node));
            assert(before.take(at as int).push(node) + before.skip(at as int) == before.insert(
                at as int,
                node,
            ));
        }
        sorted.insert(at, node);
        proof {
            done = done + 1;
        }
    }
    proof {
        assert(all.take(all.len() as int) == all);
        lemma_sorted_by_id(all);
    }
    sorted
}

/// The number of the first node that holds the processor `cpu`.
pub open spec fn node_of_cpu(nodes: Seq<NumaNode>, cpu: usize) -> Option<usize>
    decreases nodes.len(),
{
    if nodes.len() == 0 {
        None
    } else if nodes[0].cpus@.contains(cpu) {
        Some(nodes[0].id)
    } else {
        node_of_cpu(nodes.skip(1), cpu)
    }
}

/// The first processor of the first node with the number `node_id`, if that
/// node exists and has a processor.
pub open spec fn first_cpu_of(nodes: Seq<NumaNode>, node_id: usize) -> Option<usize>
    decreases nodes.len(),
{
    if nodes.len() == 0 {
        None
    } else if nodes[0].id == node_id {
        if nodes[0].cpus@.len() > 0 {
            Some(nodes[0].cpus@[0])
        } else {
            None
        }
    } else {
        first_cpu_of(nodes.skip(1), node_id)
    }
}

/// Whether `cpus` holds `cpu`.
pub fn holds_cpu(cpus: &Vec<usize>, cpu: usize) -> (found: bool)
    ensures
        found == cpus@.contains(cpu),
{
    let mut i: usize = 0;
    while i < cpus.len()
        invariant
            i <= cpus.len(),
            forall|j: int| 0 <= j < i ==> cpus@[j] != cpu,
        decreases cpus.len() - i,
    {
        if cpus[i] == cpu {
            return true;
        }
        i = i + 1;
    }
    false
}

fn copy_cpus(cpus: &Vec<usize>) -> (copy: Vec<usize>)
    ensures
        copy@ == cpus@,
{
    let mut copy: Vec<usize> = Vec::new();
    let mut i: usize = 0;
    while i < cpus.len()
        invariant
            i <= cpus.len(),
            copy@ == cpus@.take(i as int),
        decreases cpus.len() - i,
    {
        copy.push(cpus[i]);
        assert(cpus@.take(i + 1) == cpus@.take(i as int).push(cpus@[i as int]));
        i = i + 1;
    }
    assert(cpus@.take(cpus.len() as int) == cpus@);
    copy
}

/// The one node of a machine that reports no topology: numbered zero, with
/// the processors from zero up to `cpu_count`, and no memory figure.
pub fn single_node(cpu_count: usize) -> (node: NumaNode)
    ensures
        node.id == 0,
        node.memory_bytes == 0,
        node.cpus@ == Seq::new(cpu_count as nat, |i: int| i as usize),
{
    let mut cpus: Vec<usize> = Vec::new();
    let mut cpu: usize = 0;
    while cpu < cpu_count
        invariant
            cpu <= cpu_count,
            cpus@ == Seq::new(cpu as nat, |i: int| i as usize),
        decreases cpu_count - cpu,
    {
        cpus.push(cpu);
        assert(cpus@ == Seq::new((cpu + 1) as nat, |i: int| i as usize));
        cpu = cpu + 1;
    }
    NumaNode { id: 0, cpus, memory_bytes: 0 }
}

/// Whether `metrics` report the nodes `nodes` as seen from the processor
/// `current_cpu`: their count, the processors and the memory of each in
/// their order, and the node of that processor.
pub open spec fn metrics_report(
    metrics: NumaMetrics,
    nodes: Seq<NumaNode>,
    current_cpu: Option<usize>,
) -> bool {
    &&& metrics.num_nodes == nodes.len()
    &&& metrics.node_cpus@.len() == nodes.len()
    &&& metrics.node_memory@.len() == nodes.len()
    &&& forall|i: int|
        0 <= i < nodes.len() ==> (#[trigger] metrics.node_cpus@[i])@ == nodes[i].cpus@
    &&& forall|i: int|
        0 <= i < nodes.len() ==> #[trigger] metrics.node_memory@[i] == nodes[i].memory_bytes
    &&& metrics.current_node == match current_cpu {
        Some(cpu) => node_of_cpu(nodes, cpu),
        None => None,
    }
}

impl View for NumaMonitor {
    type V = Seq<NumaNode>;

    closed spec fn view(&self) -> Seq<NumaNode> {
        self.nodes@
    }
}

impl NumaMonitor {
    /// A monitor for the nodes found, put in ascending order of their
    /// numbers.
    pub fn new(nodes: Vec<NumaNode>) -> (monitor: NumaMonitor)
        ensures
            monitor@ == sorted_by_id(nodes@),
            ids_ascend(monitor@),
    {
        NumaMonitor { nodes: sort_nodes(nodes) }
    }

    /// A monitor for a machine that reports no topology: one node, numbered
    /// zero, with the processors from zero up to `cpu_count`, and no memory
    /// figure.
    pub fn with_single_node(cpu_count: usize) -> (monitor: NumaMonitor)
        ensures
            monitor@.len() == 1,
            monitor@[0].id == 0,
            monitor@[0].memory_bytes == 0,
            monitor@[0].cpus@ == Seq::new(cpu_count as nat, |i: int| i as usize),
    {
        let mut nodes: Vec<NumaNode> = Vec::new();
        nodes.push(single_node(cpu_count));
        NumaMonitor { nodes }
    }

    /// The monitor to fall back on where the topology cannot be read: one
    /// node with as many processors as the machine offers.
    pub fn fallback() -> (monitor: NumaMonitor)
        ensures
            monitor@.len() == 1,
            monitor@[0].id == 0,
            monitor@[0].memory_bytes == 0,
            monitor@[0].cpus@.len() >= 1,
            forall|i: int| 0 <= i < monitor@[0].cpus@.len() ==> monitor@[0].cpus@[i] == i,
    {
        Self::with_single_node(available_cpus())
    }

    /// The nodes to fall back on where the topology cannot be read: one node
    /// with as many processors as the machine offers.
    pub fn fallback_nodes() -> (nodes: Vec<NumaNode>)
        ensures
            nodes@.len() == 1,
            nodes@[0].id == 0,
            nodes@[0].memory_bytes == 0,
            nodes@[0].cpus@.len() >= 1,
            forall|i: int| 0 <= i < nodes@[0].cpus@.len() ==> nodes@[0].cpus@[i] == i,
    {
        let mut nodes: Vec<NumaNode> = Vec::new();
        nodes.push(single_node(available_cpus()));
        nodes
    }

    /// The number of nodes.
    pub fn num_nodes(&self) -> (n: usize)
        ensures
            n == self@.len(),
    {
        self.nodes.len()
    }

    /// Takes the nodes found anew, and reports them: their count, the
    /// processors and the memory of each in ascending order of the nodes'
    /// numbers, and the node of the processor `current_cpu`.
    pub fn collect(&mut self, nodes: Vec<NumaNode>, current_cpu: Option<usize>) -> (metrics:
        NumaMetrics)
        ensures
            final(self)@ == sorted_by_id(nodes@),
            ids_ascend(final(self)@),
            final(self)@.len() == nodes@.len(),
            metrics_report(metrics, final(self)@, current_cpu),
    {
        self.nodes = sort_nodes(nodes);
        let mut node_cpus: Vec<Vec<usize>> = Vec::new();
        let mut node_memory: Vec<u64> = Vec::new();
        let mut i: usize = 0;
        while i < self.nodes.len()
            invariant
                i <= self.nodes.len(),
                node_cpus@.len() == i,
                node_memory@.len() == i,
                forall|j: int| 0 <= j < i ==> (#[trigger] node_cpus@[j])@ == self.nodes@[j].cpus@,
                forall|j: int|
                    0 <= j < i ==> #[trigger] node_memory@[j] == self.nodes@[j].memory_bytes,
            decreases self.nodes.len() - i,
        {
            node_cpus.push(copy_cpus(&self.nodes[i].cpus));
            node_memory.push(self.nodes[i].memory_bytes);
            i = i + 1;
        }
        let current_node = self.get_current_numa_node(current_cpu);
        NumaMetrics { num_nodes: self.nodes.len(), node_cpus, node_memory, current_node }
    }

    /// The number of the first node that holds the processor `cpu`.
    pub fn get_numa_node_for_cpu(&self, cpu: usize) -> (node: Option<usize>)
        ensures
            node == node_of_cpu(self@, cpu),
    {
        let mut i: usize = 0;
        assert(self@.skip(0) == self@);
        while i < self.nodes.len()
            invariant
                i <= self.nodes.len(),
                node_of_cpu(self@, cpu) == node_of_cpu(self@.skip(i as int), cpu),
            decreases self.nodes.len() - i,
        {
            assert(self@.skip(i as int).skip(1) == self@.skip(i + 1));
            if holds_cpu(&self.nodes[i].cpus, cpu) {
                return Some(self.nodes[i].id);
            }
            i = i + 1;
        }
        None
    }

    /// The node of the processor that the caller runs on, where the
    /// processor is known.
    pub fn get_current_numa_node(&self, current_cpu: Option<usize>) -> (node: Option<usize>)
        ensures
            node == match current_cpu {
                Some(cpu) => node_of_cpu(self@, cpu),
                None => None,
            },
    {
        match current_cpu {
            Some(cpu) => self.get_numa_node_for_cpu(cpu),
            None => None,
        }
    }

    /// The processor to pin a thread to so that it runs on the node
    /// `node_id`: the first processor of that node.
    pub fn cpu_to_bind(&self, node_id: usize) -> (cpu: Option<usize>)
        ensures
            cpu == first_cpu_of(self@, node_id),
    {
        let mut i: usize = 0;
        assert(self@.skip(0) == self@);
        while i < self.nodes.len()
            invariant
                i <= self.nodes.len(),
                first_cpu_of(self@, node_id) == first_cpu_of(self@.skip(i as int), node_id),
            decreases self.nodes.len() - i,
        {
            assert(self@.skip(i as int).skip(1) == self@.skip(i + 1));
            if self.nodes[i].id == node_id {
                if self.nodes[i].cpus.len() > 0 {
                    return Some(self.nodes[i].cpus[0]);
                } else {
                    return None;
                }
            }
            i = i + 1;
        }
        None
    }
}

} // verus!
