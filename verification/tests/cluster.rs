//! Describing a cluster of nodes in the format of the test runner:
//! comma-separated `<ip>:<tcp-port>:<rdma-port>`, one entry per node.

use rdmalib::{RemoteMemoryProviderAddr, SharedMemoryRegionProviderAddr};

/// One deployed node: where it is and which ports its test process uses.
#[derive(Debug, Clone, PartialEq, Eq)]
struct NodeInfo {
    index: usize,
    ip: String,
    tcp_port: u16,
    rdma_port: u16,
}

impl NodeInfo {
    /// Server-side address: a provider listening on this node.
    fn provider_addr(&self) -> SharedMemoryRegionProviderAddr {
        SharedMemoryRegionProviderAddr::new(self.rdma_port, self.tcp_port)
    }

    /// Client-side address: a reader connecting to this node from elsewhere.
    fn remote_addr(&self) -> RemoteMemoryProviderAddr {
        RemoteMemoryProviderAddr::new(&self.ip, self.rdma_port, self.tcp_port)
    }
}

/// The nodes a test was deployed on, and which of them this process is.
#[derive(Debug, Clone, PartialEq, Eq)]
struct TestCluster {
    my_node: usize,
    nodes: Vec<NodeInfo>,
}

impl TestCluster {
    /// `my_node` is a decimal index, `nodes` a comma-separated list of
    /// `<ip>:<tcp-port>:<rdma-port>`.
    fn parse(my_node: &str, nodes: &str) -> Result<TestCluster, String> {
        let parsed: Vec<NodeInfo> = nodes
            .split(',')
            .enumerate()
            .map(|(index, spec)| parse_node(index, spec))
            .collect::<Result<_, _>>()?;
        let my_node: usize = my_node
            .parse()
            .map_err(|e| format!("bad node index `{my_node}`: {e}"))?;
        if my_node >= parsed.len() {
            return Err(format!(
                "node {my_node} out of range ({} nodes deployed)",
                parsed.len()
            ));
        }
        Ok(TestCluster {
            my_node,
            nodes: parsed,
        })
    }

    fn me(&self) -> &NodeInfo {
        &self.nodes[self.my_node]
    }

    fn node(&self, index: usize) -> &NodeInfo {
        &self.nodes[index]
    }

    fn len(&self) -> usize {
        self.nodes.len()
    }

    /// All nodes except the one this process runs on.
    fn others(&self) -> impl Iterator<Item = &NodeInfo> {
        self.nodes
            .iter()
            .enumerate()
            .filter(|(index, _)| *index != self.my_node)
            .map(|(_, node)| node)
    }
}

fn parse_node(index: usize, spec: &str) -> Result<NodeInfo, String> {
    let parts: Vec<&str> = spec.split(':').collect();
    if parts.len() != 3 {
        return Err(format!(
            "node {index}: expected `<ip>:<tcp-port>:<rdma-port>`, got `{spec}`"
        ));
    }
    let port = |name: &str, raw: &str| {
        raw.parse::<u16>()
            .map_err(|e| format!("node {index}: bad {name} port `{raw}`: {e}"))
    };
    Ok(NodeInfo {
        index,
        ip: parts[0].to_string(),
        tcp_port: port("tcp", parts[1])?,
        rdma_port: port("rdma", parts[2])?,
    })
}

#[test]
fn parses_the_runner_format() {
    let cluster = TestCluster::parse("1", "192.168.4.1:8100:9100,192.168.4.3:8101:9101").unwrap();
    assert_eq!(cluster.len(), 2);
    assert_eq!(cluster.my_node, 1);
    assert_eq!(cluster.me().ip, "192.168.4.3");
    assert_eq!(cluster.me().tcp_port, 8101);
    assert_eq!(cluster.node(0).rdma_port, 9100);
    assert_eq!(cluster.others().map(|n| n.index).collect::<Vec<_>>(), vec![0]);
    assert_eq!(
        cluster.me().provider_addr(),
        SharedMemoryRegionProviderAddr::new(9101, 8101)
    );
    assert_eq!(
        cluster.node(0).remote_addr(),
        RemoteMemoryProviderAddr::new("192.168.4.1", 9100, 8100)
    );
}

#[test]
fn rejects_malformed_input() {
    assert!(TestCluster::parse("0", "").is_err());
    assert!(TestCluster::parse("0", "192.168.4.1:8100").is_err());
    assert!(TestCluster::parse("0", "192.168.4.1:x:9100").is_err());
    assert!(TestCluster::parse("2", "192.168.4.1:8100:9100").is_err());
    assert!(TestCluster::parse("node0", "192.168.4.1:8100:9100").is_err());
}
