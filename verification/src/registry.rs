//! PipeWire globals: which output stream belongs to the target process.
//!
//! A node is attributed to a process, most trustworthy first, by the process id
//! that the daemon stamped on the node's client, by the process id that the
//! node states, or by the process's name.
use crate::text::{parse_u32, same, unsigned_value};
use std::collections::HashMap;
use vstd::prelude::*;

verus! {

broadcast use vstd::std_specs::hash::group_hash_axioms;

/// The properties of a global that matter here.
pub struct GlobalProps {
    /// `pipewire.sec.pid`
    pub sec_pid: Option<String>,
    /// `media.class`
    pub media_class: Option<String>,
    /// `client.id`
    pub client_id: Option<String>,
    /// `application.process.id`
    pub process_id: Option<String>,
    /// `application.process.binary`
    pub binary: Option<String>,
    /// `application.name`
    pub name: Option<String>,
}

/// A candidate output stream.
pub struct NodeRec {
    pub id: u32,
    pub client_id: Option<u32>,
    pub pid: Option<u32>,
    pub binary: String,
    pub name: String,
}

/// A candidate output stream, as a value.
#[verifier::ext_equal]
pub struct NodeView {
    pub id: u32,
    pub client_id: Option<u32>,
    pub pid: Option<u32>,
    pub binary: Seq<char>,
    pub name: Seq<char>,
}

impl View for NodeRec {
    type V = NodeView;

    open spec fn view(&self) -> NodeView {
        NodeView {
            id: self.id,
            client_id: self.client_id,
            pid: self.pid,
            binary: self.binary@,
            name: self.name@,
        }
    }
}

/// The number that an optional property spells.
pub open spec fn number_of(p: Option<String>) -> Option<u32> {
    match p {
        Some(t) => match unsigned_value(t@, u32::MAX as nat) {
            Some(n) => Some(n as u32),
            None => None,
        },
        None => None,
    }
}

/// An optional property's text; empty where it is missing.
pub open spec fn text_of(p: Option<String>) -> Seq<char> {
    match p {
        Some(t) => t@,
        None => Seq::empty(),
    }
}

/// The node that a global's properties describe.
pub open spec fn node_of(id: u32, props: GlobalProps) -> NodeView {
    NodeView {
        id,
        client_id: number_of(props.client_id),
        pid: number_of(props.process_id),
        binary: text_of(props.binary),
        name: text_of(props.name),
    }
}

/// Whether a global is an output stream: no client, and of that media class.
pub open spec fn is_output_stream(props: GlobalProps) -> bool {
    props.sec_pid is None && props.media_class is Some && props.media_class->0@
        == "Stream/Output/Audio"@
}

fn number(p: &Option<String>) -> (r: Option<u32>)
    ensures
        r == number_of(*p),
{
    match p {
        Some(t) => parse_u32(t.as_str()),
        None => None,
    }
}

fn text(p: &Option<String>) -> (r: String)
    ensures
        r@ == text_of(*p),
{
    match p {
        Some(t) => t.clone(),
        None => String::new(),
    }
}

/// How far a node can be trusted to belong to process `pid` with the name
/// `comm`, given the daemon-stamped process ids of the clients: 0 by the stamped
/// id, 1 by the id that the node states, 2 by the name, 3 not at all.
pub open spec fn rank(node: NodeView, clients: Map<u32, u32>, pid: u32, comm: Seq<char>) -> u8 {
    if node.client_id matches Some(c) && clients.contains_key(c) && clients[c] == pid {
        0
    } else if node.pid == Some(pid) {
        1
    } else if comm.len() > 0 && (node.binary == comm || node.name == comm) {
        2
    } else {
        3
    }
}

/// The node at place `i` is the one to capture: it belongs to the process, none
/// can be trusted more, and it is the first that can be trusted so far.
pub open spec fn is_pick(
    nodes: Seq<NodeView>,
    clients: Map<u32, u32>,
    pid: u32,
    comm: Seq<char>,
    i: int,
) -> bool {
    &&& 0 <= i < nodes.len()
    &&& rank(nodes[i], clients, pid, comm) < 3
    &&& forall|j: int|
        0 <= j < nodes.len() ==> rank(#[trigger] nodes[j], clients, pid, comm) >= rank(
            nodes[i],
            clients,
            pid,
            comm,
        )
    &&& forall|j: int|
        0 <= j < i ==> rank(#[trigger] nodes[j], clients, pid, comm) > rank(
            nodes[i],
            clients,
            pid,
            comm,
        )
}

/// What the registry has told so far.
pub struct Registry {
    clients: HashMap<u32, u32>,
    nodes: Vec<NodeRec>,
}

impl Registry {
    /// Clients' process ids, by client id.
    pub closed spec fn clients(&self) -> Map<u32, u32> {
        self.clients@
    }

    /// The output streams, in the order in which they appeared.
    pub closed spec fn nodes(&self) -> Seq<NodeView> {
        self.nodes@.map_values(|n: NodeRec| n@)
    }

    pub fn new() -> (r: Self)
        ensures
            r.clients() == Map::<u32, u32>::empty(),
            r.nodes() == Seq::<NodeView>::empty(),
    {
        let r = Registry { clients: HashMap::new(), nodes: Vec::new() };
        assert(r.nodes() =~= Seq::<NodeView>::empty());
        r
    }

    /// Takes note of a global.
    pub fn observe(&mut self, id: u32, props: &GlobalProps)
        ensures
            final(self).clients() == match number_of(props.sec_pid) {
                Some(p) => old(self).clients().insert(id, p),
                None => old(self).clients(),
            },
            final(self).nodes() == if is_output_stream(*props) {
                old(self).nodes().push(node_of(id, *props))
            } else {
                old(self).nodes()
            },
    {
        match &props.sec_pid {
            Some(t) => {
                match parse_u32(t.as_str()) {
                    Some(p) => {
                        self.clients.insert(id, p);
                    },
                    None => {},
                }
                return;
            },
            None => {},
        }
        match &props.media_class {
            Some(class) => {
                if !same(class.as_str(), "Stream/Output/Audio") {
                    return;
                }
            },
            None => {
                return;
            },
        }
        let node = NodeRec {
            id,
            client_id: number(&props.client_id),
            pid: number(&props.process_id),
            binary: text(&props.binary),
            name: text(&props.name),
        };
        assert(node@ == node_of(id, *props));
        self.nodes.push(node);
        assert(self.nodes() =~= old(self).nodes().push(node_of(id, *props)));
    }

    /// How far the output stream at place `i` can be trusted to belong to the
    /// process.
    pub fn node_rank(&self, i: usize, pid: u32, comm: &str) -> (r: u8)
        requires
            i < self.nodes().len(),
        ensures
            r == rank(self.nodes()[i as int], self.clients(), pid, comm@),
    {
        let node: &NodeRec = &self.nodes[i];
        let by_sec: bool = match node.client_id {
            Some(c) => match self.clients.get(&c) {
                Some(p) => *p == pid,
                None => false,
            },
            None => false,
        };
        let by_pid: bool = match node.pid {
            Some(p) => p == pid,
            None => false,
        };
        assert(self.nodes()[i as int] == node@);
        if by_sec {
            0
        } else if by_pid {
            1
        } else if !comm.is_empty() && (same(node.binary.as_str(), comm) || same(
            node.name.as_str(),
            comm,
        )) {
            2
        } else {
            3
        }
    }

    /// The output stream to capture, by its place in the order of appearance:
    /// the most trustworthy of those that belong to the process, and among
    /// equals the first.
    pub fn pick(&self, pid: u32, comm: &str) -> (r: Option<usize>)
        ensures
            r matches Some(i) ==> is_pick(self.nodes(), self.clients(), pid, comm@, i as int),
            r is None ==> forall|j: int|
                0 <= j < self.nodes().len() ==> rank(
                    #[trigger] self.nodes()[j],
                    self.clients(),
                    pid,
                    comm@,
                ) == 3,
    {
        let mut best: Option<usize> = None;
        let mut least: u8 = 3;
        let mut i: usize = 0;
        while i < self.nodes.len()
            invariant
                i <= self.nodes@.len(),
                self.nodes@.len() == self.nodes().len(),
                least <= 3,
                best is None <==> least == 3,
                forall|j: int|
                    0 <= j < i ==> rank(#[trigger] self.nodes()[j], self.clients(), pid, comm@)
                        >= least,
                best matches Some(b) ==> {
                    &&& b < i
                    &&& rank(self.nodes()[b as int], self.clients(), pid, comm@) == least
                    &&& forall|j: int|
                        0 <= j < b ==> rank(#[trigger] self.nodes()[j], self.clients(), pid, comm@)
                            > least
                },
            decreases self.nodes@.len() - i,
        {
            let r: u8 = self.node_rank(i, pid, comm);
            if r < least {
                least = r;
                best = Some(i);
            }
            i = i + 1;
        }
        best
    }

    /// The object id of the output stream at place `i`.
    pub fn node_id(&self, i: usize) -> (r: u32)
        requires
            i < self.nodes().len(),
        ensures
            r == self.nodes()[i as int].id,
    {
        self.nodes[i].id
    }

    /// The name of the output stream at place `i`.
    pub fn node_name(&self, i: usize) -> (r: String)
        requires
            i < self.nodes().len(),
        ensures
            r@ == self.nodes()[i as int].name,
    {
        self.nodes[i].name.clone()
    }
}

/// A stream whose client carries the daemon's stamp for the process is never
/// passed over for one that merely states the id or bears the name.
pub proof fn law_the_stamp_wins(
    nodes: Seq<NodeView>,
    clients: Map<u32, u32>,
    pid: u32,
    comm: Seq<char>,
    i: int,
    j: int,
)
    requires
        is_pick(nodes, clients, pid, comm, i),
        0 <= j < nodes.len(),
        rank(nodes[j], clients, pid, comm) == 0,
    ensures
        rank(nodes[i], clients, pid, comm) == 0,
{
}

/// Streams that appear later change the pick only for one that can be trusted
/// more.
pub proof fn law_pick_only_improves(
    nodes: Seq<NodeView>,
    later: Seq<NodeView>,
    clients: Map<u32, u32>,
    pid: u32,
    comm: Seq<char>,
    i: int,
    k: int,
)
    requires
        is_pick(nodes, clients, pid, comm, i),
        is_pick(nodes + later, clients, pid, comm, k),
    ensures
        k == i || rank((nodes + later)[k], clients, pid, comm) < rank(
            nodes[i],
            clients,
            pid,
            comm,
        ),
{
    assert((nodes + later)[i] == nodes[i]);
    if k < nodes.len() {
        assert((nodes + later)[k] == nodes[k]);
    }
}

} // verus!
