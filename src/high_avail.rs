use crate::config::{LocalServer, RemoteServer, http_protocol, http_scheme};
use vstd::prelude::*;

verus! {

/// A member of the replication group: a node id and where to reach it.
pub struct Agent {
    pub id: u64,
    pub host: String,
    pub port: i64,
    pub protocol: String,
}

/// An agent as plain values.
pub type AgentView = (u64, Seq<char>, int, Seq<char>);

impl View for Agent {
    type V = AgentView;

    open spec fn view(&self) -> AgentView {
        (self.id, self.host@, self.port as int, self.protocol@)
    }
}

/// Why the replication group could not be formed.
#[derive(Debug)]
pub enum HighAvailError {
    /// This instance has no `node_id`.
    LocalNodeIdMissing,
    /// The named server has no `node_id`.
    ServerNodeIdMissing(String),
}

pub open spec fn local_agent(l: LocalServer) -> AgentView {
    (l.node_id->Some_0, l.host@, l.port as int, http_scheme(l.tls))
}

pub open spec fn remote_agent(s: RemoteServer) -> AgentView {
    (s.node_id->Some_0, s.host@, s.port as int, http_scheme(s.tls))
}

pub open spec fn agents_view(v: Seq<Agent>) -> Seq<AgentView> {
    v.map_values(|a: Agent| a@)
}

pub open spec fn no_duplicates(v: Seq<AgentView>) -> bool {
    forall|a: int, b: int| 0 <= a < v.len() && 0 <= b < v.len() && a != b ==> v[a] != v[b]
}

fn agent_eq(a: &Agent, b: &Agent) -> (r: bool)
    ensures
        r == (a@ == b@),
{
    a.id == b.id && a.host == b.host && a.port == b.port && a.protocol == b.protocol
}

/// Adds `a` unless an equal agent is already there.
fn insert_agent(v: &mut Vec<Agent>, a: Agent)
    requires
        no_duplicates(agents_view(old(v)@)),
    ensures
        no_duplicates(agents_view(final(v)@)),
        forall|x: AgentView|
            agents_view(final(v)@).contains(x) <==> (agents_view(old(v)@).contains(x) || x == a@),
{
    let ghost pre = agents_view(v@);
    let mut i: usize = 0;
    while i < v.len()
        invariant
            i <= v@.len(),
            pre == agents_view(v@),
            pre == agents_view(old(v)@),
            no_duplicates(pre),
            forall|k: int| 0 <= k < i ==> v@[k]@ != a@,
        decreases v@.len() - i,
    {
        if agent_eq(&v[i], &a) {
            proof {
                assert(pre[i as int] == a@);
                assert forall|x: AgentView| pre.contains(x) <==> (pre.contains(x) || x == a@) by {
                    if x == a@ {
                        assert(pre[i as int] == x);
                    }
                }
            }
            return;
        }
        i = i + 1;
    }
    let ghost av = a@;
    v.push(a);
    proof {
        assert(agents_view(v@) =~= pre.push(av));
        assert forall|k: int| 0 <= k < pre.len() implies pre[k] != av by {
            assert(pre[k] == v@[k]@);
        }
        assert forall|a: int, b: int|
            0 <= a < agents_view(v@).len() && 0 <= b < agents_view(v@).len() && a != b implies agents_view(
            v@,
        )[a] != agents_view(v@)[b] by {
            if a < pre.len() && b < pre.len() {
                assert(agents_view(v@)[a] == pre[a] && agents_view(v@)[b] == pre[b]);
            } else if a < pre.len() {
                assert(agents_view(v@)[a] == pre[a]);
            } else {
                assert(agents_view(v@)[b] == pre[b]);
            }
        }
        assert forall|x: AgentView| agents_view(v@).contains(x) <==> (pre.contains(x) || x == av) by {
            if agents_view(v@).contains(x) {
                let k = choose|k: int| 0 <= k < agents_view(v@).len() && agents_view(v@)[k] == x;
                if k < pre.len() {
                    assert(pre[k] == x);
                }
            }
            if pre.contains(x) {
                let k = choose|k: int| 0 <= k < pre.len() && pre[k] == x;
                assert(agents_view(v@)[k] == x);
            }
            if x == av {
                assert(agents_view(v@)[pre.len() as int] == x);
            }
        }
    }
}

/// The local agent and every member of the group: each configured server and
/// this instance, each once. Every server must carry a `node_id`; the local
/// one is checked first, then the servers in order.
pub fn agent_info(local: &LocalServer, servers: &Vec<RemoteServer>) -> (r: Result<
    (Agent, Vec<Agent>),
    HighAvailError,
>)
    ensures
        local.node_id is None ==> r matches Err(HighAvailError::LocalNodeIdMissing),
        r matches Err(HighAvailError::ServerNodeIdMissing(n)) ==> local.node_id is Some
            && exists|i: int|
            0 <= i < servers@.len() && servers@[i].node_id is None && servers@[i].name == n
                && forall|j: int| 0 <= j < i ==> servers@[j].node_id is Some,
        r is Ok <==> local.node_id is Some && forall|i: int|
            0 <= i < servers@.len() ==> servers@[i].node_id is Some,
        r matches Ok((me, all)) ==> {
            &&& me@ == local_agent(*local)
            &&& no_duplicates(agents_view(all@))
            &&& forall|x: AgentView|
                agents_view(all@).contains(x) <==> (x == local_agent(*local) || exists|i: int|
                    0 <= i < servers@.len() && x == remote_agent(servers@[i]))
        },
{
    let node_id = match local.node_id {
        Some(id) => id,
        None => {
            return Err(HighAvailError::LocalNodeIdMissing);
        },
    };
    let mut agents: Vec<Agent> = Vec::new();
    let mut i: usize = 0;
    while i < servers.len()
        invariant
            i <= servers@.len(),
            local.node_id == Some(node_id),
            forall|j: int| 0 <= j < i ==> servers@[j].node_id is Some,
            no_duplicates(agents_view(agents@)),
            forall|x: AgentView|
                agents_view(agents@).contains(x) <==> exists|j: int|
                    0 <= j < i && x == remote_agent(servers@[j]),
        decreases servers@.len() - i,
    {
        let s = &servers[i];
        match s.node_id {
            None => {
                return Err(HighAvailError::ServerNodeIdMissing(s.name.clone()));
            },
            Some(id) => {
                let a = Agent {
                    id,
                    host: s.host.clone(),
                    port: s.port,
                    protocol: String::from_str(http_protocol(s.tls)),
                };
                proof {
                    assert(a@ == remote_agent(servers@[i as int]));
                }
                insert_agent(&mut agents, a);
                proof {
                    assert forall|x: AgentView| agents_view(agents@).contains(x) <==> exists|j: int|
                        0 <= j < i + 1 && x == remote_agent(servers@[j]) by {
                        if x == remote_agent(servers@[i as int]) {
                            assert(0 <= i < i + 1);
                        }
                    }
                }
            },
        }
        i = i + 1;
    }
    let me = Agent {
        id: node_id,
        host: local.host.clone(),
        port: local.port,
        protocol: String::from_str(http_protocol(local.tls)),
    };
    let me2 = Agent {
        id: node_id,
        host: local.host.clone(),
        port: local.port,
        protocol: String::from_str(http_protocol(local.tls)),
    };
    insert_agent(&mut agents, me2);
    Ok((me, agents))
}

/// Whether this instance replicates run state, and with which members.
pub enum HighAvail {
    Enabled { me: Agent, members: Vec<Agent> },
    Disabled,
}

impl HighAvail {
    /// Forms the replication group when `ha_mode` is set; a missing node id
    /// is then an error.
    pub fn new(local: &LocalServer, servers: &Vec<RemoteServer>) -> (r: Result<
        HighAvail,
        HighAvailError,
    >)
        ensures
            !local.ha_mode ==> r matches Ok(HighAvail::Disabled),
            local.ha_mode ==> (r is Ok <==> local.node_id is Some && forall|i: int|
                0 <= i < servers@.len() ==> servers@[i].node_id is Some),
            r matches Ok(HighAvail::Enabled { me, members }) ==> {
                &&& local.ha_mode
                &&& me@ == local_agent(*local)
                &&& no_duplicates(agents_view(members@))
                &&& forall|x: AgentView|
                    agents_view(members@).contains(x) <==> (x == local_agent(*local) || exists|
                        i: int,
                    | 0 <= i < servers@.len() && x == remote_agent(servers@[i]))
            },
    {
        if local.ha_mode {
            let (me, members) = agent_info(local, servers)?;
            Ok(HighAvail::Enabled { me, members })
        } else {
            Ok(HighAvail::Disabled)
        }
    }
}

} // verus!
