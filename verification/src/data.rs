//! The attribution data model: what is known about a process, its
//! container, and the output record a socket event becomes.
//!
//! Each type comes with a mathematical view (`@`) over sequences and
//! plain values; every contract in the crate speaks about those views.

use vstd::prelude::*;
use crate::event::SockAddr;

verus! {

/// Whether a tracked process is still running.
#[derive(Clone, Copy, Debug, PartialEq, Eq, Structural)]
pub enum Status {
    Alive,
    Dead,
}

/// Container identity, as far as the runtime surfaces it.  `labels` may
/// be empty for runtimes that do not report any.
#[derive(Clone, Debug, PartialEq, Eq)]
pub struct Container {
    pub id: String,
    pub name: String,
    pub image: String,
    pub labels: Vec<(String, String)>,
}

/// Kubernetes pod identity, when the container belongs to one.
#[derive(Clone, Debug, PartialEq, Eq)]
pub struct Pod {
    pub name: String,
    pub namespace: String,
}

/// The attribution record for one pid: its command line (empty when
/// `/proc` was already gone), container identity when applicable, and
/// lifecycle status.
#[derive(Clone, Debug, PartialEq, Eq)]
pub struct Process {
    pub pid: i32,
    pub command: Vec<String>,
    pub container: Option<Container>,
    pub pod: Option<Pod>,
    pub status: Status,
}

/// One output record: a socket event joined with the attribution that
/// was cached for its pid and the host name, stamped with the time the
/// dispatcher saw it (milliseconds since the epoch).
#[derive(Debug)]
pub struct Record {
    pub timestamp: u64,
    pub event: String,
    pub src: SockAddr,
    pub dst: SockAddr,
    pub process: Process,
    pub hostname: String,
    pub rx: u32,
    pub tx: u32,
    pub srtt: u32,
    pub retx: u32,
}

/// Mathematical content of a [`Container`].
#[verifier::ext_equal]
pub ghost struct ContainerView {
    pub id: Seq<char>,
    pub name: Seq<char>,
    pub image: Seq<char>,
    pub labels: Seq<(Seq<char>, Seq<char>)>,
}

/// Mathematical content of a [`Pod`].
#[verifier::ext_equal]
pub ghost struct PodView {
    pub name: Seq<char>,
    pub namespace: Seq<char>,
}

/// Mathematical content of a [`Process`].
#[verifier::ext_equal]
pub ghost struct ProcessView {
    pub pid: int,
    pub command: Seq<Seq<char>>,
    pub container: Option<ContainerView>,
    pub pod: Option<PodView>,
    pub status: Status,
}

/// Mathematical content of a [`Record`].
#[verifier::ext_equal]
pub ghost struct RecordView {
    pub timestamp: u64,
    pub event: Seq<char>,
    pub src: SockAddr,
    pub dst: SockAddr,
    pub process: ProcessView,
    pub hostname: Seq<char>,
    pub rx: u32,
    pub tx: u32,
    pub srtt: u32,
    pub retx: u32,
}

impl View for Container {
    type V = ContainerView;

    open spec fn view(&self) -> ContainerView {
        ContainerView {
            id: self.id@,
            name: self.name@,
            image: self.image@,
            labels: self.labels.deep_view(),
        }
    }
}

impl View for Pod {
    type V = PodView;

    open spec fn view(&self) -> PodView {
        PodView { name: self.name@, namespace: self.namespace@ }
    }
}

impl View for Process {
    type V = ProcessView;

    open spec fn view(&self) -> ProcessView {
        ProcessView {
            pid: self.pid as int,
            command: self.command.deep_view(),
            container: match self.container {
                Some(c) => Some(c@),
                None => None,
            },
            pod: match self.pod {
                Some(p) => Some(p@),
                None => None,
            },
            status: self.status,
        }
    }
}

impl View for Record {
    type V = RecordView;

    open spec fn view(&self) -> RecordView {
        RecordView {
            timestamp: self.timestamp,
            event: self.event@,
            src: self.src,
            dst: self.dst,
            process: self.process@,
            hostname: self.hostname@,
            rx: self.rx,
            tx: self.tx,
            srtt: self.srtt,
            retx: self.retx,
        }
    }
}

impl ProcessView {
    /// The same process marked dead; everything else is preserved.
    pub open spec fn to_dead(self) -> ProcessView {
        ProcessView { status: Status::Dead, ..self }
    }
}

impl Container {
    /// Duplicate this container record; the copy has the same content.
    pub fn duplicate(&self) -> (r: Container)
        ensures
            r@ == self@,
    {
        let mut labels: Vec<(String, String)> = Vec::new();
        let mut i: usize = 0;
        while i < self.labels.len()
            invariant
                i <= self.labels.len(),
                labels@ =~= self.labels@.subrange(0, i as int),
            decreases self.labels.len() - i,
        {
            let pair = (self.labels[i].0.clone(), self.labels[i].1.clone());
            proof {
                assert(pair =~= self.labels@[i as int]);
            }
            labels.push(pair);
            i = i + 1;
        }
        proof {
            assert(labels@ =~= self.labels@);
        }
        let r = Container {
            id: self.id.clone(),
            name: self.name.clone(),
            image: self.image.clone(),
            labels,
        };
        proof {
            assert(r@ =~= self@);
        }
        r
    }
}

impl Pod {
    /// Duplicate this pod record; the copy has the same content.
    pub fn duplicate(&self) -> (r: Pod)
        ensures
            r@ == self@,
    {
        let r = Pod { name: self.name.clone(), namespace: self.namespace.clone() };
        proof {
            assert(r@ =~= self@);
        }
        r
    }
}

impl Process {
    /// Duplicate this attribution record; the copy has the same content.
    pub fn duplicate(&self) -> (r: Process)
        ensures
            r@ == self@,
    {
        let mut command: Vec<String> = Vec::new();
        let mut i: usize = 0;
        while i < self.command.len()
            invariant
                i <= self.command.len(),
                command@ =~= self.command@.subrange(0, i as int),
            decreases self.command.len() - i,
        {
            command.push(self.command[i].clone());
            i = i + 1;
        }
        proof {
            assert(command@ =~= self.command@);
        }
        let container = match &self.container {
            Some(c) => Some(c.duplicate()),
            None => None,
        };
        let pod = match &self.pod {
            Some(p) => Some(p.duplicate()),
            None => None,
        };
        let r = Process { pid: self.pid, command, container, pod, status: self.status };
        proof {
            assert(r@ =~= self@);
        }
        r
    }
}

} // verus!
