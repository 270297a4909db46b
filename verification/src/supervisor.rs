//! The serving supervisor: the lifecycle of the active snapshot, and the
//! atomic swap that a reload performs.

use vstd::prelude::*;
use vstd::string::StringExecFns;

use std::sync::Arc;

use crate::fs::FsNode;
use crate::request::spec_reply;

verus! {

/// Where the supervisor stands in its lifecycle: before the first snapshot
/// is built, serving one, or shut down.
#[derive(Clone, Copy, Debug, PartialEq, Eq, Structural)]
pub enum Phase {
    Starting,
    Serving,
    Stopped,
}

/// The supervisor owns the currently active snapshot, behind a shared
/// reference-counted handle that request-serving tasks also hold, and
/// replaces it only as a whole: a snapshot, once published, is immutable.
///
/// The ghost `snapshots` field records every snapshot ever published, in
/// order; transitions only ever append to it, which is what makes a swap
/// atomic for requests still reading an older snapshot.
pub struct Supervisor {
    phase: Phase,
    tree: Option<Arc<FsNode>>,
    snapshots: Ghost<Seq<FsNode>>,
}

impl Supervisor {
    /// The supervisor's phase is tied to its snapshot handle: it serves
    /// exactly while it holds one, it holds none before the first build,
    /// and the handle it holds is the most recently published snapshot.
    #[verifier::type_invariant]
    spec fn wf(self) -> bool {
        &&& (self.phase is Serving ==> self.tree is Some)
        &&& (self.phase is Starting ==> self.tree is None && self.snapshots@.len() == 0)
        &&& (self.tree is Some ==> self.snapshots@.len() > 0 && self.snapshots@.last()
            == self.tree->Some_0)
    }

    /// Whether the supervisor is still waiting for the first snapshot.
    pub closed spec fn is_starting(self) -> bool {
        self.phase is Starting
    }

    /// Whether the supervisor is serving a snapshot.
    pub closed spec fn is_serving(self) -> bool {
        self.phase is Serving
    }

    /// Whether the supervisor has shut down.
    pub closed spec fn is_stopped(self) -> bool {
        self.phase is Stopped
    }

    /// The snapshot that requests accepted now are served from: the most
    /// recently published one, the very value the handle points to.
    pub closed spec fn active_tree(self) -> FsNode {
        self.snapshots@.last()
    }

    /// Every snapshot published so far, oldest first.
    pub closed spec fn snapshots(self) -> Seq<FsNode> {
        self.snapshots@
    }

    /// A fresh supervisor, before the first snapshot build.
    pub fn new() -> (s: Supervisor)
        ensures
            s.is_starting(),
            s.snapshots() == Seq::<FsNode>::empty(),
    {
        Supervisor { phase: Phase::Starting, tree: None, snapshots: Ghost(Seq::empty()) }
    }

    /// Whether the supervisor is still waiting for the first snapshot.
    pub fn starting(&self) -> (b: bool)
        ensures
            b == self.is_starting(),
    {
        matches!(self.phase, Phase::Starting)
    }

    /// Whether the supervisor is serving a snapshot.
    pub fn serving(&self) -> (b: bool)
        ensures
            b == self.is_serving(),
    {
        matches!(self.phase, Phase::Serving)
    }

    /// Takes the outcome of the startup build. A built snapshot is
    /// published and serving begins; a failed build is fatal and the
    /// supervisor stops without ever serving.
    pub fn start(&mut self, built: Result<FsNode, String>) -> (ok: bool)
        requires
            old(self).is_starting(),
        ensures
            match built {
                Ok(tree) => {
                    &&& ok
                    &&& final(self).is_serving()
                    &&& final(self).active_tree() == tree
                    &&& final(self).snapshots() == old(self).snapshots().push(tree)
                },
                Err(_) => {
                    &&& !ok
                    &&& final(self).is_stopped()
                    &&& final(self).snapshots() == old(self).snapshots()
                },
            },
    {
        proof {
            use_type_invariant(&*self);
        }
        match built {
            Ok(tree) => {
                let ghost published = self.snapshots@.push(tree);
                *self = Supervisor {
                    phase: Phase::Serving,
                    tree: Some(Arc::new(tree)),
                    snapshots: Ghost(published),
                };
                true
            },
            Err(_) => {
                self.phase = Phase::Stopped;
                false
            },
        }
    }

    /// Takes the outcome of a reload's rebuild, and answers the control
    /// channel. A rebuilt snapshot is published — swapped in as a whole, so
    /// requests accepted from now on resolve against it, while handles to
    /// the old snapshot stay valid and untouched. A failed rebuild changes
    /// nothing: the previous snapshot stays active, and the error text is
    /// reported to the caller. The second result says whether the serving
    /// task must be restarted on the new snapshot.
    pub fn reload(&mut self, built: Result<FsNode, String>) -> (r: (String, bool))
        requires
            old(self).is_serving(),
        ensures
            final(self).is_serving(),
            match built {
                Ok(tree) => {
                    &&& r.1
                    &&& final(self).active_tree() == tree
                    &&& final(self).snapshots() == old(self).snapshots().push(tree)
                    &&& r.0@ == "content reloaded\r\n"@
                },
                Err(e) => {
                    &&& !r.1
                    &&& *final(self) == *old(self)
                    &&& r.0@ == e@ + "\r\n"@
                },
            },
    {
        proof {
            use_type_invariant(&*self);
        }
        match built {
            Ok(tree) => {
                let ghost published = self.snapshots@.push(tree);
                *self = Supervisor {
                    phase: Phase::Serving,
                    tree: Some(Arc::new(tree)),
                    snapshots: Ghost(published),
                };
                ("content reloaded\r\n".to_owned(), true)
            },
            Err(msg) => (msg.concat("\r\n"), false),
        }
    }

    /// Shuts the supervisor down and answers the control channel. No new
    /// connections are to be accepted; the snapshot handle is left in place
    /// for requests still in flight.
    pub fn abort(&mut self) -> (reply: String)
        requires
            old(self).is_serving(),
        ensures
            final(self).is_stopped(),
            final(self).snapshots() == old(self).snapshots(),
            final(self).active_tree() == old(self).active_tree(),
            reply@ == "server ending\r\n"@,
    {
        proof {
            use_type_invariant(&*self);
        }
        self.phase = Phase::Stopped;
        "server ending\r\n".to_owned()
    }

    /// A fresh handle to the active snapshot, for one serving task: the
    /// very snapshot most recently published, shared, not copied.
    pub fn current_tree(&self) -> (t: Arc<FsNode>)
        requires
            self.is_serving(),
        ensures
            t == self.active_tree(),
            self.snapshots().len() > 0 && t == self.snapshots().last(),
    {
        proof {
            use_type_invariant(self);
        }
        share_tree(self.tree.as_ref().unwrap())
    }
}

/// Relies on `Arc::clone`: the clone is a new handle to the same
/// allocation, carrying the very same snapshot.
#[verifier::external_body]
fn share_tree(tree: &Arc<FsNode>) -> (r: Arc<FsNode>)
    ensures
        r == *tree,
{
    Arc::clone(tree)
}

/// Swap atomicity. Every supervisor transition either appends one snapshot
/// to the published history (`start`, a successful `reload`) or leaves it
/// as it is (`abort`, a failed `reload`); none rewrites an entry. So for a
/// request that captured the snapshot of generation `g` when it was
/// accepted, that snapshot — and with it the request's whole reply — is the
/// same before and after any run of concurrent reloads: the request
/// observes exactly one tree version, never a mixture of two generations.
pub proof fn lemma_swap_atomicity(
    before: Supervisor,
    after: Supervisor,
    g: int,
    path: Seq<char>,
)
    requires
        before.snapshots().is_prefix_of(after.snapshots()),
        0 <= g < before.snapshots().len(),
    ensures
        after.snapshots()[g] == before.snapshots()[g],
        spec_reply(after.snapshots()[g], path) == spec_reply(before.snapshots()[g], path),
{
    assert(before.snapshots() =~= after.snapshots().subrange(0, before.snapshots().len() as int));
}

} // verus!
