//! Admission control for mutating backend commands.  Installs of
//! distinct versions may run in parallel; uninstall and set-default are
//! exclusive: at most one in flight and never beside an active install.
//! Requests that cannot start immediately wait in a FIFO and are drained
//! after every completion.

use vstd::prelude::*;

use std::collections::VecDeque;

use crate::text::str_eq;

verus! {

/// An operation that is currently running.
#[derive(Debug, Clone)]
pub enum Operation {
    Install { version: String },
    Uninstall { version: String },
    SetDefault { version: String },
}

/// An operation waiting for admission.
#[derive(Debug, Clone)]
pub enum OperationRequest {
    Install { version: String },
    Uninstall { version: String },
    SetDefault { version: String },
}

pub ghost enum OperationView {
    Install { version: Seq<char> },
    Uninstall { version: Seq<char> },
    SetDefault { version: Seq<char> },
}

pub ghost enum OperationRequestView {
    Install { version: Seq<char> },
    Uninstall { version: Seq<char> },
    SetDefault { version: Seq<char> },
}

impl View for Operation {
    type V = OperationView;

    open spec fn view(&self) -> OperationView {
        match self {
            Operation::Install { version } => OperationView::Install {
                version: version@,
            },
            Operation::Uninstall { version } => OperationView::Uninstall {
                version: version@,
            },
            Operation::SetDefault { version } => OperationView::SetDefault {
                version: version@,
            },
        }
    }
}

impl DeepView for Operation {
    type V = OperationView;

    open spec fn deep_view(&self) -> OperationView {
        self.view()
    }
}

impl View for OperationRequest {
    type V = OperationRequestView;

    open spec fn view(&self) -> OperationRequestView {
        match self {
            OperationRequest::Install { version } => OperationRequestView::Install {
                version: version@,
            },
            OperationRequest::Uninstall { version } => OperationRequestView::Uninstall {
                version: version@,
            },
            OperationRequest::SetDefault { version } => OperationRequestView::SetDefault {
                version: version@,
            },
        }
    }
}

impl DeepView for OperationRequest {
    type V = OperationRequestView;

    open spec fn deep_view(&self) -> OperationRequestView {
        self.view()
    }
}

pub open spec fn op_version_spec(op: OperationView) -> Seq<char> {
    match op {
        OperationView::Install { version } => version,
        OperationView::Uninstall { version } => version,
        OperationView::SetDefault { version } => version,
    }
}

pub open spec fn req_version_spec(req: OperationRequestView) -> Seq<char> {
    match req {
        OperationRequestView::Install { version } => version,
        OperationRequestView::Uninstall { version } => version,
        OperationRequestView::SetDefault { version } => version,
    }
}

impl OperationRequest {
    pub fn version(&self) -> (r: &str)
        ensures
            r@ == req_version_spec(self@),
    {
        match self {
            Self::Install { version } => version.as_str(),
            Self::Uninstall { version } => version.as_str(),
            Self::SetDefault { version } => version.as_str(),
        }
    }
}

#[derive(Debug, Clone)]
pub struct QueuedOperation {
    pub request: OperationRequest,
}

impl View for QueuedOperation {
    type V = OperationRequestView;

    open spec fn view(&self) -> OperationRequestView {
        self.request@
    }
}

impl DeepView for QueuedOperation {
    type V = OperationRequestView;

    open spec fn deep_view(&self) -> OperationRequestView {
        self.request@
    }
}

/// Some active install carries exactly this version string.
pub open spec fn has_active_install_spec(
    active: Seq<OperationView>,
    version: Seq<char>,
) -> bool {
    exists|i: int|
        0 <= i < active.len() && ((#[trigger] active[i]) matches OperationView::Install {
            version: v,
        } && v == version)
}

/// One drain pass: pop installs off the front, deduplicating against the
/// active set and against installs taken this same pass; stop at the
/// first non-install, and release it only when no install is active and
/// none was collected.
pub open spec fn drain_spec(
    pending: Seq<OperationRequestView>,
    active: Seq<OperationView>,
    acc: Seq<Seq<char>>,
) -> (Seq<Seq<char>>, Option<OperationRequestView>, Seq<OperationRequestView>)
    decreases pending.len(),
{
    if pending.len() == 0 {
        (acc, None, pending)
    } else {
        match pending[0] {
            OperationRequestView::Install { version } => {
                let acc2 = if has_active_install_spec(active, version)
                    || acc.contains(version) {
                    acc
                } else {
                    acc.push(version)
                };
                drain_spec(pending.drop_first(), active, acc2)
            },
            _ => {
                if active.len() == 0 && acc.len() == 0 {
                    (acc, Some(pending[0]), pending.drop_first())
                } else {
                    (acc, None, pending)
                }
            },
        }
    }
}

/// While any install is active, a drain never releases an exclusive op.
pub proof fn lemma_drain_blocks_exclusive(
    pending: Seq<OperationRequestView>,
    active: Seq<OperationView>,
    acc: Seq<Seq<char>>,
)
    requires
        active.len() > 0,
    ensures
        drain_spec(pending, active, acc).1 is None,
    decreases pending.len(),
{
    if pending.len() > 0 {
        match pending[0] {
            OperationRequestView::Install { version } => {
                let acc2 = if has_active_install_spec(active, version)
                    || acc.contains(version) {
                    acc
                } else {
                    acc.push(version)
                };
                lemma_drain_blocks_exclusive(pending.drop_first(), active, acc2);
            },
            _ => {},
        }
    }
}

/// A released exclusive op means nothing else was admitted this pass.
pub proof fn lemma_drain_exclusive_alone(
    pending: Seq<OperationRequestView>,
    active: Seq<OperationView>,
    acc: Seq<Seq<char>>,
)
    ensures
        drain_spec(pending, active, acc).1 is Some ==> drain_spec(
            pending,
            active,
            acc,
        ).0.len() == 0 && active.len() == 0,
    decreases pending.len(),
{
    if pending.len() > 0 {
        match pending[0] {
            OperationRequestView::Install { version } => {
                let acc2 = if has_active_install_spec(active, version)
                    || acc.contains(version) {
                    acc
                } else {
                    acc.push(version)
                };
                lemma_drain_exclusive_alone(pending.drop_first(), active, acc2);
            },
            _ => {},
        }
    }
}

/// Admitted installs are distinct and none is already active.
pub proof fn lemma_drain_installs_distinct(
    pending: Seq<OperationRequestView>,
    active: Seq<OperationView>,
    acc: Seq<Seq<char>>,
)
    requires
        acc.no_duplicates(),
        forall|k: int|
            0 <= k < acc.len() ==> !has_active_install_spec(active, #[trigger] acc[k]),
    ensures
        drain_spec(pending, active, acc).0.no_duplicates(),
        forall|k: int|
            0 <= k < drain_spec(pending, active, acc).0.len()
                ==> !has_active_install_spec(
                active,
                #[trigger] drain_spec(pending, active, acc).0[k],
            ),
    decreases pending.len(),
{
    if pending.len() > 0 {
        match pending[0] {
            OperationRequestView::Install { version } => {
                let acc2 = if has_active_install_spec(active, version)
                    || acc.contains(version) {
                    acc
                } else {
                    acc.push(version)
                };
                lemma_drain_installs_distinct(pending.drop_first(), active, acc2);
            },
            _ => {},
        }
    }
}

/// Serializes mutating commands for one backend and environment.  Only
/// ever touched from the single control-flow context that owns it.
#[derive(Debug, Clone)]
pub struct OperationQueue {
    pub active_installs: Vec<Operation>,
    pub exclusive_op: Option<Operation>,
    pub pending: VecDeque<QueuedOperation>,
}

impl Default for OperationQueue {
    fn default() -> (r: Self)
        ensures
            r.active_installs@.len() == 0,
            r.exclusive_op is None,
            r.pending@.len() == 0,
    {
        Self::new()
    }
}

impl OperationQueue {
    pub fn new() -> (r: Self)
        ensures
            r.active_installs@.len() == 0,
            r.exclusive_op is None,
            r.pending@.len() == 0,
    {
        Self {
            active_installs: Vec::new(),
            exclusive_op: None,
            pending: VecDeque::new(),
        }
    }

    /// A new install may start unless an exclusive op is running.
    pub fn is_busy_for_install(&self) -> (r: bool)
        ensures
            r == (self.exclusive_op is Some),
    {
        self.exclusive_op.is_some()
    }

    /// An exclusive op may start only with no install and no exclusive
    /// op in flight.
    pub fn is_busy_for_exclusive(&self) -> (r: bool)
        ensures
            r == (self.active_installs@.len() > 0 || self.exclusive_op is Some),
    {
        !self.active_installs.is_empty() || self.exclusive_op.is_some()
    }

    pub fn has_pending_for_version(&self, version: &str) -> (r: bool)
        ensures
            r == exists|i: int|
                0 <= i < self.pending@.len() && req_version_spec(
                    #[trigger] self.pending@[i]@,
                ) == version@,
    {
        let n = self.pending.len();
        let mut i: usize = 0;
        while i < n
            invariant
                0 <= i <= n,
                n == self.pending@.len(),
                forall|j: int|
                    0 <= j < i ==> req_version_spec(#[trigger] self.pending@[j]@)
                        != version@,
            decreases n - i,
        {
            if str_eq(self.pending[i].request.version(), version) {
                proof {
                    assert(req_version_spec(self.pending@[i as int]@) == version@);
                }
                return true;
            }
            i = i + 1;
        }
        false
    }

    pub fn has_active_install(&self, version: &str) -> (r: bool)
        ensures
            r == has_active_install_spec(self.active_installs.deep_view(), version@),
    {
        let n = self.active_installs.len();
        let mut i: usize = 0;
        while i < n
            invariant
                0 <= i <= n,
                n == self.active_installs@.len(),
                forall|j: int|
                    0 <= j < i ==> !((#[trigger] self.active_installs.deep_view()[j])
                        matches OperationView::Install { version: v } && v
                        == version@),
            decreases n - i,
        {
            let matched = match &self.active_installs[i] {
                Operation::Install { version: v } => str_eq(v.as_str(), version),
                _ => false,
            };
            if matched {
                proof {
                    let ops = self.active_installs.deep_view();
                    assert(ops[i as int] matches OperationView::Install {
                        version: v,
                    } && v == version@);
                }
                return true;
            }
            i = i + 1;
        }
        false
    }

    /// Some operation on exactly this version is in flight.
    pub fn is_current_version(&self, version: &str) -> (r: bool)
        ensures
            r == (has_active_install_spec(self.active_installs.deep_view(), version@)
                || (self.exclusive_op matches Some(op) && op_version_spec(op@)
                == version@)),
    {
        if self.has_active_install(version) {
            return true;
        }
        match &self.exclusive_op {
            Some(op) => {
                let v = match op {
                    Operation::Install { version: v } => v.as_str(),
                    Operation::Uninstall { version: v } => v.as_str(),
                    Operation::SetDefault { version: v } => v.as_str(),
                };
                str_eq(v, version)
            },
            None => false,
        }
    }

    /// The active operation on this version, preferring an active
    /// install over the exclusive slot.
    pub fn active_operation_for(&self, version: &str) -> (r: Option<&Operation>)
        ensures
            match r {
                Some(op) => (op@ matches OperationView::Install { version: v } && v
                    == version@ && has_active_install_spec(
                    self.active_installs.deep_view(),
                    version@,
                )) || (!has_active_install_spec(
                    self.active_installs.deep_view(),
                    version@,
                ) && (self.exclusive_op matches Some(e) && e@ == op@
                    && op_version_spec(op@) == version@)),
                None => !has_active_install_spec(
                    self.active_installs.deep_view(),
                    version@,
                ) && !(self.exclusive_op matches Some(op) && op_version_spec(op@)
                    == version@),
            },
    {
        let n = self.active_installs.len();
        let mut i: usize = 0;
        while i < n
            invariant
                0 <= i <= n,
                n == self.active_installs@.len(),
                forall|j: int|
                    0 <= j < i ==> !((#[trigger] self.active_installs.deep_view()[j])
                        matches OperationView::Install { version: v } && v
                        == version@),
            decreases n - i,
        {
            let matched = match &self.active_installs[i] {
                Operation::Install { version: v } => str_eq(v.as_str(), version),
                _ => false,
            };
            if matched {
                proof {
                    let ops = self.active_installs.deep_view();
                    assert(ops[i as int] matches OperationView::Install {
                        version: v,
                    } && v == version@);
                }
                return Some(&self.active_installs[i]);
            }
            i = i + 1;
        }
        match &self.exclusive_op {
            Some(op) => {
                let v = match op {
                    Operation::Install { version: v } => v.as_str(),
                    Operation::Uninstall { version: v } => v.as_str(),
                    Operation::SetDefault { version: v } => v.as_str(),
                };
                if str_eq(v, version) {
                    Some(op)
                } else {
                    None
                }
            },
            None => None,
        }
    }

    pub fn enqueue(&mut self, request: OperationRequest)
        ensures
            final(self).pending@ == old(self).pending@.push(
                QueuedOperation { request },
            ),
            final(self).active_installs == old(self).active_installs,
            final(self).exclusive_op == old(self).exclusive_op,
    {
        self.pending.push_back(QueuedOperation { request });
    }

    pub fn start_install(&mut self, version: String)
        ensures
            final(self).active_installs@ == old(self).active_installs@.push(
                Operation::Install { version },
            ),
            final(self).exclusive_op == old(self).exclusive_op,
            final(self).pending == old(self).pending,
    {
        self.active_installs.push(Operation::Install { version });
    }

    pub fn start_exclusive(&mut self, op: Operation)
        ensures
            final(self).exclusive_op == Some(op),
            final(self).active_installs == old(self).active_installs,
            final(self).pending == old(self).pending,
    {
        self.exclusive_op = Some(op);
    }

    pub fn complete_exclusive(&mut self)
        ensures
            final(self).exclusive_op is None,
            final(self).active_installs == old(self).active_installs,
            final(self).pending == old(self).pending,
    {
        self.exclusive_op = None;
    }

    /// Drops every active install carrying this version; everything else
    /// stays, in order.
    pub fn remove_completed_install(&mut self, version: &str)
        ensures
            final(self).active_installs.deep_view() == old(self).active_installs
                .deep_view().filter(
                |op: OperationView|
                    !(op matches OperationView::Install { version: v } && v
                        == version@),
            ),
            final(self).exclusive_op == old(self).exclusive_op,
            final(self).pending == old(self).pending,
    {
        let ghost pred = |op: OperationView|
            !(op matches OperationView::Install { version: v } && v == version@);
        let n = self.active_installs.len();
        let mut kept: Vec<Operation> = Vec::new();
        let mut i: usize = 0;
        proof {
            broadcast use Seq::lemma_filter_push;

            reveal(Seq::filter);
            assert(old(self).active_installs.deep_view().take(0) =~= Seq::<
                OperationView,
            >::empty());
            assert(kept.deep_view() =~= Seq::<OperationView>::empty().filter(pred));
        }
        while i < n
            invariant
                0 <= i <= n,
                n == self.active_installs@.len(),
                self.active_installs == old(self).active_installs,
                self.exclusive_op == old(self).exclusive_op,
                self.pending == old(self).pending,
                pred == (|op: OperationView|
                    !(op matches OperationView::Install { version: v } && v
                        == version@)),
                kept.deep_view() == self.active_installs.deep_view().take(
                    i as int,
                ).filter(pred),
            decreases n - i,
        {
            let ghost prefix = self.active_installs.deep_view().take(i as int);
            let keep = match &self.active_installs[i] {
                Operation::Install { version: v } => !str_eq(v.as_str(), version),
                _ => true,
            };
            let ghost cur = self.active_installs.deep_view()[i as int];
            proof {
                broadcast use Seq::lemma_filter_push;

                assert(keep == pred(cur));
                assert(self.active_installs.deep_view().take(i + 1) =~= prefix.push(
                    cur,
                ));
                assert(prefix.push(cur).filter(pred) == if pred(cur) {
                    prefix.filter(pred).push(cur)
                } else {
                    prefix.filter(pred)
                });
            }
            if keep {
                let ghost before = kept.deep_view();
                let op = clone_operation(&self.active_installs[i]);
                kept.push(op);
                proof {
                    assert(kept.deep_view() =~= before.push(cur));
                }
            }
            i = i + 1;
        }
        proof {
            assert(self.active_installs.deep_view().take(n as int) =~= self
                .active_installs.deep_view());
        }
        self.active_installs = kept;
    }

    /// One drain pass over the FIFO, as `drain_spec` describes it:
    /// returns the versions to install now and at most one exclusive
    /// request to run, and leaves the rest pending.  With an exclusive
    /// op in flight nothing is admitted at all.
    pub fn drain_next(&mut self) -> (r: (Vec<String>, Option<OperationRequest>))
        ensures
            final(self).active_installs == old(self).active_installs,
            final(self).exclusive_op == old(self).exclusive_op,
            old(self).exclusive_op is Some ==> r.0@.len() == 0 && r.1 is None
                && final(self).pending == old(self).pending,
            old(self).exclusive_op is None ==> {
                let spec_r = drain_spec(
                    old(self).pending.deep_view(),
                    old(self).active_installs.deep_view(),
                    Seq::empty(),
                );
                &&& r.0.deep_view() == spec_r.0
                &&& r.1.deep_view() == spec_r.1
                &&& final(self).pending.deep_view() == spec_r.2
            },
            old(self).active_installs@.len() > 0 ==> r.1 is None,
            r.1 is Some ==> r.0@.len() == 0 && old(self).active_installs@.len()
                == 0,
            r.0.deep_view().no_duplicates(),
            forall|k: int|
                0 <= k < r.0@.len() ==> !has_active_install_spec(
                    old(self).active_installs.deep_view(),
                    #[trigger] r.0.deep_view()[k],
                ),
    {
        let mut installs: Vec<String> = Vec::new();
        if self.exclusive_op.is_some() {
            return (installs, None);
        }
        let ghost p0 = self.pending.deep_view();
        let ghost act = self.active_installs.deep_view();
        proof {
            assert(installs.deep_view() =~= Seq::<Seq<char>>::empty());
            if act.len() > 0 {
                lemma_drain_blocks_exclusive(p0, act, Seq::empty());
            }
            lemma_drain_exclusive_alone(p0, act, Seq::empty());
            lemma_drain_installs_distinct(p0, act, Seq::empty());
        }
        loop
            invariant
                self.active_installs == old(self).active_installs,
                self.exclusive_op == old(self).exclusive_op,
                self.exclusive_op is None,
                p0 == old(self).pending.deep_view(),
                act == self.active_installs.deep_view(),
                drain_spec(p0, act, Seq::empty()) == drain_spec(
                    self.pending.deep_view(),
                    act,
                    installs.deep_view(),
                ),
                installs.deep_view().no_duplicates(),
                forall|k: int|
                    0 <= k < installs@.len() ==> !has_active_install_spec(
                        act,
                        #[trigger] installs.deep_view()[k],
                    ),
            decreases self.pending@.len(),
        {
            if self.pending.len() == 0 {
                proof {
                    assert(self.pending.deep_view() =~= Seq::<
                        OperationRequestView,
                    >::empty());
                }
                return (installs, None);
            }
            let ghost pend = self.pending.deep_view();
            let is_install = match &self.pending[0].request {
                OperationRequest::Install { .. } => {
                    proof {
                        assert(pend[0] is Install);
                    }
                    true
                },
                OperationRequest::Uninstall { .. } => {
                    proof {
                        assert(pend[0] is Uninstall);
                    }
                    false
                },
                OperationRequest::SetDefault { .. } => {
                    proof {
                        assert(pend[0] is SetDefault);
                    }
                    false
                },
            };
            if is_install {
                let popped = match self.pending.pop_front() {
                    Some(q) => q,
                    None => {
                        proof {
                            assert(false);
                        }
                        unreached()
                    },
                };
                proof {
                    assert(popped@ == pend[0]);
                }
                let v = match popped.request {
                    OperationRequest::Install { version } => version,
                    _ => {
                        proof {
                            assert(false);
                        }
                        unreached()
                    },
                };
                proof {
                    assert(v@ == pend[0]->Install_version);
                    assert(self.pending.deep_view() =~= pend.drop_first());
                }
                let ghost before = installs.deep_view();
                let dup = self.has_active_install(v.as_str())
                    || contains_string(&installs, v.as_str());
                if !dup {
                    installs.push(v);
                    proof {
                        assert(installs.deep_view() =~= before.push(
                            pend[0]->Install_version,
                        ));
                        assert(drain_spec(pend, act, before) == drain_spec(
                            pend.drop_first(),
                            act,
                            before.push(pend[0]->Install_version),
                        ));
                        // the new entry is neither active nor a duplicate
                        assert(forall|k: int|
                            0 <= k < before.len() ==> #[trigger] before[k]
                                != pend[0]->Install_version);
                    }
                } else {
                    proof {
                        assert(drain_spec(pend, act, before) == drain_spec(
                            pend.drop_first(),
                            act,
                            before,
                        ));
                    }
                }
            } else {
                if self.active_installs.len() == 0 && installs.len() == 0 {
                    let popped = match self.pending.pop_front() {
                        Some(q) => q,
                        None => {
                            proof {
                                assert(false);
                            }
                            unreached()
                        },
                    };
                    proof {
                        assert(popped@ == pend[0]);
                        assert(self.pending.deep_view() =~= pend.drop_first());
                        assert(installs.deep_view() =~= Seq::<Seq<char>>::empty());
                        assert(drain_spec(pend, act, installs.deep_view())
                            == (installs.deep_view(), Some(pend[0]), pend
                            .drop_first()));
                    }
                    return (installs, Some(popped.request));
                }
                proof {
                    assert(act.len() > 0 || installs.deep_view().len() > 0);
                    assert(drain_spec(pend, act, installs.deep_view())
                        == (installs.deep_view(), None::<OperationRequestView>, pend));
                }
                return (installs, None);
            }
        }
    }
}

fn clone_operation(op: &Operation) -> (r: Operation)
    ensures
        r@ == op@,
{
    match op {
        Operation::Install { version } => Operation::Install {
            version: version.clone(),
        },
        Operation::Uninstall { version } => Operation::Uninstall {
            version: version.clone(),
        },
        Operation::SetDefault { version } => Operation::SetDefault {
            version: version.clone(),
        },
    }
}

fn contains_string(v: &Vec<String>, s: &str) -> (r: bool)
    ensures
        r == v.deep_view().contains(s@),
{
    let n = v.len();
    let mut i: usize = 0;
    while i < n
        invariant
            0 <= i <= n,
            n == v@.len(),
            forall|j: int| 0 <= j < i ==> v.deep_view()[j] != s@,
        decreases n - i,
    {
        if str_eq(v[i].as_str(), s) {
            proof {
                assert(v.deep_view()[i as int] == s@);
            }
            return true;
        }
        i = i + 1;
    }
    proof {
        if v.deep_view().contains(s@) {
            let j = choose|j: int| 0 <= j < v.deep_view().len() && v.deep_view()[j]
                == s@;
            assert(false);
        }
    }
    false
}

} // verus!
