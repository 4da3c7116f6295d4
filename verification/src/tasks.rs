//! The tasks created through this node's REST API: the id a task's
//! manifest gets, the records kept per task, the operation each manifest
//! was last submitted under, and what the task endpoints answer. Times are
//! milliseconds since the epoch; HTTP and the network are the caller's
//! part.
use vstd::prelude::*;

use crate::assoc::{
    keys_distinct, lemma_push, lemma_to_map_dom, lemma_to_map_value, lemma_update, to_map,
};
use crate::digest::{hash_bytes, hash_str, spec_hash_bytes, spec_hash_str};
use crate::text::{hex_min_chars, lemma_hex_min_len, str_eq, u64_to_hex_min};

verus! {

/// The smallest hash whose hexadecimal form has sixteen digits.
pub const SIXTEEN_HEX_DIGITS: u64 = 0x1000_0000_0000_0000;

/// The hash a task's manifest id is taken from: that of the manifest's
/// name when it has one, else that of its bytes.
pub open spec fn task_hash(name: Option<Seq<char>>, payload: Seq<u8>) -> u64 {
    match name {
        Some(n) => spec_hash_str(n),
        None => spec_hash_bytes(payload),
    }
}

/// The manifest id taken from a hash: the first sixteen digits of its
/// hexadecimal form.
pub open spec fn id_of_hash(h: u64) -> Seq<char> {
    hex_min_chars(h as nat).subrange(0, 16)
}

/// The first sixteen hexadecimal digits of a hash that has at least
/// sixteen.
pub fn manifest_id_of_hash(h: u64) -> (id: String)
    requires
        h >= SIXTEEN_HEX_DIGITS,
    ensures
        id@ == id_of_hash(h),
{
    let hex = u64_to_hex_min(h);
    proof {
        lemma_hex_min_len(h as nat);
    }
    hex.as_str().substring_char(0, 16).to_owned()
}

/// The manifest id of a task created without one: the first sixteen
/// hexadecimal digits of the hash of the manifest's name (or of its bytes
/// when it has none). A hash with fewer digits gives none.
pub fn task_manifest_id(name: Option<&str>, payload: &[u8]) -> (r: Option<String>)
    ensures
        ({
            let h = task_hash(
                match name {
                    Some(n) => Some(n@),
                    None => None,
                },
                payload@,
            );
            if h >= SIXTEEN_HEX_DIGITS {
                r matches Some(id) && id@ == id_of_hash(h)
            } else {
                r is None
            }
        }),
{
    let h = match name {
        Some(n) => hash_str(n),
        None => hash_bytes(payload),
    };
    if h >= SIXTEEN_HEX_DIGITS {
        Some(manifest_id_of_hash(h))
    } else {
        None
    }
}

/// The (manifest id, operation id) of a task to create from the request's
/// parameters: a given manifest id is used with the given operation id (or
/// `fresh_operation_id`); otherwise the manifest id is derived from the
/// manifest, as [`task_manifest_id`] does (none when that gives none).
pub fn task_ids(
    manifest_id: Option<&str>,
    operation_id: Option<&str>,
    fresh_operation_id: &str,
    name: Option<&str>,
    payload: &[u8],
) -> (r: Option<(String, String)>)
    ensures
        ({
            let op = match operation_id {
                Some(o) => o@,
                None => fresh_operation_id@,
            };
            let h = task_hash(
                match name {
                    Some(n) => Some(n@),
                    None => None,
                },
                payload@,
            );
            match manifest_id {
                Some(m) => r matches Some((a, b)) && a@ == m@ && b@ == op,
                None => if h >= SIXTEEN_HEX_DIGITS {
                    r matches Some((a, b)) && a@ == id_of_hash(h) && b@ == op
                } else {
                    r is None
                },
            }
        }),
{
    let op = match operation_id {
        Some(o) => o.to_owned(),
        None => fresh_operation_id.to_owned(),
    };
    match manifest_id {
        Some(m) => Some((m.to_owned(), op)),
        None => match task_manifest_id(name, payload) {
            Some(id) => Some((id, op)),
            None => None,
        },
    }
}

/// What is kept of a task.
#[derive(Debug, Clone)]
pub struct TaskRecord {
    pub manifest_bytes: Vec<u8>,
    pub created_at: u64,
    pub assigned_peers: Option<Vec<String>>,
    pub manifest_cid: Option<String>,
    pub last_operation_id: Option<String>,
    pub owner_pubkey: Vec<u8>,
}

/// A task record as values.
pub struct TaskView {
    pub manifest_bytes: Seq<u8>,
    pub created_at: u64,
    pub assigned_peers: Option<Seq<Seq<char>>>,
    pub manifest_cid: Option<Seq<char>>,
    pub last_operation_id: Option<Seq<char>>,
    pub owner_pubkey: Seq<u8>,
}

pub open spec fn opt_text(o: Option<String>) -> Option<Seq<char>> {
    match o {
        Some(s) => Some(s@),
        None => None,
    }
}

impl View for TaskRecord {
    type V = TaskView;

    open spec fn view(&self) -> TaskView {
        TaskView {
            manifest_bytes: self.manifest_bytes@,
            created_at: self.created_at,
            assigned_peers: match self.assigned_peers {
                Some(v) => Some(v@.map_values(|s: String| s@)),
                None => None,
            },
            manifest_cid: opt_text(self.manifest_cid),
            last_operation_id: opt_text(self.last_operation_id),
            owner_pubkey: self.owner_pubkey@,
        }
    }
}

/// The tasks by task id, and the manifest id each operation id was last
/// given.
pub struct TaskStore {
    tasks: Vec<(String, TaskRecord)>,
    operations: Vec<(String, String)>,
}

/// The manifest id a task's endpoint gives: the one its last operation was
/// given, else the one recorded with the task.
pub open spec fn task_manifest_of(
    tasks: Map<Seq<char>, TaskView>,
    operations: Map<Seq<char>, Seq<char>>,
    task_id: Seq<char>,
) -> Option<Seq<char>> {
    if !tasks.contains_key(task_id) {
        None
    } else {
        match tasks[task_id].last_operation_id {
            None => None,
            Some(op) => if operations.contains_key(op) {
                Some(operations[op])
            } else {
                tasks[task_id].manifest_cid
            },
        }
    }
}

impl TaskStore {
    pub closed spec fn task_pairs(&self) -> Seq<(Seq<char>, TaskView)> {
        self.tasks@.map_values(|e: (String, TaskRecord)| (e.0@, e.1@))
    }

    pub closed spec fn operation_pairs(&self) -> Seq<(Seq<char>, Seq<char>)> {
        self.operations@.map_values(|e: (String, String)| (e.0@, e.1@))
    }

    /// The tasks, by task id.
    pub closed spec fn tasks(&self) -> Map<Seq<char>, TaskView> {
        to_map(self.task_pairs())
    }

    /// The manifest id of each operation id.
    pub closed spec fn operations(&self) -> Map<Seq<char>, Seq<char>> {
        to_map(self.operation_pairs())
    }

    /// Task ids and operation ids each occur once.
    pub closed spec fn wf(&self) -> bool {
        keys_distinct(self.task_pairs()) && keys_distinct(self.operation_pairs())
    }

    /// No tasks.
    pub fn new() -> (s: Self)
        ensures
            s.wf(),
            s.tasks() == Map::<Seq<char>, TaskView>::empty(),
            s.operations() == Map::<Seq<char>, Seq<char>>::empty(),
    {
        let s = TaskStore { tasks: Vec::new(), operations: Vec::new() };
        assert(s.task_pairs() =~= Seq::<(Seq<char>, TaskView)>::empty());
        assert(s.operation_pairs() =~= Seq::<(Seq<char>, Seq<char>)>::empty());
        assert(s.tasks() =~= Map::<Seq<char>, TaskView>::empty());
        assert(s.operations() =~= Map::<Seq<char>, Seq<char>>::empty());
        s
    }

    fn find_task(&self, task_id: &str) -> (r: Option<usize>)
        requires
            self.wf(),
        ensures
            match r {
                Some(i) => i < self.tasks@.len() && self.task_pairs()[i as int].0 == task_id@
                    && self.tasks().contains_key(task_id@) && self.tasks()[task_id@]
                    == self.task_pairs()[i as int].1,
                None => !self.tasks().contains_key(task_id@),
            },
    {
        let mut i: usize = 0;
        while i < self.tasks.len()
            invariant
                self.wf(),
                i <= self.tasks@.len(),
                forall|j: int| 0 <= j < i ==> self.task_pairs()[j].0 != task_id@,
            decreases self.tasks@.len() - i,
        {
            if str_eq(self.tasks[i].0.as_str(), task_id) {
                proof {
                    lemma_to_map_value(self.task_pairs(), i as int);
                }
                return Some(i);
            }
            i = i + 1;
        }
        proof {
            lemma_to_map_dom(self.task_pairs(), task_id@);
        }
        None
    }

    fn find_operation(&self, operation_id: &str) -> (r: Option<usize>)
        requires
            self.wf(),
        ensures
            match r {
                Some(i) => i < self.operations@.len() && self.operation_pairs()[i as int].0
                    == operation_id@ && self.operations().contains_key(operation_id@)
                    && self.operations()[operation_id@] == self.operation_pairs()[i as int].1,
                None => !self.operations().contains_key(operation_id@),
            },
    {
        let mut i: usize = 0;
        while i < self.operations.len()
            invariant
                self.wf(),
                i <= self.operations@.len(),
                forall|j: int| 0 <= j < i ==> self.operation_pairs()[j].0 != operation_id@,
            decreases self.operations@.len() - i,
        {
            if str_eq(self.operations[i].0.as_str(), operation_id) {
                proof {
                    lemma_to_map_value(self.operation_pairs(), i as int);
                }
                return Some(i);
            }
            i = i + 1;
        }
        proof {
            lemma_to_map_dom(self.operation_pairs(), operation_id@);
        }
        None
    }

    /// Record that operation `operation_id` was given manifest id
    /// `manifest_cid` (replacing an earlier one).
    pub fn store_operation_manifest_mapping(&mut self, operation_id: &str, manifest_cid: &str)
        requires
            old(self).wf(),
        ensures
            final(self).wf(),
            final(self).tasks() == old(self).tasks(),
            final(self).operations() == old(self).operations().insert(operation_id@, manifest_cid@),
    {
        let ghost old_ops = self.operation_pairs();
        let ghost old_tasks = self.task_pairs();
        match self.find_operation(operation_id) {
            Some(i) => {
                self.operations.set(i, (operation_id.to_owned(), manifest_cid.to_owned()));
                proof {
                    assert(self.operation_pairs() =~= old_ops.update(
                        i as int,
                        (old_ops[i as int].0, manifest_cid@),
                    ));
                    lemma_update(old_ops, i as int, manifest_cid@);
                }
            },
            None => {
                self.operations.push((operation_id.to_owned(), manifest_cid.to_owned()));
                proof {
                    assert(self.operation_pairs() =~= old_ops.push((operation_id@, manifest_cid@)));
                    lemma_push(old_ops, operation_id@, manifest_cid@);
                }
            },
        }
        assert(self.task_pairs() =~= old_tasks);
    }

    /// The manifest id operation `operation_id` was last given.
    pub fn get_manifest_cid_for_operation(&self, operation_id: &str) -> (r: Option<String>)
        requires
            self.wf(),
        ensures
            match r {
                Some(c) => self.operations().contains_key(operation_id@) && c@ == self.operations()[operation_id@],
                None => !self.operations().contains_key(operation_id@),
            },
    {
        match self.find_operation(operation_id) {
            Some(i) => Some(self.operations[i].1.clone()),
            None => None,
        }
    }

    /// Create the task `manifest_id` (a task is named by its manifest id)
    /// for operation `operation_id` at `now`, owned by `owner_pubkey`: its
    /// record replaces an earlier one, and the operation is given the
    /// manifest id.
    pub fn create_task(
        &mut self,
        manifest_id: &str,
        operation_id: &str,
        manifest_bytes: Vec<u8>,
        owner_pubkey: Vec<u8>,
        now: u64,
    )
        requires
            old(self).wf(),
        ensures
            final(self).wf(),
            final(self).tasks() == old(self).tasks().insert(
                manifest_id@,
                TaskView {
                    manifest_bytes: manifest_bytes@,
                    created_at: now,
                    assigned_peers: None,
                    manifest_cid: Some(manifest_id@),
                    last_operation_id: Some(operation_id@),
                    owner_pubkey: owner_pubkey@,
                },
            ),
            final(self).operations() == old(self).operations().insert(operation_id@, manifest_id@),
    {
        self.store_operation_manifest_mapping(operation_id, manifest_id);
        let rec = TaskRecord {
            manifest_bytes,
            created_at: now,
            assigned_peers: None,
            manifest_cid: Some(manifest_id.to_owned()),
            last_operation_id: Some(operation_id.to_owned()),
            owner_pubkey,
        };
        let ghost rv = rec@;
        let ghost old_tasks = self.task_pairs();
        let ghost ops = self.operation_pairs();
        match self.find_task(manifest_id) {
            Some(i) => {
                self.tasks.set(i, (manifest_id.to_owned(), rec));
                proof {
                    assert(self.task_pairs() =~= old_tasks.update(i as int, (old_tasks[i as int].0, rv)));
                    lemma_update(old_tasks, i as int, rv);
                }
            },
            None => {
                self.tasks.push((manifest_id.to_owned(), rec));
                proof {
                    assert(self.task_pairs() =~= old_tasks.push((manifest_id@, rv)));
                    lemma_push(old_tasks, manifest_id@, rv);
                }
            },
        }
        assert(self.operation_pairs() =~= ops);
    }

    /// The record of task `task_id`.
    pub fn get_task(&self, task_id: &str) -> (r: Option<TaskRecord>)
        requires
            self.wf(),
        ensures
            match r {
                Some(t) => self.tasks().contains_key(task_id@) && t@ == self.tasks()[task_id@],
                None => !self.tasks().contains_key(task_id@),
            },
    {
        match self.find_task(task_id) {
            Some(i) => {
                let t = &self.tasks[i].1;
                let copy = TaskRecord {
                    manifest_bytes: t.manifest_bytes.clone(),
                    created_at: t.created_at,
                    assigned_peers: match &t.assigned_peers {
                        Some(v) => Some(v.clone()),
                        None => None,
                    },
                    manifest_cid: match &t.manifest_cid {
                        Some(c) => Some(c.clone()),
                        None => None,
                    },
                    last_operation_id: match &t.last_operation_id {
                        Some(o) => Some(o.clone()),
                        None => None,
                    },
                    owner_pubkey: t.owner_pubkey.clone(),
                };
                proof {
                    assert(copy.manifest_bytes@ =~= t.manifest_bytes@);
                    assert(copy.owner_pubkey@ =~= t.owner_pubkey@);
                    if let Some(v) = &t.assigned_peers {
                        assert(copy.assigned_peers.unwrap()@.map_values(|s: String| s@) =~= v@.map_values(
                            |s: String| s@,
                        ));
                    }
                }
                Some(copy)
            },
            None => None,
        }
    }

    /// The manifest id the task endpoint gives for `task_id`: the one its
    /// last operation was given, else the one recorded with the task; none
    /// for an unknown task or one without an operation.
    pub fn get_task_manifest_id(&self, task_id: &str) -> (r: Option<String>)
        requires
            self.wf(),
        ensures
            match r {
                Some(m) => task_manifest_of(self.tasks(), self.operations(), task_id@) == Some(m@),
                None => task_manifest_of(self.tasks(), self.operations(), task_id@) is None,
            },
    {
        let i = match self.find_task(task_id) {
            Some(i) => i,
            None => return None,
        };
        let op = match &self.tasks[i].1.last_operation_id {
            Some(o) => o,
            None => return None,
        };
        match self.get_manifest_cid_for_operation(op.as_str()) {
            Some(c) => Some(c),
            None => match &self.tasks[i].1.manifest_cid {
                Some(c) => Some(c.clone()),
                None => None,
            },
        }
    }
}

/// What the status endpoint answers for a task: (task id, state, assigned
/// peers, manifest id). A known task is `Pending`; an unknown one is an
/// `Error` with empty fields.
pub fn task_status(task_id: &str, task: Option<&TaskRecord>) -> (r: (String, String, Vec<String>, Option<String>))
    ensures
        match task {
            Some(t) => r.0@ == task_id@ && r.1@ == "Pending"@ && r.2@.map_values(|s: String| s@)
                == match t@.assigned_peers {
                Some(p) => p,
                None => Seq::empty(),
            } && opt_text(r.3) == t@.manifest_cid,
            None => r.0@.len() == 0 && r.1@ == "Error"@ && r.2@.len() == 0 && r.3 is None,
        },
{
    match task {
        Some(t) => {
            let assigned = match &t.assigned_peers {
                Some(v) => v.clone(),
                None => Vec::new(),
            };
            proof {
                if let Some(v) = &t.assigned_peers {
                    assert(assigned@.map_values(|s: String| s@) =~= v@.map_values(|s: String| s@));
                } else {
                    assert(assigned@.map_values(|s: String| s@) =~= Seq::<Seq<char>>::empty());
                }
            }
            let cid = match &t.manifest_cid {
                Some(c) => Some(c.clone()),
                None => None,
            };
            (task_id.to_owned(), String::from_str("Pending"), assigned, cid)
        },
        None => {
            proof {
                reveal_strlit("");
            }
            (String::new(), String::from_str("Error"), Vec::new(), None)
        },
    }
}

/// A task just created answers with its manifest id, and its status is
/// pending with no peers assigned yet.
pub proof fn lemma_created_task_is_found(
    tasks: Map<Seq<char>, TaskView>,
    operations: Map<Seq<char>, Seq<char>>,
    manifest_id: Seq<char>,
    operation_id: Seq<char>,
    rec: TaskView,
)
    requires
        rec.manifest_cid == Some(manifest_id),
        rec.last_operation_id == Some(operation_id),
    ensures
        task_manifest_of(
            tasks.insert(manifest_id, rec),
            operations.insert(operation_id, manifest_id),
            manifest_id,
        ) == Some(manifest_id),
{
}

/// The answer to a request forwarded to a peer with apply-direct: (ok,
/// operation id, message) from the peer id's parse error, the failure to
/// hand it to the network task, or the peer's answer (none on timeout).
pub enum DirectApplyOutcome {
    InvalidPeer(String),
    NotForwarded,
    Answered(Result<String, String>),
    TimedOut,
}

/// The answer of apply-direct for an outcome.
pub fn apply_direct_response(outcome: DirectApplyOutcome) -> (r: (bool, String, String))
    ensures
        match outcome {
            DirectApplyOutcome::InvalidPeer(e) => !r.0 && r.1@ == "unknown"@ && r.2@ == "Invalid peer ID: "@ + e@,
            DirectApplyOutcome::NotForwarded => !r.0 && r.1@ == "unknown"@ && r.2@
                == "Failed to forward request to libp2p"@,
            DirectApplyOutcome::Answered(Ok(_)) => r.0 && r.1@ == "forwarded"@ && r.2@
                == "Request forwarded successfully"@,
            DirectApplyOutcome::Answered(Err(e)) => !r.0 && r.1@ == "forwarded"@ && r.2@
                == "Forward failed: "@ + e@,
            DirectApplyOutcome::TimedOut => !r.0 && r.1@ == "forwarded"@ && r.2@
                == "Timeout waiting for peer response"@,
        },
{
    match outcome {
        DirectApplyOutcome::InvalidPeer(e) => (
            false,
            String::from_str("unknown"),
            String::from_str("Invalid peer ID: ").concat(e.as_str()),
        ),
        DirectApplyOutcome::NotForwarded => (
            false,
            String::from_str("unknown"),
            String::from_str("Failed to forward request to libp2p"),
        ),
        DirectApplyOutcome::Answered(Ok(_)) => (
            true,
            String::from_str("forwarded"),
            String::from_str("Request forwarded successfully"),
        ),
        DirectApplyOutcome::Answered(Err(e)) => (
            false,
            String::from_str("forwarded"),
            String::from_str("Forward failed: ").concat(e.as_str()),
        ),
        DirectApplyOutcome::TimedOut => (
            false,
            String::from_str("forwarded"),
            String::from_str("Timeout waiting for peer response"),
        ),
    }
}

/// The result of a delete request sent to a peer, from the peer's answer:
/// none when the answer channel closed, and a timeout when no answer came.
pub fn peer_delete_result(answer: Option<Option<Result<String, String>>>) -> (r: Result<String, String>)
    ensures
        match answer {
            Some(Some(Ok(m))) => r matches Ok(x) && x@ == m@,
            Some(Some(Err(e))) => r matches Err(x) && x@ == e@,
            Some(None) => r matches Err(x) && x@ == "Reply channel closed"@,
            None => r matches Err(x) && x@ == "Request timed out"@,
        },
{
    match answer {
        Some(Some(Ok(m))) => Ok(m),
        Some(Some(Err(e))) => Err(e),
        Some(None) => Err(String::from_str("Reply channel closed")),
        None => Err(String::from_str("Request timed out")),
    }
}

} // verus!
