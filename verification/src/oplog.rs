//! The operation log.
//!
//! An append-only record of user operations, keyed by operation id. Entries
//! are immutable after insertion and unique per operation id; the read side
//! offers lookup by id and a paginated reverse-chronological scan. Metadata
//! is stored as opaque canonical bytes and never interpreted.

use vstd::prelude::*;
use crate::errors::ClientError;
use crate::ids::OperationId;
use crate::sm::clone_bytes;

verus! {

/// One operation log record.
pub struct OperationLogEntry {
    pub operation_id: OperationId,
    /// Kind of the operation, as named by the starting module.
    pub operation_type: String,
    /// Opaque canonically-serialized metadata.
    pub meta: Vec<u8>,
    /// Creation time, in milliseconds.
    pub created_at: u64,
}

/// Mathematical value of an [`OperationLogEntry`].
#[verifier::ext_equal]
pub ghost struct OperationLogEntryV {
    pub operation_id: OperationId,
    pub operation_type: Seq<char>,
    pub meta: Seq<u8>,
    pub created_at: u64,
}

impl View for OperationLogEntry {
    type V = OperationLogEntryV;

    open spec fn view(&self) -> OperationLogEntryV {
        OperationLogEntryV {
            operation_id: self.operation_id,
            operation_type: self.operation_type@,
            meta: self.meta@,
            created_at: self.created_at,
        }
    }
}

/// Copies one log entry.
pub fn clone_log_entry(e: &OperationLogEntry) -> (r: OperationLogEntry)
    ensures
        r@ == e@,
{
    let r = OperationLogEntry {
        operation_id: e.operation_id,
        operation_type: e.operation_type.clone(),
        meta: clone_bytes(&e.meta),
        created_at: e.created_at,
    };
    proof {
        assert(r@ =~= e@);
    }
    r
}

/// The append-only operation log, oldest entry first.
pub struct OperationLog {
    pub entries: Vec<OperationLogEntry>,
}

impl OperationLog {
    /// Values of the entries, oldest first.
    pub open spec fn entries_v(&self) -> Seq<OperationLogEntryV> {
        self.entries@.map_values(|e: OperationLogEntry| e@)
    }

    /// Well-formedness: one entry per operation id.
    pub open spec fn wf(&self) -> bool {
        forall|i: int, j: int|
            0 <= i < j < self.entries_v().len() ==> (#[trigger] self.entries_v()[i]).operation_id
                != (#[trigger] self.entries_v()[j]).operation_id
    }

    /// Whether the log holds an entry for the operation.
    pub open spec fn contains_op(&self, op: OperationId) -> bool {
        exists|i: int|
            0 <= i < self.entries_v().len() && (#[trigger] self.entries_v()[i]).operation_id == op
    }

    /// An empty log.
    pub fn new() -> (r: OperationLog)
        ensures
            r.wf(),
            r.entries_v() == Seq::<OperationLogEntryV>::empty(),
    {
        let r = OperationLog { entries: Vec::new() };
        proof {
            assert(r.entries_v() =~= Seq::<OperationLogEntryV>::empty());
        }
        r
    }

    /// Hydrates the log from persisted entries.
    pub fn from_entries(entries: Vec<OperationLogEntry>) -> (r: OperationLog)
        requires
            forall|i: int, j: int|
                0 <= i < j < entries@.len() ==> (#[trigger] entries@[i]@).operation_id != (
                #[trigger] entries@[j]@).operation_id,
        ensures
            r.wf(),
            r.entries_v() == entries@.map_values(|e: OperationLogEntry| e@),
    {
        let r = OperationLog { entries };
        r
    }

    /// Appends one entry under a unique operation id; an id already present
    /// is rejected and the log is unchanged.
    pub fn add_operation_log_entry(
        &mut self,
        operation_id: OperationId,
        operation_type: String,
        meta: Vec<u8>,
        created_at: u64,
    ) -> (r: Result<(), ClientError>)
        requires
            old(self).wf(),
        ensures
            final(self).wf(),
            r is Err <==> old(self).contains_op(operation_id),
            r is Err ==> r == Err::<(), ClientError>(ClientError::DuplicateOperation)
                && *final(self) == *old(self),
            r is Ok ==> final(self).entries_v() == old(self).entries_v().push(
                OperationLogEntryV {
                    operation_id,
                    operation_type: operation_type@,
                    meta: meta@,
                    created_at,
                },
            ),
    {
        let mut i: usize = 0;
        while i < self.entries.len()
            invariant
                old(self).wf(),
                *self == *old(self),
                0 <= i <= self.entries@.len(),
                forall|j: int|
                    0 <= j < i ==> (#[trigger] self.entries_v()[j]).operation_id != operation_id,
            decreases self.entries@.len() - i,
        {
            if self.entries[i].operation_id == operation_id {
                proof {
                    assert(self.entries_v()[i as int].operation_id == operation_id);
                    assert(self.entries_v() == old(self).entries_v());
                }
                return Err(ClientError::DuplicateOperation);
            }
            i = i + 1;
        }
        let ghost prev = self.entries@;
        let entry = OperationLogEntry { operation_id, operation_type, meta, created_at };
        let ghost entry_v = entry@;
        self.entries.push(entry);
        proof {
            assert forall|k: int| 0 <= k < self.entries@.len() implies self.entries_v()[k] == prev
                .map_values(|e: OperationLogEntry| e@).push(entry_v)[k] by {
                assert(self.entries_v()[k] == self.entries@[k]@);
                if k < prev.len() {
                    assert(prev.map_values(|e: OperationLogEntry| e@)[k] == prev[k]@);
                }
            }
            assert(self.entries_v() =~= old(self).entries_v().push(entry_v));
            assert(entry_v =~= (OperationLogEntryV {
                operation_id,
                operation_type: entry_v.operation_type,
                meta: entry_v.meta,
                created_at,
            }));
        }
        Ok(())
    }

    /// Looks an operation up by id.
    pub fn get_operation(&self, operation_id: OperationId) -> (r: Option<&OperationLogEntry>)
        ensures
            r is Some <==> self.contains_op(operation_id),
            r matches Some(e) ==> self.entries_v().contains(e@) && e@.operation_id == operation_id,
    {
        let mut i: usize = 0;
        while i < self.entries.len()
            invariant
                0 <= i <= self.entries@.len(),
                forall|j: int|
                    0 <= j < i ==> (#[trigger] self.entries_v()[j]).operation_id != operation_id,
            decreases self.entries@.len() - i,
        {
            if self.entries[i].operation_id == operation_id {
                proof {
                    assert(self.entries_v()[i as int].operation_id == operation_id);
                    assert(self.entries_v()[i as int] == self.entries@[i as int]@);
                }
                return Some(&self.entries[i]);
            }
            i = i + 1;
        }
        None
    }

    /// One page of the reverse-chronological scan: up to `limit` entries,
    /// newest first, strictly older than `last_seen` if given; from the
    /// newest entry otherwise.
    pub fn list_operations(&self, limit: usize, last_seen: Option<OperationId>) -> (r: Vec<
        OperationLogEntry,
    >)
        requires
            self.wf(),
        ensures
            r@.len() <= limit,
            forall|k: int|
                0 <= k < r@.len() ==> #[trigger] r@[k]@ == self.entries_v()[self.page_start(
                    last_seen,
                ) - 1 - k],
            r@.len() == vstd::math::min(limit as int, self.page_start(last_seen)),
    {
        let start: usize = match last_seen {
            None => self.entries.len(),
            Some(op) => {
                let mut idx: usize = self.entries.len();
                let mut i: usize = 0;
                while i < self.entries.len()
                    invariant
                        self.wf(),
                        last_seen == Some(op),
                        0 <= i <= self.entries@.len(),
                        idx == self.entries@.len() || (0 <= idx < i && self.entries_v()[
                            idx as int
                        ].operation_id == op),
                        idx == self.entries@.len() ==> forall|j: int|
                            0 <= j < i ==> (#[trigger] self.entries_v()[j]).operation_id != op,
                    decreases self.entries@.len() - i,
                {
                    if idx == self.entries.len() && self.entries[i].operation_id == op {
                        proof {
                            assert(self.entries_v()[i as int].operation_id == op);
                        }
                        idx = i;
                    }
                    i = i + 1;
                }
                proof {
                    if idx < self.entries@.len() {
                        assert(self.page_start(last_seen) == idx as int);
                    } else {
                        assert(!self.contains_op(op));
                        assert(self.page_start(last_seen) == self.entries_v().len() as int);
                    }
                }
                idx
            },
        };
        let mut out: Vec<OperationLogEntry> = Vec::new();
        let mut k: usize = 0;
        while k < limit && k < start
            invariant
                self.wf(),
                0 <= k <= start <= self.entries@.len(),
                k <= limit,
                start == self.page_start(last_seen),
                out@.len() == k,
                forall|j: int|
                    0 <= j < k ==> #[trigger] out@[j]@ == self.entries_v()[start - 1 - j],
            decreases start - k,
        {
            let e = clone_log_entry(&self.entries[start - 1 - k]);
            proof {
                assert(self.entries_v()[start - 1 - k as int] == self.entries@[start - 1 - k
                    as int]@);
            }
            out.push(e);
            k = k + 1;
        }
        out
    }

    /// Where the requested page ends (exclusive): the index of `last_seen`
    /// when the log holds it, the end of the log otherwise.
    pub open spec fn page_start(&self, last_seen: Option<OperationId>) -> int {
        match last_seen {
            None => self.entries_v().len() as int,
            Some(op) => if self.contains_op(op) {
                choose|i: int|
                    0 <= i < self.entries_v().len() && (#[trigger] self.entries_v()[i]).operation_id
                        == op
            } else {
                self.entries_v().len() as int
            },
        }
    }
}

} // verus!
