//! Audit log of tool invocations: an append-only list, read back filtered
//! by thread.

use vstd::prelude::*;
use crate::strutil::str_eq;

verus! {

/// One recorded tool invocation. The timestamp is carried as text; the
/// arguments as their JSON text.
#[derive(Debug, Clone)]
pub struct LogEntry {
    pub when: String,
    pub thread_id: String,
    pub tool: String,
    pub args_json: String,
    pub ok: bool,
}

impl LogEntry {
    /// A field-for-field copy.
    pub fn clone_entry(&self) -> (r: LogEntry)
        ensures
            r == *self,
    {
        LogEntry {
            when: self.when.clone(),
            thread_id: self.thread_id.clone(),
            tool: self.tool.clone(),
            args_json: self.args_json.clone(),
            ok: self.ok,
        }
    }
}

/// The entries of a log that belong to one thread, in order.
pub open spec fn spec_thread_entries(entries: Seq<LogEntry>, thread_id: Seq<char>) -> Seq<LogEntry>
    decreases entries.len(),
{
    if entries.len() == 0 {
        Seq::empty()
    } else {
        let rest = spec_thread_entries(entries.drop_last(), thread_id);
        if entries.last().thread_id@ == thread_id {
            rest.push(entries.last())
        } else {
            rest
        }
    }
}

/// The audit log: append-only, owned by the process that records into it.
pub struct AuditLog {
    entries: Vec<LogEntry>,
}

impl AuditLog {
    /// The recorded entries, in recording order.
    pub closed spec fn spec_entries(&self) -> Seq<LogEntry> {
        self.entries@
    }

    /// An empty log.
    pub fn new() -> (r: Self)
        ensures
            r.spec_entries() == Seq::<LogEntry>::empty(),
    {
        AuditLog { entries: Vec::new() }
    }

    /// Append one invocation; nothing already recorded moves.
    pub fn record(&mut self, entry: LogEntry)
        ensures
            final(self).spec_entries() == old(self).spec_entries().push(entry),
    {
        self.entries.push(entry);
    }

    /// The recorded invocations of one thread, in recording order.
    pub fn get_audit_log(&self, thread_id: &str) -> (r: Vec<LogEntry>)
        ensures
            r@ == spec_thread_entries(self.spec_entries(), thread_id@),
    {
        let mut out: Vec<LogEntry> = Vec::new();
        let mut i: usize = 0;
        proof {
            assert(self.entries@.subrange(0, 0) =~= Seq::<LogEntry>::empty());
        }
        while i < self.entries.len()
            invariant
                i <= self.entries@.len(),
                out@ == spec_thread_entries(self.entries@.subrange(0, i as int), thread_id@),
            decreases self.entries@.len() - i,
        {
            proof {
                assert(self.entries@.subrange(0, i + 1).drop_last() =~= self.entries@.subrange(
                    0,
                    i as int,
                ));
                assert(self.entries@.subrange(0, i + 1).last() == self.entries@.index(i as int));
            }
            let e = &self.entries[i];
            if str_eq(e.thread_id.as_str(), thread_id) {
                out.push(e.clone_entry());
            }
            i = i + 1;
        }
        proof {
            assert(self.entries@.subrange(0, self.entries@.len() as int) =~= self.entries@);
        }
        out
    }
}

} // verus!
