//! The lifecycle status of a download task.

use vstd::prelude::*;
use crate::text::{chars_from, chars_of, owned, push_all, push_str_chars, starts_with_chars, string_from_chars};

verus! {

/// `Pending → Running (→ Retrying → Running …) → Done | Failed`.
#[derive(Debug)]
pub enum TaskStatus {
    Pending,
    Running,
    Retrying,
    Done,
    /// `reason` is a human-readable error string.
    Failed { reason: String },
}

impl TaskStatus {
    /// The task has reached a final state.
    pub open spec fn is_finished(self) -> bool {
        self is Done || self is Failed
    }

    /// The task is being worked on right now.
    pub open spec fn is_running(self) -> bool {
        self is Running
    }

    /// The task still has to run (or is running).
    pub open spec fn is_active(self) -> bool {
        !self.is_finished()
    }

    /// Whether the task has reached a final state (`Done` or `Failed`).
    pub fn has_finished(&self) -> (b: bool)
        ensures
            b == self.is_finished(),
    {
        match self {
            TaskStatus::Done => true,
            TaskStatus::Failed { .. } => true,
            _ => false,
        }
    }
}

/// The text a status is stored as: `pending`, `running`, `retrying`, `done`,
/// or `failed:` followed by the reason.
pub open spec fn status_text(s: TaskStatus) -> Seq<char> {
    match s {
        TaskStatus::Pending => "pending"@,
        TaskStatus::Running => "running"@,
        TaskStatus::Retrying => "retrying"@,
        TaskStatus::Done => "done"@,
        TaskStatus::Failed { reason } => "failed:"@ + reason@,
    }
}

/// `r` is the status that stored text `t` reads as: one of the four plain
/// words, `failed:` with the rest as the reason, or, for any other text, a
/// failure whose reason is `unknown status: ` followed by the text.
pub open spec fn status_read_as(t: Seq<char>, r: TaskStatus) -> bool {
    if t == "pending"@ {
        r is Pending
    } else if t == "running"@ {
        r is Running
    } else if t == "retrying"@ {
        r is Retrying
    } else if t == "done"@ {
        r is Done
    } else if "failed:"@.is_prefix_of(t) {
        r matches TaskStatus::Failed { reason } && reason@ == t.skip(7)
    } else {
        r matches TaskStatus::Failed { reason } && reason@ == "unknown status: "@ + t
    }
}

impl TaskStatus {
    /// The text stored for this status.
    pub fn to_db(&self) -> (r: String)
        ensures
            r@ == status_text(*self),
    {
        match self {
            TaskStatus::Pending => owned("pending"),
            TaskStatus::Running => owned("running"),
            TaskStatus::Retrying => owned("retrying"),
            TaskStatus::Done => owned("done"),
            TaskStatus::Failed { reason } => {
                let mut v: Vec<char> = Vec::new();
                push_str_chars(&mut v, "failed:");
                push_str_chars(&mut v, reason.as_str());
                string_from_chars(v.as_slice())
            },
        }
    }

    /// Reads a stored status text back; text that names no status reads as a
    /// failure that quotes it.
    pub fn from_db(s: &str) -> (r: TaskStatus)
        ensures
            status_read_as(s@, r),
    {
        let o = owned(s);
        if o == owned("pending") {
            TaskStatus::Pending
        } else if o == owned("running") {
            TaskStatus::Running
        } else if o == owned("retrying") {
            TaskStatus::Retrying
        } else if o == owned("done") {
            TaskStatus::Done
        } else {
            let v = chars_of(s);
            let p = chars_of("failed:");
            proof {
                reveal_strlit("failed:");
            }
            if starts_with_chars(&v, &p) {
                let rest = chars_from(&v, p.len());
                TaskStatus::Failed { reason: string_from_chars(rest.as_slice()) }
            } else {
                let mut m: Vec<char> = Vec::new();
                push_str_chars(&mut m, "unknown status: ");
                push_all(&mut m, &v);
                TaskStatus::Failed { reason: string_from_chars(m.as_slice()) }
            }
        }
    }
}

/// Two statuses are the same variant, with the same reason text for failures.
pub open spec fn same_status(a: TaskStatus, b: TaskStatus) -> bool {
    match (a, b) {
        (TaskStatus::Pending, TaskStatus::Pending) => true,
        (TaskStatus::Running, TaskStatus::Running) => true,
        (TaskStatus::Retrying, TaskStatus::Retrying) => true,
        (TaskStatus::Done, TaskStatus::Done) => true,
        (TaskStatus::Failed { reason: x }, TaskStatus::Failed { reason: y }) => x@ == y@,
        _ => false,
    }
}

/// Storing a status and reading it back gives the same status.
pub proof fn law_status_text_round_trip(s: TaskStatus, r: TaskStatus)
    requires
        status_read_as(status_text(s), r),
    ensures
        same_status(r, s),
{
    reveal_strlit("pending");
    reveal_strlit("running");
    reveal_strlit("retrying");
    reveal_strlit("done");
    reveal_strlit("failed:");
    assert("pending"@ != "running"@ && "pending"@ != "retrying"@ && "pending"@ != "done"@
        && "running"@ != "retrying"@ && "running"@ != "done"@ && "retrying"@ != "done"@) by {
        assert("pending"@[0] != "running"@[0]);
        assert("retrying"@[1] != "running"@[1]);
    }
    if let TaskStatus::Failed { reason } = s {
        let t = status_text(s);
        assert(t[0] == 'f');
        assert(t != "pending"@ && t != "running"@ && t != "retrying"@ && t != "done"@) by {
            assert("pending"@[0] == 'p');
            assert("running"@[0] == 'r');
            assert("retrying"@[0] == 'r');
            assert("done"@[0] == 'd');
        }
        assert("failed:"@.is_prefix_of(t)) by {
            assert(t.subrange(0, 7) =~= "failed:"@);
        }
        assert(t.skip(7) =~= reason@);
    }
}

impl Clone for TaskStatus {
    fn clone(&self) -> (r: Self)
        ensures
            r == *self,
    {
        match self {
            TaskStatus::Pending => TaskStatus::Pending,
            TaskStatus::Running => TaskStatus::Running,
            TaskStatus::Retrying => TaskStatus::Retrying,
            TaskStatus::Done => TaskStatus::Done,
            TaskStatus::Failed { reason } => TaskStatus::Failed { reason: reason.clone() },
        }
    }
}

impl PartialEq for TaskStatus {
    fn eq(&self, other: &Self) -> (r: bool) {
        match (self, other) {
            (TaskStatus::Pending, TaskStatus::Pending) => true,
            (TaskStatus::Running, TaskStatus::Running) => true,
            (TaskStatus::Retrying, TaskStatus::Retrying) => true,
            (TaskStatus::Done, TaskStatus::Done) => true,
            (TaskStatus::Failed { reason: a }, TaskStatus::Failed { reason: b }) => *a == *b,
            _ => false,
        }
    }
}

impl vstd::std_specs::cmp::PartialEqSpecImpl for TaskStatus {
    open spec fn obeys_eq_spec() -> bool {
        true
    }

    open spec fn eq_spec(&self, other: &Self) -> bool {
        same_status(*self, *other)
    }
}

} // verus!
