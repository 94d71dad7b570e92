//! The operation log shown in the TUI: a bounded list of tagged messages.
use vstd::prelude::*;

verus! {

/// Kind of an operation log entry.
#[derive(Debug, Clone, Copy, PartialEq, Eq, Structural)]
pub enum LogType {
    Info,
    Warn,
    Error,
}

pub open spec fn log_type_name(t: LogType) -> Seq<char> {
    match t {
        LogType::Info => "Info"@,
        LogType::Warn => "Warn"@,
        LogType::Error => "Error"@,
    }
}

impl LogType {
    /// The tag shown before a message.
    pub fn as_str(&self) -> (r: &'static str)
        ensures
            r@ == log_type_name(*self),
    {
        match self {
            LogType::Info => "Info",
            LogType::Warn => "Warn",
            LogType::Error => "Error",
        }
    }
}

/// Most entries kept; older ones are dropped first.
pub const MAX_LOGS: usize = 500;

/// One log entry.
#[derive(Debug, Clone)]
pub struct OperationLog {
    pub log_type: LogType,
    pub msg: String,
}

pub open spec fn entry_view(e: OperationLog) -> (LogType, Seq<char>) {
    (e.log_type, e.msg@)
}

/// The log, oldest entry first, never longer than `MAX_LOGS`.
#[derive(Debug)]
pub struct OperationLogs {
    logs: Vec<OperationLog>,
}

/// The entries after appending `e` to `s`, keeping only the newest `MAX_LOGS`.
pub open spec fn appended(s: Seq<(LogType, Seq<char>)>, e: (LogType, Seq<char>)) -> Seq<(LogType, Seq<char>)> {
    let t = s.push(e);
    if t.len() > MAX_LOGS { t.skip(t.len() - MAX_LOGS) } else { t }
}

impl OperationLogs {
    pub closed spec fn view(&self) -> Seq<(LogType, Seq<char>)> {
        self.logs@.map_values(|e: OperationLog| entry_view(e))
    }

    #[verifier::type_invariant]
    spec fn wf(self) -> bool {
        self.logs@.len() <= MAX_LOGS
    }

    /// An empty log.
    pub fn new() -> (r: Self)
        ensures
            r.view() == Seq::<(LogType, Seq<char>)>::empty(),
    {
        let r = OperationLogs { logs: Vec::new() };
        proof {
            assert(r.view() =~= Seq::<(LogType, Seq<char>)>::empty());
        }
        r
    }

    pub fn len(&self) -> (n: usize)
        ensures
            n == self.view().len(),
            n <= MAX_LOGS,
    {
        proof {
            use_type_invariant(self);
        }
        self.logs.len()
    }

    pub fn is_empty(&self) -> (r: bool)
        ensures
            r == (self.view().len() == 0),
    {
        self.logs.len() == 0
    }

    /// The entry at position `i` (oldest first).
    pub fn get(&self, i: usize) -> (r: &OperationLog)
        requires
            i < self.view().len(),
        ensures
            entry_view(*r) == self.view()[i as int],
    {
        &self.logs[i]
    }

    /// Appends a message; when the log grows past `MAX_LOGS`, the oldest entries go.
    pub fn add_log(&mut self, log_type: LogType, msg: String)
        ensures
            final(self).view() == appended(old(self).view(), (log_type, msg@)),
    {
        proof {
            use_type_invariant(&*self);
        }
        let ghost before = self.view();
        let ghost m = msg@;
        let mut logs: Vec<OperationLog> = Vec::new();
        std::mem::swap(&mut logs, &mut self.logs);
        logs.push(OperationLog { log_type, msg });
        let ghost t = logs@.map_values(|e: OperationLog| entry_view(e));
        proof {
            assert(t =~= before.push((log_type, m)));
        }
        if logs.len() > MAX_LOGS {
            logs.remove(0);
            proof {
                assert(logs@.map_values(|e: OperationLog| entry_view(e)) =~= t.skip(1));
            }
        }
        self.logs = logs;
    }
}

impl Default for OperationLogs {
    fn default() -> (r: Self)
        ensures
            r.view() == Seq::<(LogType, Seq<char>)>::empty(),
    {
        OperationLogs::new()
    }
}

} // verus!
