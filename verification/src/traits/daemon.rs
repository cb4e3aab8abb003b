//! The common vocabulary of daemons: their life-cycle states, their
//! errors and their statistics.
use vstd::prelude::*;
use crate::text::{push_str, string_of};
use crate::util::{Keyed, key_get, key_in, keys_unique, get_key, put_key};

verus! {

/// Where a daemon is in its life.
#[derive(Clone, Copy, Debug, PartialEq, Eq, Structural)]
pub enum DaemonState {
    Uninitialized,
    Initializing,
    Running,
    Paused,
    ShuttingDown,
    Shutdown,
}

/// What can go wrong with a daemon.
#[derive(Debug)]
pub enum DaemonError {
    Uninitialized(String),
    AlreadyRunning(String),
    NotRunning(String),
    InitializationFailed(String),
    RuntimeError(String),
    ShutdownFailed(String),
}

/// How an error reads.
pub open spec fn daemon_error_text(e: DaemonError) -> Seq<char> {
    match e {
        DaemonError::Uninitialized(n) => "守护进程 "@ + n@ + " 未初始化"@,
        DaemonError::AlreadyRunning(n) => "守护进程 "@ + n@ + " 已在运行"@,
        DaemonError::NotRunning(n) => "守护进程 "@ + n@ + " 未运行"@,
        DaemonError::InitializationFailed(m) => "初始化失败: "@ + m@,
        DaemonError::RuntimeError(m) => "运行时错误: "@ + m@,
        DaemonError::ShutdownFailed(m) => "关闭失败: "@ + m@,
    }
}

impl DaemonError {
    /// How the error reads (see `daemon_error_text`).
    pub fn message(&self) -> (r: String)
        ensures
            r@ == daemon_error_text(*self),
    {
        let (head, body, tail) = match self {
            DaemonError::Uninitialized(n) => ("守护进程 ", n, " 未初始化"),
            DaemonError::AlreadyRunning(n) => ("守护进程 ", n, " 已在运行"),
            DaemonError::NotRunning(n) => ("守护进程 ", n, " 未运行"),
            DaemonError::InitializationFailed(m) => ("初始化失败: ", m, ""),
            DaemonError::RuntimeError(m) => ("运行时错误: ", m, ""),
            DaemonError::ShutdownFailed(m) => ("关闭失败: ", m, ""),
        };
        proof {
            reveal_strlit("");
        }
        let mut out = string_of(head);
        push_str(&mut out, body.as_str());
        push_str(&mut out, tail);
        assert(out@ =~= daemon_error_text(*self));
        out
    }
}

/// A named metric.
#[derive(Debug)]
pub struct Metric {
    pub key: String,
    pub value: String,
}

impl Keyed for Metric {
    open spec fn key_view(&self) -> Seq<char> {
        self.key@
    }

    fn key(&self) -> (r: &String) {
        &self.key
    }
}

/// A daemon's statistics and its own metrics, one per key.
#[derive(Debug)]
pub struct DaemonStats {
    pub uptime_seconds: u64,
    pub requests_processed: u64,
    pub error_count: u64,
    pub last_heartbeat: i64,
    pub custom_metrics: Vec<Metric>,
}

/// The value of metric `key`.
pub open spec fn metric_of(s: DaemonStats, key: Seq<char>) -> Option<Seq<char>> {
    match key_get(s.custom_metrics@, key) {
        Some(m) => Some(m.value@),
        None => None,
    }
}

impl Default for DaemonStats {
    fn default() -> (r: Self)
        ensures
            r.uptime_seconds == 0 && r.requests_processed == 0 && r.error_count == 0 && r.last_heartbeat == 0,
            r.custom_metrics@.len() == 0,
    {
        DaemonStats { uptime_seconds: 0, requests_processed: 0, error_count: 0, last_heartbeat: 0, custom_metrics: Vec::new() }
    }
}

impl DaemonStats {
    /// One metric per key.
    pub open spec fn wf(&self) -> bool {
        keys_unique(self.custom_metrics@)
    }

    /// Sets metric `key` to `value`.
    pub fn add_metric(&mut self, key: String, value: String)
        requires
            old(self).wf(),
        ensures
            final(self).wf(),
            metric_of(*final(self), key@) == Some(value@),
            forall|k: Seq<char>| k != key@ ==> #[trigger] metric_of(*final(self), k) == metric_of(*old(self), k),
            final(self).uptime_seconds == old(self).uptime_seconds && final(self).requests_processed == old(self).requests_processed,
            final(self).error_count == old(self).error_count && final(self).last_heartbeat == old(self).last_heartbeat,
    {
        let ghost o = *self;
        let ghost kv = key@;
        put_key(&mut self.custom_metrics, Metric { key, value });
        proof {
            assert forall|k: Seq<char>| k != kv implies #[trigger] metric_of(*self, k) == metric_of(o, k) by {
                assert(key_get(self.custom_metrics@, k) == key_get(o.custom_metrics@, k));
            }
        }
    }

    /// The value of metric `key`.
    pub fn get_metric(&self, key: &str) -> (r: Option<&String>)
        ensures
            r matches Some(v) ==> metric_of(*self, key@) == Some(v@),
            r is None <==> metric_of(*self, key@) is None,
    {
        match get_key(&self.custom_metrics, key) {
            Some(m) => Some(&m.value),
            None => None,
        }
    }
}

} // verus!
