//! Per-query measurements and the sliding window of recent ones that anomaly
//! detection compares against.
use std::collections::VecDeque;
use vstd::prelude::*;

verus! {

#[verifier::external_type_specification]
#[verifier::external_body]
pub struct ExSystemTime(std::time::SystemTime);

/// What one query cost.
#[derive(Debug)]
pub struct QueryMetrics {
    pub execution_time: std::time::Duration,
    pub rows_affected: usize,
    pub timestamp: std::time::SystemTime,
}

/// The most recent query measurements, at most `window_size` of them (one when the
/// size is 0), oldest first.
pub struct MetricsWindow {
    window_size: usize,
    metrics_history: VecDeque<QueryMetrics>,
}

impl View for MetricsWindow {
    type V = Seq<QueryMetrics>;

    closed spec fn view(&self) -> Seq<QueryMetrics> {
        self.metrics_history@
    }
}

impl MetricsWindow {
    pub closed spec fn spec_window_size(&self) -> nat {
        self.window_size as nat
    }

    pub open spec fn wf(&self) -> bool {
        self@.len() <= self.spec_window_size() || self@.len() <= 1
    }

    pub fn new(window_size: usize) -> (r: MetricsWindow)
        ensures
            r.wf(),
            r@ == Seq::<QueryMetrics>::empty(),
            r.spec_window_size() == window_size,
    {
        MetricsWindow { window_size, metrics_history: VecDeque::with_capacity(window_size) }
    }

    pub fn window_size(&self) -> (r: usize)
        ensures
            r == self.spec_window_size(),
    {
        self.window_size
    }

    /// The measurements held, oldest first.
    pub fn history(&self) -> (r: &VecDeque<QueryMetrics>)
        ensures
            r@ == self@,
    {
        &self.metrics_history
    }

    /// Appends `metrics`, first dropping the oldest measurement when the window is full.
    pub fn record_metrics(&mut self, metrics: QueryMetrics)
        requires
            old(self).wf(),
        ensures
            final(self).wf(),
            final(self).spec_window_size() == old(self).spec_window_size(),
            final(self)@ == if old(self)@.len() >= old(self).spec_window_size() && old(
                self,
            )@.len() > 0 {
                old(self)@.drop_first().push(metrics)
            } else {
                old(self)@.push(metrics)
            },
    {
        if self.metrics_history.len() >= self.window_size {
            self.metrics_history.pop_front();
        }
        self.metrics_history.push_back(metrics);
    }
}

} // verus!
