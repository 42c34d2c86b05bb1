//! The stages of a conversion job and the events it reports.
use crate::document::Document;
use crate::error::{error_message, Error};
use crate::text::from_str;
use std::time::Instant;
use tokio::sync::mpsc::UnboundedSender;
use vstd::prelude::*;

verus! {

#[derive(Clone, Copy, Debug, PartialEq, Eq, Structural)]
pub enum PipelineStage {
    Idle,
    LoadingPdf,
    LayoutAnalysis,
    Ocr,
    RunningProcessors,
    Rendering,
    Completed,
    Failed,
}

/// Progress of a job; `elapsed_ms` is the time since the job began, in
/// milliseconds.
#[derive(Clone, Debug)]
pub struct JobProgress {
    pub job_id: String,
    pub stage: PipelineStage,
    pub current_page: usize,
    pub total_pages: usize,
    pub elapsed_ms: u64,
}

pub struct JobProgressV {
    pub job_id: Seq<char>,
    pub stage: PipelineStage,
    pub current_page: usize,
    pub total_pages: usize,
    pub elapsed_ms: u64,
}

impl View for JobProgress {
    type V = JobProgressV;

    open spec fn view(&self) -> JobProgressV {
        JobProgressV {
            job_id: self.job_id@,
            stage: self.stage,
            current_page: self.current_page,
            total_pages: self.total_pages,
            elapsed_ms: self.elapsed_ms,
        }
    }
}

#[derive(Clone, Debug)]
pub enum JobEvent {
    Started { job_id: String },
    Progress(JobProgress),
    Finished { job_id: String, markdown: String, document: Document },
    Failed { job_id: String, error: String },
}

/// The event that ends a job: `Finished` with the Markdown and the document
/// when the conversion succeeded, `Failed` with the error's message when
/// it did not.
pub fn outcome_event(job_id: String, outcome: Result<(String, Document), Error>) -> (e: JobEvent)
    ensures
        match outcome {
            Ok((md, d)) => e matches JobEvent::Finished { job_id: j, markdown, document } && j@
                == job_id@ && markdown@ == md@ && document@ == d@,
            Err(err) => e matches JobEvent::Failed { job_id: j, error } && j@ == job_id@ && error@
                == error_message(err),
        },
{
    match outcome {
        Ok((markdown, document)) => JobEvent::Finished { job_id, markdown, document },
        Err(e) => JobEvent::Failed { job_id, error: e.message() },
    }
}

#[verifier::external_type_specification]
#[verifier::external_body]
#[verifier::reject_recursive_types(T)]
pub struct ExUnboundedSender<T>(UnboundedSender<T>);

#[verifier::external_type_specification]
#[verifier::external_body]
pub struct ExInstant(Instant);

/// `tokio::sync::mpsc::UnboundedSender::send`: hands the event to the
/// channel; it fails only when the receiving end is gone, and the event is
/// then dropped. Nothing is stated of which happened.
#[verifier::external_body]
fn send_event(sender: &UnboundedSender<JobEvent>, event: JobEvent) {
    let _ = sender.send(event);
}

/// `Instant::now`: the clock's reading. Nothing is stated of it.
#[verifier::external_body]
fn clock_now() -> Instant {
    Instant::now()
}

/// `Instant::elapsed`, in whole milliseconds. Nothing is stated of it.
#[verifier::external_body]
fn millis_since(start: &Instant) -> u128 {
    start.elapsed().as_millis()
}

/// Reports a job's progress: each report is sent, as a `Progress` event
/// with the job's id and the time since the reporter was made, on the
/// job's channel when it has one. `reports` is the reports made so far.
pub struct ProgressReporter {
    job_id: String,
    sender: Option<UnboundedSender<JobEvent>>,
    started: Instant,
    made: Ghost<Seq<JobProgressV>>,
}

impl ProgressReporter {
    /// The reports made so far, in order.
    pub closed spec fn reports(&self) -> Seq<JobProgressV> {
        self.made@
    }

    /// The id of the job whose progress is reported.
    pub closed spec fn job_id(&self) -> Seq<char> {
        self.job_id@
    }

    /// Whether the reports are sent on a channel.
    pub closed spec fn has_channel(&self) -> bool {
        self.sender is Some
    }

    /// A reporter for the job, timed from now.
    pub fn new(job_id: String, sender: Option<UnboundedSender<JobEvent>>) -> (r: ProgressReporter)
        ensures
            r.reports() == Seq::<JobProgressV>::empty(),
            r.job_id() == job_id@,
            r.has_channel() == sender is Some,
    {
        ProgressReporter { job_id, sender, started: clock_now(), made: Ghost(Seq::empty()) }
    }

    /// Reports that the job is at `stage`, on page `current_page` of
    /// `total_pages`.
    pub fn report(&mut self, stage: PipelineStage, current_page: usize, total_pages: usize)
        ensures
            final(self).job_id() == old(self).job_id(),
            final(self).has_channel() == old(self).has_channel(),
            final(self).reports().drop_last() == old(self).reports(),
            final(self).reports().len() == old(self).reports().len() + 1,
            final(self).reports().last().job_id == old(self).job_id(),
            final(self).reports().last().stage == stage,
            final(self).reports().last().current_page == current_page,
            final(self).reports().last().total_pages == total_pages,
    {
        let ms = millis_since(&self.started);
        let elapsed_ms: u64 = if ms > 0xFFFF_FFFF_FFFF_FFFF {
            0xFFFF_FFFF_FFFF_FFFF
        } else {
            ms as u64
        };
        let progress = JobProgress {
            job_id: from_str(self.job_id.as_str()),
            stage,
            current_page,
            total_pages,
            elapsed_ms,
        };
        let ghost pv = progress@;
        match &self.sender {
            Some(tx) => send_event(tx, JobEvent::Progress(progress)),
            None => {},
        }
        proof {
            self.made = Ghost(self.made@.push(pv));
        }
        assert(self.made@.drop_last() =~= old(self).made@);
    }
}

} // verus!
