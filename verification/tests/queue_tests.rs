//! The work queue model: order and at-most-once delivery.

use ive::job::{Job, Kind, Parameters};
use ive::media::{CutParameters, Video, VideoURI};
use ive::queue::JobQueue;

fn job(id: &str) -> Job {
    Job::new(
        Kind::Processing,
        Some(Video::new(
            VideoURI::Url("https://example.net/v.mp4".to_owned()),
            Some(id.to_owned()),
            "v.mp4".to_owned(),
        )),
        Parameters::Cut(CutParameters { start: None, end: None }),
    )
}

fn id_of(j: &Job) -> String {
    j.video.as_ref().unwrap().id.clone()
}

#[test]
fn dequeue_order_equals_enqueue_order() {
    let mut q = JobQueue::new();
    assert_eq!(q.enqueue(job("a")), 1);
    assert_eq!(q.enqueue(job("b")), 2);
    assert_eq!(q.enqueue(job("c")), 3);
    assert_eq!(q.len(), 3);
    assert_eq!(id_of(&q.dequeue().unwrap()), "a");
    assert_eq!(id_of(&q.dequeue().unwrap()), "b");
    assert_eq!(id_of(&q.dequeue().unwrap()), "c");
    assert!(q.dequeue().is_none());
}

#[test]
fn one_job_is_delivered_at_most_once() {
    let mut q = JobQueue::new();
    q.enqueue(job("only"));
    let first = q.dequeue();
    let second = q.dequeue();
    assert_eq!(id_of(&first.unwrap()), "only");
    assert!(second.is_none());
}

#[test]
fn empty_queue_yields_nothing_and_is_no_error() {
    let mut q = JobQueue::new();
    assert!(q.dequeue().is_none());
    assert_eq!(q.len(), 0);
}
