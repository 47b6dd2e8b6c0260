use exhentai::error::ExError;
use exhentai::pipeline::{
    Action, Event, ImageTask, Phase, Progress, ResultSlots, MAX_ATTEMPTS, RETRY_DELAY_SECS,
};

fn task() -> ImageTask {
    ImageTask::new("https://h/s/1".to_string())
}

#[test]
fn cache_hit_returns_cached_url_without_transfer() {
    let mut t = task();
    assert_eq!(t.start(), Action::FetchPage("https://h/s/1".to_string()));
    let a = t.step(Event::PageFetched(vec!["https://img/1.jpg".to_string()]));
    assert_eq!(a, Action::LookUp("https://img/1.jpg".to_string()));
    let a = t.step(Event::CacheAnswer(Some("/file/abc.jpg".to_string())));
    assert_eq!(a, Action::Succeed("/file/abc.jpg".to_string()));
    assert_eq!(t.phase, Phase::Finished);
}

#[test]
fn cache_miss_transfers_then_records() {
    let mut t = task();
    t.step(Event::PageFetched(vec!["src".to_string()]));
    let a = t.step(Event::CacheAnswer(None));
    assert_eq!(a, Action::Transfer("src".to_string()));
    let a = t.step(Event::Transferred(vec!["/file/x.png".to_string()]));
    assert_eq!(a, Action::Record("src".to_string(), "/file/x.png".to_string()));
    let a = t.step(Event::Recorded);
    assert_eq!(a, Action::Succeed("/file/x.png".to_string()));
}

#[test]
fn always_failing_page_is_tried_five_times() {
    let mut t = task();
    let mut fetches = 1;
    let mut waits = 0;
    loop {
        let a = t.step(Event::Failed(ExError::Http("timeout".to_string())));
        match a {
            Action::Wait(secs) => {
                assert_eq!(secs, 10);
                waits += 1;
                let b = t.step(Event::Waited);
                assert_eq!(b, Action::FetchPage("https://h/s/1".to_string()));
                fetches += 1;
            }
            Action::Fail(e) => {
                assert_eq!(e, ExError::ResolutionFailed("https://h/s/1".to_string()));
                break;
            }
            other => panic!("unexpected action {:?}", other),
        }
    }
    assert_eq!(fetches, 5);
    assert_eq!(waits, 4);
    assert_eq!(MAX_ATTEMPTS, 5);
    assert_eq!(RETRY_DELAY_SECS, 10);
}

#[test]
fn empty_source_or_upload_counts_as_failed_attempt() {
    let mut t = task();
    assert_eq!(t.step(Event::PageFetched(vec![])), Action::Wait(10));
    t.step(Event::Waited);
    assert_eq!(t.attempts, 2);
    t.step(Event::PageFetched(vec!["s".to_string()]));
    t.step(Event::CacheAnswer(None));
    assert_eq!(t.step(Event::Transferred(vec![])), Action::Wait(10));
}

#[test]
fn accepts_only_answers_to_the_pending_action() {
    let t = task();
    assert!(t.accepts(&Event::PageFetched(vec![])));
    assert!(t.accepts(&Event::Failed(ExError::Upload("x".to_string()))));
    assert!(!t.accepts(&Event::Waited));
    assert!(!t.accepts(&Event::CacheAnswer(None)));
}

#[test]
fn results_align_with_input_whatever_the_completion_order() {
    let n = 4;
    let mut slots = ResultSlots::new(n);
    for i in [2usize, 0, 3, 1] {
        assert!(!slots.is_complete());
        slots.record(i, Ok(format!("hosted-{}", i)));
    }
    assert!(slots.is_complete());
    let out = slots.finish().unwrap();
    assert_eq!(out, vec!["hosted-0", "hosted-1", "hosted-2", "hosted-3"]);
}

#[test]
fn lowest_index_failure_is_reported() {
    let mut slots = ResultSlots::new(3);
    slots.record(2, Err(ExError::ResolutionFailed("c".to_string())));
    slots.record(0, Ok("a".to_string()));
    slots.record(1, Err(ExError::ResolutionFailed("b".to_string())));
    assert_eq!(slots.finish(), Err(ExError::ResolutionFailed("b".to_string())));
}

#[test]
fn empty_work_list_gives_empty_result() {
    let slots = ResultSlots::new(0);
    assert!(slots.is_complete());
    assert_eq!(slots.finish(), Ok(vec![]));
}

#[test]
fn progress_counts_from_one() {
    let mut p = Progress::new(3);
    assert_eq!(p.advance(), 1);
    assert_eq!(p.advance(), 2);
    assert_eq!(p.advance(), 3);
    assert_eq!(p.total, 3);
}
