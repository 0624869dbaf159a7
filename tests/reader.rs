use rifrattometro::reader::{FrameReader, ReaderAction, ReaderEvent};

fn emitted(action: ReaderAction<f64>) -> Option<f64> {
    match action {
        ReaderAction::Emit(v) => Some(v),
        ReaderAction::Terminate => None,
    }
}

#[test]
fn frames_are_emitted_in_order() {
    let mut r: FrameReader<f64> = FrameReader::new(32);
    let mut out = Vec::new();
    for v in [1.5, 2.5, 3.5] {
        assert!(r.check_stop(false));
        if let Some(x) = emitted(r.step(ReaderEvent::Frame(32, v))) {
            out.push(x);
        }
    }
    assert_eq!(out, vec![1.5, 2.5, 3.5]);
    assert!(!r.is_terminated());
    assert_eq!(r.frame_size(), 32);
}

#[test]
fn stop_before_any_read_emits_nothing() {
    let mut r: FrameReader<f64> = FrameReader::new(32);
    assert!(!r.check_stop(true));
    assert!(r.is_terminated());
    assert!(emitted(r.step(ReaderEvent::Frame(32, 11.4))).is_none());
    assert!(!r.check_stop(false));
}

#[test]
fn stop_after_k_reads_emits_k_samples() {
    let mut r: FrameReader<f64> = FrameReader::new(4);
    let mut count = 0;
    for _ in 0..5 {
        assert!(r.check_stop(false));
        if emitted(r.step(ReaderEvent::Frame(4, 11.4))).is_some() {
            count += 1;
        }
    }
    assert!(!r.check_stop(true));
    assert!(r.is_terminated());
    assert_eq!(count, 5);
    assert!(emitted(r.step(ReaderEvent::Frame(4, 11.4))).is_none());
}

#[test]
fn short_read_terminates() {
    let mut r: FrameReader<f64> = FrameReader::new(32);
    assert!(emitted(r.step(ReaderEvent::Frame(32, 1.0))).is_some());
    assert!(emitted(r.step(ReaderEvent::Frame(31, 2.0))).is_none());
    assert!(r.is_terminated());
    assert!(!r.check_stop(false));
}

#[test]
fn failed_read_terminates() {
    let mut r: FrameReader<f64> = FrameReader::new(32);
    assert!(emitted(r.step(ReaderEvent::ReadFailed)).is_none());
    assert!(r.is_terminated());
    assert!(emitted(r.step(ReaderEvent::Frame(32, 2.0))).is_none());
}

#[test]
fn stop_event_terminates() {
    let mut r: FrameReader<f64> = FrameReader::new(8);
    assert!(emitted(r.step(ReaderEvent::StopSignal)).is_none());
    assert!(r.is_terminated());
}
