use std::sync::{Arc, Mutex};

use observer::detect::engine::syscall_detection_callback;
use observer::detect::{DetectionEngine, Detector, SyscallEventContext};
use observer::etw::event_parser::EVENT_HEADER_EXT_TYPE_STACK_TRACE64;
use observer::etw::{Event, ExtendedDataItem};
use observer::guid::Guid;

const KERNEL_ADDR: u64 = 0xFFFF_F800_0000_1000;

/// A detector that records what it is asked to do.
struct Recorder {
    label: &'static str,
    fail_on_init: bool,
    log: Arc<Mutex<Vec<String>>>,
}

impl Recorder {
    fn new(label: &'static str, fail_on_init: bool, log: &Arc<Mutex<Vec<String>>>) -> Self {
        Recorder { label, fail_on_init, log: Arc::clone(log) }
    }
}

impl Detector for Recorder {
    fn name(&self) -> &'static str {
        self.label
    }

    fn initialize(&mut self) -> Result<(), String> {
        self.log.lock().unwrap().push(format!("init {}", self.label));
        if self.fail_on_init {
            Err(format!("{} failed", self.label))
        } else {
            Ok(())
        }
    }

    fn analyze(&self, context: &SyscallEventContext) {
        self.log
            .lock()
            .unwrap()
            .push(format!("{} pid={} frames={:?}", self.label, context.process_id, &*context.user_frames));
    }
}

/// A detector that keeps the trait's default `initialize`.
struct Quiet;

impl Detector for Quiet {
    fn name(&self) -> &'static str {
        "quiet"
    }

    fn analyze(&self, _context: &SyscallEventContext) {}
}

fn stack_item(frames: &[u64]) -> ExtendedDataItem {
    let mut data = vec![0u8; 8];
    for f in frames {
        data.extend_from_slice(&f.to_le_bytes());
    }
    ExtendedDataItem { ext_type: EVENT_HEADER_EXT_TYPE_STACK_TRACE64, data }
}

fn event_with_stack(pid: u32, frames: &[u64]) -> Event {
    let provider = Guid { data1: 1, data2: 2, data3: 3, data4: [4; 8] };
    Event::new(pid, 1, 33, provider, vec![stack_item(frames)])
}

#[test]
fn engine_starts_empty_and_counts_detectors() {
    let engine: DetectionEngine<Box<dyn Detector>> = DetectionEngine::new();
    assert_eq!(engine.detector_count(), 0);
    let first: Box<dyn Detector> = Box::new(Quiet);
    let second: Box<dyn Detector> = Box::new(Quiet);
    let engine = engine.add_detector(first).add_detector(second);
    assert_eq!(engine.detector_count(), 2);
}

#[test]
fn default_initialize_succeeds() {
    let mut quiet = Quiet;
    assert_eq!(quiet.name(), "quiet");
    assert_eq!(quiet.initialize(), Ok(()));
    let quiet_box: Box<dyn Detector> = Box::new(Quiet);
    let mut engine = DetectionEngine::new().add_detector(quiet_box);
    assert_eq!(engine.start(), Ok(()));
}

#[test]
fn start_initializes_in_order_and_stops_at_first_failure() {
    let log = Arc::new(Mutex::new(Vec::new()));
    let a: Box<dyn Detector> = Box::new(Recorder::new("a", false, &log));
    let b: Box<dyn Detector> = Box::new(Recorder::new("b", true, &log));
    let c: Box<dyn Detector> = Box::new(Recorder::new("c", false, &log));
    let mut engine = DetectionEngine::new().add_detector(a).add_detector(b).add_detector(c);
    assert_eq!(engine.start(), Err("b failed".to_string()));
    assert_eq!(*log.lock().unwrap(), vec!["init a".to_string(), "init b".to_string()]);
    assert_eq!(engine.detector_count(), 3);
}

#[test]
fn events_reach_every_detector_with_user_frames() {
    let log = Arc::new(Mutex::new(Vec::new()));
    let mut engine = DetectionEngine::new()
        .add_detector(Recorder::new("a", false, &log))
        .add_detector(Recorder::new("b", false, &log));
    assert_eq!(engine.start(), Ok(()));
    log.lock().unwrap().clear();

    engine.process_etw_event(&event_with_stack(500, &[KERNEL_ADDR, 0x10, 0x20, KERNEL_ADDR, 0x30]));
    assert_eq!(
        *log.lock().unwrap(),
        vec!["a pid=500 frames=[16, 32, 48]".to_string(), "b pid=500 frames=[16, 32, 48]".to_string()]
    );
}

#[test]
fn short_user_stacks_are_not_analyzed() {
    let log = Arc::new(Mutex::new(Vec::new()));
    let engine = DetectionEngine::new().add_detector(Recorder::new("a", false, &log));
    engine.process_etw_event(&event_with_stack(500, &[KERNEL_ADDR, 0x10, KERNEL_ADDR, 0x20]));
    engine.process_etw_event(&Event::new(
        500,
        1,
        33,
        Guid { data1: 0, data2: 0, data3: 0, data4: [0; 8] },
        vec![],
    ));
    assert!(log.lock().unwrap().is_empty());
}

#[test]
fn callback_skips_own_process_and_missing_engine() {
    let log = Arc::new(Mutex::new(Vec::new()));
    let engine = DetectionEngine::new().add_detector(Recorder::new("a", false, &log));
    let frames = [0x10, 0x20, 0x30];

    assert!(!syscall_detection_callback(Some(&engine), 77, &event_with_stack(77, &frames)));
    assert!(!syscall_detection_callback(Some(&engine), 77, &event_with_stack(u32::MAX, &frames)));
    assert!(!syscall_detection_callback::<Recorder>(None, 77, &event_with_stack(78, &frames)));
    assert!(log.lock().unwrap().is_empty());

    assert!(syscall_detection_callback(Some(&engine), 77, &event_with_stack(78, &frames)));
    assert_eq!(*log.lock().unwrap(), vec!["a pid=78 frames=[16, 32, 48]".to_string()]);
}
