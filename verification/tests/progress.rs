use std::sync::{Arc, Mutex};
use std::time::Duration;

use dccmd_rs::app::nodes::progress::{
    remaining_files_message, start_item_progress_bar, start_progress_bar, start_spinner,
    update_remaining_files_message, ProgressReporter, ProgressTask,
};

#[derive(Default)]
struct RecordingProgressReporter {
    events: Arc<Mutex<Vec<String>>>,
}

impl RecordingProgressReporter {
    fn events(&self) -> Vec<String> {
        self.events.lock().expect("lock poisoned").clone()
    }
}

struct RecordingProgressTask {
    events: Arc<Mutex<Vec<String>>>,
}

impl ProgressTask for RecordingProgressTask {
    fn set_length(&self, length: u64) {
        self.events
            .lock()
            .expect("lock poisoned")
            .push(format!("set_length:{length}"));
    }

    fn set_message(&self, message: &str) {
        self.events
            .lock()
            .expect("lock poisoned")
            .push(format!("set_message:{message}"));
    }

    fn inc(&self, _delta: u64) {}

    fn finish_with_message(&self, _message: &str) {}

    fn finish_and_clear(&self) {}

    fn enable_steady_tick(&self, interval: Duration) {
        self.events
            .lock()
            .expect("lock poisoned")
            .push(format!("enable_tick:{}ms", interval.as_millis()));
    }
}

impl ProgressReporter for RecordingProgressReporter {
    type Task = RecordingProgressTask;

    fn bar(&self, length: u64) -> RecordingProgressTask {
        self.events
            .lock()
            .expect("lock poisoned")
            .push(format!("bar:{length}"));
        RecordingProgressTask {
            events: self.events.clone(),
        }
    }

    fn item_bar(&self, length: u64) -> RecordingProgressTask {
        self.events
            .lock()
            .expect("lock poisoned")
            .push(format!("item_bar:{length}"));
        RecordingProgressTask {
            events: self.events.clone(),
        }
    }

    fn spinner(&self, message: &str) -> RecordingProgressTask {
        self.events
            .lock()
            .expect("lock poisoned")
            .push(format!("spinner:{message}"));
        RecordingProgressTask {
            events: self.events.clone(),
        }
    }
}

#[test]
fn start_progress_bar_applies_common_setup() {
    let reporter = RecordingProgressReporter::default();

    let _ = start_progress_bar(&reporter, 123, Some("Uploading"));

    assert_eq!(
        reporter.events(),
        vec![
            "bar:123".to_string(),
            "set_length:123".to_string(),
            "set_message:Uploading".to_string(),
        ]
    );
}

#[test]
fn start_spinner_enables_default_tick() {
    let reporter = RecordingProgressReporter::default();

    let _ = start_spinner(&reporter, "Listing files and folders...");

    assert_eq!(
        reporter.events(),
        vec![
            "spinner:Listing files and folders...".to_string(),
            "enable_tick:100ms".to_string(),
        ]
    );
}

#[test]
fn start_item_progress_bar_applies_common_setup() {
    let reporter = RecordingProgressReporter::default();

    let _ = start_item_progress_bar(&reporter, 9, Some("Creating folders"));

    assert_eq!(
        reporter.events(),
        vec![
            "item_bar:9".to_string(),
            "set_length:9".to_string(),
            "set_message:Creating folders".to_string(),
        ]
    );
}

#[test]
fn update_remaining_files_message_formats_consistently() {
    let reporter = RecordingProgressReporter::default();
    let bar = start_progress_bar(&reporter, 42, Some("Downloading 2 files"));

    update_remaining_files_message(&bar, "Downloading", 1);

    let events = reporter.events();
    assert!(events.contains(&"set_message:Downloading 1 files".to_string()));
}

#[test]
fn test_remaining_files_message_text() {
    assert_eq!(remaining_files_message("Uploading", 0), "Uploading 0 files");
    assert_eq!(remaining_files_message("Downloading", 1234567), "Downloading 1234567 files");
}
