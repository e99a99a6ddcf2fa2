use storage_ui::image_dialog::{
    attach_message, loop_device_path, AttachDiskImageDialog, CancelOutcome, CompleteOutcome,
    ImageOperationDialog, ImageOperationKind, NewDiskImageDialog, StartedOutcome,
    DEFAULT_IMAGE_SIZE, image_status_event, ImageStatusEvent, WorkflowState, WorkflowStatus,
};

fn op_dialog() -> ImageOperationDialog<String, String> {
    ImageOperationDialog::new(ImageOperationKind::CreateFromDrive, "/dev/sda".to_string(), None)
}

#[test]
fn new_disk_image_defaults_to_sixteen_mebibytes() {
    let d = NewDiskImageDialog::new();
    assert_eq!(d.size_bytes, 16 * 1024 * 1024);
    assert_eq!(DEFAULT_IMAGE_SIZE, 16777216);
    assert!(d.path.is_empty());
    assert!(!d.running);
}

#[test]
fn new_disk_image_blank_path_is_refused_after_marking_running() {
    let mut d = NewDiskImageDialog::new();
    d.path = "   ".to_string();
    let r = d.begin_create();
    assert_eq!(r, Some(Err("Destination path is required".to_string())));
    assert!(d.running);
    assert_eq!(d.begin_create(), None);
    let close = d.complete(Err("Destination path is required".to_string()));
    assert!(!close);
    assert!(!d.running);
    assert_eq!(d.error.as_deref(), Some("Destination path is required"));
}

#[test]
fn new_disk_image_create_gives_path_and_size() {
    let mut d = NewDiskImageDialog::new();
    d.path = "/tmp/disk.img".to_string();
    d.size_bytes = 4096;
    d.error = Some("old".to_string());
    assert_eq!(d.begin_create(), Some(Ok(("/tmp/disk.img".to_string(), 4096))));
    assert!(d.running);
    assert_eq!(d.error, None);
    assert!(d.complete(Ok(())));
    assert!(!d.running);
}

#[test]
fn attach_image_flow() {
    let mut d = AttachDiskImageDialog::new();
    assert_eq!(d.begin_attach(), Some(Err("Image file path is required".to_string())));
    d.running = false;
    d.path = "/tmp/a.img".to_string();
    assert_eq!(d.begin_attach(), Some(Ok("/tmp/a.img".to_string())));
    assert_eq!(d.begin_attach(), None);
    let shown = d.complete(Ok(attach_message(true).to_string()));
    assert_eq!(shown.as_deref(), Some("Attached and mounted image."));
    assert!(!d.running);
    d.running = true;
    assert_eq!(d.complete(Err("boom".to_string())), None);
    assert_eq!(d.error.as_deref(), Some("boom"));
}

#[test]
fn loop_device_path_and_messages() {
    assert_eq!(loop_device_path("loop7"), "/dev/loop7");
    assert_eq!(
        attach_message(false),
        "Attached image. If it contains partitions, select and mount them from the main view."
    );
}

#[test]
fn image_operation_requires_a_path() {
    let mut d = op_dialog();
    d.image_path = "  ".to_string();
    assert_eq!(d.start(), None);
    assert_eq!(d.error.as_deref(), Some("Image path is required"));
    assert!(!d.running);
}

#[test]
fn image_operation_runs_to_success() {
    let mut d = op_dialog();
    d.image_path = "/tmp/backup.img".to_string();
    let id = d.start().expect("started");
    assert!(d.running);
    assert_eq!(d.request_id, Some(id));
    assert_eq!(d.start(), None);
    let out = d.started(id, Ok("op-1".to_string()));
    assert_eq!(out, StartedOutcome::Running { cancel: None });
    assert_eq!(d.operation_id.as_deref(), Some("op-1"));
    d.progress_update("op-2", 1, 2, 3);
    assert_eq!(d.progress, None);
    d.progress_update("op-1", 10, 100, 5);
    assert_eq!(d.progress, Some((10, 100, 5)));
    assert_eq!(d.complete("op-2", Ok(()), "Cancelled"), CompleteOutcome::Ignored);
    assert!(d.running);
    assert_eq!(d.complete("op-1", Ok(()), "Cancelled"), CompleteOutcome::Succeeded);
    assert!(!d.running);
    assert_eq!(d.operation_id, None);
    assert_eq!(d.request_id, None);
    assert_eq!(d.progress, None);
}

#[test]
fn stale_start_is_discarded() {
    let mut d = op_dialog();
    d.image_path = "/tmp/backup.img".to_string();
    let id = d.start().expect("started");
    let other = id.wrapping_add(1);
    let out = d.started(other, Ok("op-9".to_string()));
    assert_eq!(out, StartedOutcome::Discard(Some("op-9".to_string())));
    assert_eq!(d.operation_id, None);
    assert_eq!(d.started(other, Err("x".to_string())), StartedOutcome::Discard(None));
}

#[test]
fn cancel_before_start_is_applied_once_started() {
    let mut d = op_dialog();
    assert_eq!(d.request_cancel(), CancelOutcome::Close);
    d.image_path = "/tmp/backup.img".to_string();
    let id = d.start().expect("started");
    assert_eq!(d.request_cancel(), CancelOutcome::Pending);
    assert!(d.cancel_requested);
    let out = d.started(id, Ok("op-3".to_string()));
    assert_eq!(out, StartedOutcome::Running { cancel: Some("op-3".to_string()) });
    assert_eq!(d.request_cancel(), CancelOutcome::CancelOperation("op-3".to_string()));
    d.cancel_completed("op-3", Err("busy".to_string()));
    assert!(!d.cancel_requested);
    assert_eq!(d.error.as_deref(), Some("busy"));
    let out = d.complete("op-3", Err("Operation CANCELLED by user".to_string()), "Operation cancelled");
    assert_eq!(out, CompleteOutcome::Failed);
    assert_eq!(d.error.as_deref(), Some("Operation cancelled"));
}

#[test]
fn failed_start_shows_error() {
    let mut d = op_dialog();
    d.image_path = "/tmp/backup.img".to_string();
    let id = d.start().expect("started");
    assert_eq!(d.started(id, Err("no device".to_string())), StartedOutcome::Failed);
    assert!(!d.running);
    assert_eq!(d.request_id, None);
    assert_eq!(d.error.as_deref(), Some("no device"));
}

#[test]
fn failure_other_than_cancel_is_shown_as_is() {
    let mut d = op_dialog();
    d.image_path = "/tmp/backup.img".to_string();
    let id = d.start().expect("started");
    d.started(id, Ok("op-4".to_string()));
    let out = d.complete("op-4", Err("I/O error".to_string()), "Operation cancelled");
    assert_eq!(out, CompleteOutcome::Failed);
    assert_eq!(d.error.as_deref(), Some("I/O error"));
}

fn status(state: WorkflowState, message: Option<&str>) -> WorkflowStatus {
    WorkflowStatus { state, bytes_completed: 10, bytes_total: 100, speed_bytes_per_sec: 5, message: message.map(|m| m.to_string()) }
}

#[test]
fn image_status_reports() {
    assert_eq!(
        image_status_event(Ok(status(WorkflowState::Running, None))),
        (ImageStatusEvent::Progress { bytes: 10, total: 100, speed: 5 }, false)
    );
    assert_eq!(
        image_status_event(Ok(status(WorkflowState::Pending, None))),
        (ImageStatusEvent::Progress { bytes: 10, total: 100, speed: 5 }, false)
    );
    assert_eq!(image_status_event(Ok(status(WorkflowState::Completed, None))), (ImageStatusEvent::Complete(Ok(())), true));
    assert_eq!(
        image_status_event(Ok(status(WorkflowState::Cancelled, Some("x")))),
        (ImageStatusEvent::Complete(Err("Operation cancelled".to_string())), true)
    );
    assert_eq!(
        image_status_event(Ok(status(WorkflowState::Failed, None))),
        (ImageStatusEvent::Complete(Err("Image operation failed".to_string())), true)
    );
    assert_eq!(
        image_status_event(Ok(status(WorkflowState::Failed, Some("disk full")))),
        (ImageStatusEvent::Complete(Err("disk full".to_string())), true)
    );
    assert_eq!(
        image_status_event(Err("gone".to_string())),
        (ImageStatusEvent::Complete(Err("gone".to_string())), true)
    );
}
