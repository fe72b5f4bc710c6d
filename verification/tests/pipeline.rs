use open_intent::bridge::NativeBridge;
use open_intent::candidate::{CandidatePath, Provenance};
use open_intent::dispatcher::{DispatchState, DisplaySurfaceState};
use open_intent::drop_listener::DropNotification;
use open_intent::pipeline::{open_file_path, OpenPipeline};

fn args(tokens: &[&str]) -> Vec<String> {
    tokens.iter().map(|t| t.to_string()).collect()
}

fn drop_of(payload: &str) -> DropNotification {
    DropNotification::Drop(payload.to_string())
}

#[test]
fn new_pipeline_holds_nothing() {
    let pipeline = OpenPipeline::new(NativeBridge::Listening);
    assert_eq!(pipeline.bridge(), NativeBridge::Listening);
    assert_eq!(pipeline.dispatcher().state(), DispatchState::Idle);
    assert_eq!(pipeline.dispatcher().surface(), DisplaySurfaceState::NotReady);
    assert!(pipeline.dispatcher().pending().is_none());
}

#[test]
fn launch_with_an_existing_pdf_opens_it_once_after_readiness() {
    let mut pipeline = OpenPipeline::new(NativeBridge::Absent);
    assert!(pipeline.launched_with(&args(&["viewer", "report.pdf"]), true, 10).is_none());
    assert_eq!(pipeline.dispatcher().state(), DispatchState::Pending);
    let sent = pipeline.surface_ready().unwrap();
    assert_eq!(sent.event, "open-pdf-file");
    assert_eq!(sent.payload, "report.pdf");
    assert!(pipeline.surface_ready().is_none());
    assert_eq!(pipeline.dispatcher().state(), DispatchState::Idle);
}

#[test]
fn launch_is_probed_where_the_extension_is_missing() {
    let mut pipeline = OpenPipeline::new(NativeBridge::Absent);
    assert!(pipeline.launched(&args(&["viewer", "/no/such/entry/anywhere"]), 1).is_none());
    assert_eq!(pipeline.dispatcher().state(), DispatchState::Idle);
    assert!(pipeline.launched(&args(&["viewer", "/"]), 2).is_none());
    assert_eq!(pipeline.dispatcher().pending().unwrap().path(), "/");
    assert!(pipeline.launched(&args(&["viewer", "/nowhere/report.pdf"]), 3).is_none());
    let held = pipeline.dispatcher().pending().unwrap();
    assert_eq!(held.path(), "/nowhere/report.pdf");
    assert_eq!(held.observed_at(), 3);
}

#[test]
fn launch_without_a_path_leaves_the_pipeline_idle() {
    let mut pipeline = OpenPipeline::new(NativeBridge::Absent);
    assert!(pipeline.launched(&args(&["viewer"]), 1).is_none());
    assert!(pipeline.launched(&args(&["viewer", "--flag", "a.pdf"]), 2).is_none());
    assert!(pipeline.launched_with(&args(&["viewer", "a.txt"]), false, 3).is_none());
    assert_eq!(pipeline.dispatcher().state(), DispatchState::Idle);
    assert!(pipeline.surface_ready().is_none());
}

#[test]
fn drop_on_a_ready_surface_sends_the_first_pdf() {
    let mut pipeline = OpenPipeline::new(NativeBridge::Absent);
    assert!(pipeline.surface_ready().is_none());
    let sent = pipeline.dragged(&drop_of("[\"image.png\",\"notes.pdf\",\"draft.pdf\"]"), 5).unwrap();
    assert_eq!(sent.event, "open-pdf-file");
    assert_eq!(sent.payload, "notes.pdf");
    assert_eq!(pipeline.dispatcher().state(), DispatchState::Idle);
    assert!(pipeline.surface_ready().is_none());
}

#[test]
fn drop_before_readiness_is_held_until_readiness() {
    let mut pipeline = OpenPipeline::new(NativeBridge::Absent);
    assert!(pipeline.dragged(&drop_of("[\"image.png\",\"notes.pdf\",\"draft.pdf\"]"), 5).is_none());
    let held = pipeline.dispatcher().pending().unwrap();
    assert_eq!(held.path(), "notes.pdf");
    assert_eq!(held.observed_at(), 5);
    assert_eq!(pipeline.surface_ready().unwrap().payload, "notes.pdf");
    assert!(pipeline.surface_ready().is_none());
}

#[test]
fn malformed_drop_sends_nothing() {
    let mut pipeline = OpenPipeline::new(NativeBridge::Absent);
    assert!(pipeline.dragged(&drop_of("[\"notes.pdf\""), 1).is_none());
    assert!(pipeline.dragged(&drop_of("\u{feff}[\"notes.pdf\"]"), 2).is_none());
    assert_eq!(pipeline.dispatcher().state(), DispatchState::Idle);
    assert!(pipeline.surface_ready().is_none());
    assert!(pipeline.dragged(&drop_of("notes.pdf"), 3).is_none());
    assert!(pipeline.dragged(&drop_of("[\"notes.pdf\",]"), 4).is_none());
    assert_eq!(pipeline.dispatcher().state(), DispatchState::Idle);
    let sent = pipeline.dragged(&drop_of("[\"notes.pdf\"]"), 5).unwrap();
    assert_eq!(sent.payload, "notes.pdf");
}

#[test]
fn hover_and_cancel_leave_the_held_request() {
    let mut pipeline = OpenPipeline::new(NativeBridge::Absent);
    assert!(pipeline.dragged(&drop_of("[\"a.pdf\"]"), 1).is_none());
    assert!(pipeline.dragged(&DropNotification::Hover, 2).is_none());
    assert!(pipeline.dragged(&DropNotification::Cancelled, 3).is_none());
    let held = pipeline.dispatcher().pending().unwrap();
    assert_eq!(held.path(), "a.pdf");
    assert_eq!(held.observed_at(), 1);
    assert_eq!(pipeline.surface_ready().unwrap().payload, "a.pdf");
    assert!(pipeline.dragged(&DropNotification::Hover, 4).is_none());
    assert!(pipeline.dragged(&DropNotification::Cancelled, 5).is_none());
    assert_eq!(pipeline.dispatcher().state(), DispatchState::Idle);
}

#[test]
fn dropped_flag_like_path_is_not_admitted() {
    let mut pipeline = OpenPipeline::new(NativeBridge::Absent);
    assert!(pipeline.surface_ready().is_none());
    assert!(pipeline.dragged(&drop_of("[\"-x.pdf\",\"b.pdf\"]"), 1).is_none());
    assert_eq!(pipeline.dispatcher().state(), DispatchState::Idle);
}

#[test]
fn native_request_reaches_a_running_viewer() {
    let mut pipeline = OpenPipeline::new(NativeBridge::after_registration(true));
    assert!(pipeline.launched(&args(&["viewer"]), 1).is_none());
    assert!(pipeline.surface_ready().is_none());
    let sent = pipeline.open_requested("/docs/later.pdf", 2).unwrap();
    assert_eq!(sent.event, "open-pdf-file");
    assert_eq!(sent.payload, "/docs/later.pdf");
    let again = pipeline.open_requested_with("/docs/notes", true, 3).unwrap();
    assert_eq!(again.payload, "/docs/notes");
    assert!(pipeline.open_requested_with("/docs/notes", false, 4).is_none());
    assert!(pipeline.open_requested("", 5).is_none());
}

#[test]
fn native_request_is_ignored_without_a_bridge() {
    let mut pipeline = OpenPipeline::new(NativeBridge::after_registration(false));
    assert!(pipeline.surface_ready().is_none());
    assert!(pipeline.open_requested("/docs/later.pdf", 2).is_none());
    assert!(pipeline.open_requested_with("/docs/later.pdf", true, 3).is_none());
    assert_eq!(pipeline.dispatcher().state(), DispatchState::Idle);
}

#[test]
fn latest_source_wins_before_readiness() {
    let mut pipeline = OpenPipeline::new(NativeBridge::Listening);
    assert!(pipeline.launched(&args(&["viewer", "launch.pdf"]), 1).is_none());
    assert!(pipeline.open_requested("native.pdf", 2).is_none());
    assert!(pipeline.dragged(&drop_of("[\"drop.pdf\"]"), 3).is_none());
    assert!(pipeline.dragged(&drop_of("[\"broken.pdf\""), 4).is_none());
    assert!(pipeline.open_requested("--rejected", 5).is_none());
    let sent = pipeline.surface_ready().unwrap();
    assert_eq!(sent.payload, "drop.pdf");
    assert!(pipeline.surface_ready().is_none());
    let next = pipeline.open_requested("after.pdf", 6).unwrap();
    assert_eq!(next.payload, "after.pdf");
}

#[test]
fn offered_candidate_is_admitted_or_dropped() {
    let mut pipeline = OpenPipeline::new(NativeBridge::Absent);
    let pdf = CandidatePath::new("a.pdf".to_string(), Provenance::DragDrop);
    assert!(pipeline.offer_with(Some(pdf), false, 1).is_none());
    assert_eq!(pipeline.dispatcher().pending().unwrap().path(), "a.pdf");
    let missing = CandidatePath::new("b.txt".to_string(), Provenance::LaunchArgument);
    assert!(pipeline.offer_with(Some(missing), false, 2).is_none());
    assert!(pipeline.offer_with(None, true, 3).is_none());
    assert_eq!(pipeline.dispatcher().pending().unwrap().path(), "a.pdf");
    let root = CandidatePath::new("/".to_string(), Provenance::NativeBridge);
    assert!(pipeline.offer(Some(root), 4).is_none());
    assert_eq!(pipeline.dispatcher().pending().unwrap().path(), "/");
    let nowhere = CandidatePath::new("/no/such/entry/anywhere".to_string(), Provenance::NativeBridge);
    assert!(pipeline.offer(Some(nowhere), 5).is_none());
    assert!(pipeline.offer(None, 6).is_none());
    assert_eq!(pipeline.surface_ready().unwrap().payload, "/");
}

#[test]
fn open_file_path_is_acknowledged_for_every_path() {
    assert_eq!(open_file_path("report.pdf".to_string()), Ok(()));
    assert_eq!(open_file_path(String::new()), Ok(()));
    assert_eq!(open_file_path("--flag".to_string()), Ok(()));
    assert_eq!(open_file_path("/no/such/entry".to_string()), Ok(()));
}
