use open_intent::candidate::Provenance;
use open_intent::drop_listener::{on_drop_notification, select_dropped, DropNotification};

fn paths(items: &[&str]) -> Vec<String> {
    items.iter().map(|s| s.to_string()).collect()
}

#[test]
fn first_supported_path_of_a_batch_is_chosen() {
    let found = select_dropped(&paths(&["image.png", "notes.pdf", "draft.pdf"])).unwrap();
    assert_eq!(found.path, "notes.pdf");
    assert_eq!(found.source, Provenance::DragDrop);
    let first = select_dropped(&paths(&["a.pdf", "b.pdf", "c.pdf"])).unwrap();
    assert_eq!(first.path, "a.pdf");
    let last = select_dropped(&paths(&["a.txt", "b.PDF", "c.pdf"])).unwrap();
    assert_eq!(last.path, "c.pdf");
}

#[test]
fn batch_without_a_supported_path_yields_nothing() {
    assert!(select_dropped(&paths(&[])).is_none());
    assert!(select_dropped(&paths(&["image.png"])).is_none());
    assert!(select_dropped(&paths(&["a.PDF", "b.pdf.bak", "pdf", ""])).is_none());
}

#[test]
fn extension_alone_decides_the_choice() {
    let found = select_dropped(&paths(&["-x.pdf", "b.pdf"])).unwrap();
    assert_eq!(found.path, "-x.pdf");
    let hidden = select_dropped(&paths(&["dir", ".pdf"])).unwrap();
    assert_eq!(hidden.path, ".pdf");
}

#[test]
fn drop_payload_yields_the_first_supported_path() {
    let drop = DropNotification::Drop("[\"image.png\",\"notes.pdf\",\"draft.pdf\"]".to_string());
    let found = on_drop_notification(&drop).unwrap();
    assert_eq!(found.path, "notes.pdf");
    assert_eq!(found.source, Provenance::DragDrop);
    let escaped = DropNotification::Drop(r#" [ "C:\\docs\\a.txt" , "C:\\docs\\b\u002epdf" ] "#.to_string());
    assert_eq!(on_drop_notification(&escaped).unwrap().path, "C:\\docs\\b.pdf");
}

#[test]
fn drop_payload_without_a_supported_path_yields_nothing() {
    assert!(on_drop_notification(&DropNotification::Drop("[]".to_string())).is_none());
    assert!(on_drop_notification(&DropNotification::Drop("[\"a.png\",\"b.txt\"]".to_string()))
        .is_none());
}

#[test]
fn malformed_drop_payload_yields_nothing() {
    for payload in ["", "not json", "[\"a.pdf\"", "[\"a.pdf\",]", "{\"paths\":[\"a.pdf\"]}",
        "[\"a.pdf\", 3]", "\"a.pdf\"", "[\"\\ud83d.pdf\"]", "[\"a.pdf\"] trailing"]
    {
        assert!(on_drop_notification(&DropNotification::Drop(payload.to_string())).is_none());
    }
}

#[test]
fn hover_and_cancel_yield_nothing() {
    assert!(on_drop_notification(&DropNotification::Hover).is_none());
    assert!(on_drop_notification(&DropNotification::Cancelled).is_none());
}
