use kitbash_watch::event::{ChangeKind, FileChangeEvent};
use kitbash_watch::wire::{frame, tag_of, to_wire};

#[test]
fn tags_of_the_three_kinds() {
    assert_eq!(tag_of(ChangeKind::Added), "file_added");
    assert_eq!(tag_of(ChangeKind::Modified), "file_modified");
    assert_eq!(tag_of(ChangeKind::Removed), "file_removed");
}

#[test]
fn frame_puts_type_before_filename() {
    assert_eq!(
        frame(ChangeKind::Modified, "\"a.obj\""),
        "{\"type\":\"file_modified\",\"filename\":\"a.obj\"}"
    );
    assert_eq!(frame(ChangeKind::Removed, "\"\""), "{\"type\":\"file_removed\",\"filename\":\"\"}");
}

#[test]
fn events_on_the_wire() {
    let name = "a.obj".to_string();
    assert_eq!(
        to_wire(&FileChangeEvent::Added { filename: name.clone() }),
        Ok("{\"type\":\"file_added\",\"filename\":\"a.obj\"}".to_string())
    );
    assert_eq!(
        to_wire(&FileChangeEvent::Modified { filename: name.clone() }),
        Ok("{\"type\":\"file_modified\",\"filename\":\"a.obj\"}".to_string())
    );
    assert_eq!(
        to_wire(&FileChangeEvent::Removed { filename: name }),
        Ok("{\"type\":\"file_removed\",\"filename\":\"a.obj\"}".to_string())
    );
}

#[test]
fn filenames_are_escaped_as_json_strings() {
    let event = FileChangeEvent::Added { filename: "a \"b\"\\c\n.obj".to_string() };
    assert_eq!(
        to_wire(&event),
        Ok("{\"type\":\"file_added\",\"filename\":\"a \\\"b\\\"\\\\c\\n.obj\"}".to_string())
    );
}

#[test]
fn wire_text_parses_back_to_two_members() {
    let event = FileChangeEvent::Removed { filename: "męsh \"7\".obj".to_string() };
    let text = to_wire(&event).unwrap();
    let value: serde_json::Value = serde_json::from_str(&text).unwrap();
    let object = value.as_object().unwrap();
    assert_eq!(object.len(), 2);
    assert_eq!(object.get("type").and_then(|v| v.as_str()), Some("file_removed"));
    assert_eq!(object.get("filename").and_then(|v| v.as_str()), Some("męsh \"7\".obj"));
}
