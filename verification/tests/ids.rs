use gloss::ids::{has_session_extension, session_file_name};

const CANONICAL: &str = "67e55044-10b1-426f-9247-bb680e5fe0c8.jsonl";

#[test]
fn session_files_are_named_in_one_form() {
    for id in [
        "67e55044-10b1-426f-9247-bb680e5fe0c8",
        "67E55044-10B1-426F-9247-BB680E5FE0C8",
        "67e5504410b1426f9247bb680e5fe0c8",
        "67E5504410B1426F9247BB680E5FE0C8",
        "{67e55044-10b1-426f-9247-bb680e5fe0c8}",
        "urn:uuid:67e55044-10b1-426f-9247-bb680e5fe0c8",
        "URN:Uuid:67E55044-10b1-426f-9247-bb680e5fe0c8",
    ] {
        assert_eq!(session_file_name(id).unwrap(), CANONICAL);
    }
}

#[test]
fn other_session_ids_are_refused() {
    for id in [
        "",
        "..",
        "../67e55044-10b1-426f-9247-bb680e5fe0c8",
        "67e55044-10b1-426f-9247-bb680e5fe0c",
        "67e55044-10b1-426f-9247-bb680e5fe0cg",
        "67e55044x10b1-426f-9247-bb680e5fe0c8",
        "67e55044-10b1-426f-9247bb680e5fe0c8-",
        "{67e5504410b1426f9247bb680e5fe0c8}",
        "{67e55044-10b1-426f-9247-bb680e5fe0c8)",
        "urn:uuid;67e55044-10b1-426f-9247-bb680e5fe0c8",
        "urn:uuid:67e5504410b1426f9247bb680e5fe0c8",
        "学学学学学学学学学学学学",
    ] {
        assert_eq!(session_file_name(id).unwrap_err(), "The session ID is invalid.");
    }
}

#[test]
fn session_files_are_known_by_their_extension() {
    assert!(has_session_extension(CANONICAL));
    assert!(has_session_extension("x.jsonl"));
    assert!(!has_session_extension(".jsonl"));
    assert!(!has_session_extension("x.json"));
    assert!(!has_session_extension("x.jsonl.tmp"));
    assert!(!has_session_extension("xjsonl"));
    assert!(!has_session_extension("x.JSONL"));
}
