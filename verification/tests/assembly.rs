use doc_manager::repo::assemble_document;
use doc_manager::repo::download_from_bytes;
use doc_manager::repo::find_companion_in;

#[test]
fn find_companion_in_picks_first_matching_key() {
    let keys = vec![
        "doc-1".to_string(),
        "doc-2".to_string(),
        "doc-1_a.png".to_string(),
        "doc-1_b.png".to_string(),
    ];
    assert_eq!(
        find_companion_in("doc-1", &keys),
        Some("doc-1_a.png".to_string())
    );
    assert_eq!(find_companion_in("doc-2", &keys), None);
    assert_eq!(find_companion_in("doc", &keys), None);
    assert_eq!(find_companion_in("absent", &Vec::new()), None);
}

#[test]
fn assemble_document_classifies_and_pairs() {
    let keys = vec!["doc-1".to_string(), "doc-1_img.png".to_string()];
    let doc = assemble_document("doc-1".to_string(), "hello".as_bytes(), &keys);
    assert_eq!(doc.id, "doc-1");
    assert_eq!(doc.content, Some("hello".to_string()));
    assert_eq!(doc.attachment_ref, Some("doc-1_img.png".to_string()));
    assert!(!doc.is_binary);

    let doc = assemble_document("doc-2".to_string(), &[0xFF, 0xFE], &keys);
    assert_eq!(doc.id, "doc-2");
    assert_eq!(doc.content, None);
    assert_eq!(doc.attachment_ref, None);
    assert!(doc.is_binary);
}

#[test]
fn download_from_bytes_keeps_bytes_and_names_by_classification() {
    let text = download_from_bytes("doc-1", "hello".as_bytes().to_vec());
    assert_eq!(text.content, "hello".as_bytes().to_vec());
    assert_eq!(text.filename, "doc-1.txt");
    assert!(!text.is_binary);

    let binary = download_from_bytes("doc-2", vec![0xFF, 0xFE, 0x00]);
    assert_eq!(binary.content, vec![0xFF, 0xFE, 0x00]);
    assert_eq!(binary.filename, "doc-2.bin");
    assert!(binary.is_binary);
}
