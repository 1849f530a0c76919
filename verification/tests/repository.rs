use doc_manager::document::DocError;
use doc_manager::document::UploadedFile;
use doc_manager::keys::is_companion_key;
use doc_manager::repo::Repository;
use doc_manager::store::BlobStore;

#[test]
fn create_without_file_reads_back_unchanged() {
    let mut repo = Repository::new();
    let created = repo.create("hello", None);
    let doc = repo.read(&created.id).expect("created document must read back");
    assert_eq!(doc.id, created.id);
    assert_eq!(doc.content, Some("hello".to_string()));
    assert_eq!(doc.attachment_ref, None);
    assert!(!doc.is_binary);
}

#[test]
fn create_with_file_reads_back_with_attachment() {
    let mut repo = Repository::new();
    let file = UploadedFile { name: Some("img.png".to_string()), bytes: vec![0xFF, 0xFE, 0x00] };
    let created = repo.create("hi", Some(&file));
    let doc = repo.read(&created.id).expect("created document must read back");
    assert_eq!(doc.content, Some("hi".to_string()));
    let attachment = doc.attachment_ref.expect("attachment must be present");
    assert!(attachment.ends_with("_img.png"));
    assert_eq!(attachment, format!("{}_img.png", created.id));
    let download = repo.download(&attachment).expect("attachment must download");
    assert_eq!(download.content, vec![0xFF, 0xFE, 0x00]);
}

#[test]
fn unnamed_file_falls_back_to_default_token() {
    let mut repo = Repository::new();
    let file = UploadedFile { name: None, bytes: vec![7] };
    let created = repo.create("text", Some(&file));
    assert_eq!(
        created.attachment_ref,
        Some(format!("{}_file", created.id))
    );
}

#[test]
fn binary_payload_reads_as_binary_and_downloads_as_bin() {
    let mut store = BlobStore::new();
    store.put("doc-1", vec![0xFF, 0xFE, 0x00]);
    let repo = Repository::from_store(store);
    let doc = repo.read("doc-1").expect("stored blob must read back");
    assert_eq!(doc.content, None);
    assert!(doc.is_binary);
    let download = repo.download("doc-1").expect("stored blob must download");
    assert!(download.is_binary);
    assert_eq!(download.filename, "doc-1.bin");
    assert_eq!(download.content, vec![0xFF, 0xFE, 0x00]);
}

#[test]
fn text_download_has_txt_filename_and_raw_bytes() {
    let mut repo = Repository::new();
    let created = repo.create("hello", None);
    let download = repo.download(&created.id).expect("created document must download");
    assert!(!download.is_binary);
    assert_eq!(download.filename, format!("{}.txt", created.id));
    assert_eq!(download.content, "hello".as_bytes().to_vec());
}

#[test]
fn fresh_ids_do_not_collide() {
    let mut repo = Repository::new();
    let first = repo.create("a", None);
    let second = repo.create("b", None);
    assert_ne!(first.id, second.id);
    assert_eq!(first.id.chars().count(), 36);
    assert_eq!(second.id.chars().count(), 36);
    assert!(!first.id.contains('_'));
    assert!(!second.id.contains('_'));
}

#[test]
fn delete_then_read_is_not_found() {
    let mut repo = Repository::new();
    let created = repo.create("gone soon", None);
    assert_eq!(repo.delete(&created.id), Ok(()));
    assert_eq!(repo.read(&created.id), Err(DocError::NotFound));
    assert_eq!(repo.download(&created.id), Err(DocError::NotFound));
}

#[test]
fn delete_leaves_attachment_behind() {
    let mut repo = Repository::new();
    let file = UploadedFile { name: Some("a.bin".to_string()), bytes: vec![1, 2] };
    let created = repo.create("with file", Some(&file));
    let attachment = created.attachment_ref.clone().expect("attachment must be present");
    assert_eq!(repo.delete(&created.id), Ok(()));
    assert_eq!(repo.read(&created.id), Err(DocError::NotFound));
    let download = repo.download(&attachment).expect("orphaned attachment blob remains");
    assert_eq!(download.content, vec![1, 2]);
}

#[test]
fn update_then_read_returns_new_content() {
    let mut repo = Repository::new();
    let created = repo.create("old", None);
    let updated = repo.update(&created.id, "new", None);
    assert_eq!(updated.id, created.id);
    let doc = repo.read(&created.id).expect("updated document must read back");
    assert_eq!(doc.id, created.id);
    assert_eq!(doc.content, Some("new".to_string()));
}

#[test]
fn update_is_an_unchecked_overwrite() {
    let mut repo = Repository::new();
    let doc = repo.update("never-created", "content", None);
    assert_eq!(doc.id, "never-created");
    let read = repo.read("never-created").expect("overwritten id must exist");
    assert_eq!(read.content, Some("content".to_string()));
}

#[test]
fn update_with_file_replaces_same_named_attachment() {
    let mut repo = Repository::new();
    let old_file = UploadedFile { name: Some("f.bin".to_string()), bytes: vec![1] };
    let created = repo.create("doc", Some(&old_file));
    let new_file = UploadedFile { name: Some("f.bin".to_string()), bytes: vec![2] };
    repo.update(&created.id, "doc", Some(&new_file));
    let key = format!("{}_f.bin", created.id);
    let download = repo.download(&key).expect("replaced attachment must download");
    assert_eq!(download.content, vec![2]);
}

#[test]
fn list_returns_one_document_per_primary_blob() {
    let mut repo = Repository::new();
    let file = UploadedFile { name: Some("pic.png".to_string()), bytes: vec![9] };
    let with_file = repo.create("first", Some(&file));
    let plain = repo.create("second", None);
    let docs = repo.list_documents();
    assert_eq!(docs.len(), 2);
    assert_eq!(docs[0].id, with_file.id);
    assert_eq!(docs[0].content, Some("first".to_string()));
    assert!(docs[0].attachment_ref.is_some());
    assert_eq!(docs[1].id, plain.id);
    assert_eq!(docs[1].content, Some("second".to_string()));
    assert_eq!(docs[1].attachment_ref, None);
}

#[test]
fn list_never_surfaces_companion_keys() {
    let mut repo = Repository::new();
    let file = UploadedFile { name: Some("a.txt".to_string()), bytes: vec![65] };
    repo.create("owner", Some(&file));
    let docs = repo.list_documents();
    assert_eq!(docs.len(), 1);
    for doc in &docs {
        assert!(!is_companion_key(&doc.id));
    }
}

#[test]
fn empty_repository_lists_nothing_and_finds_nothing() {
    let mut repo = Repository::new();
    assert!(repo.list_documents().is_empty());
    assert_eq!(repo.read("anything"), Err(DocError::NotFound));
    assert_eq!(repo.delete("anything"), Err(DocError::NotFound));
}

#[test]
fn error_taxonomy_variants_are_distinct() {
    let errors = vec![
        DocError::NotFound,
        DocError::Transport("listing failed".to_string()),
        DocError::Encoding,
        DocError::Configuration("storage account not set".to_string()),
    ];
    for (i, a) in errors.iter().enumerate() {
        for (j, b) in errors.iter().enumerate() {
            assert_eq!(i == j, a == b);
        }
    }
}
