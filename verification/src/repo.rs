//! The document repository: the orchestration that resolves a document id
//! to its primary blob and, when present, its companion attachment blob,
//! performs the multi-step writes and deletes, and produces each document's
//! external representation.
//!
//! Deletion removes the primary blob only: an attachment of a deleted
//! document is left behind, as the backing design acknowledges. An update
//! that carries a file under a new filename likewise adds a companion key
//! beside any older one.

use vstd::prelude::*;
use vstd::slice::slice_to_vec;
use vstd::string::StringExecFns;
use vstd::utf8::encode_utf8;

use crate::classify::classify;
use crate::classify::spec_classify;
use crate::classify::Classification;
use crate::document::DocError;
use crate::document::Document;
use crate::document::DownloadResponse;
use crate::document::UploadedFile;
use crate::keys::companion_key;
use crate::keys::is_companion_key;
use crate::keys::is_companion_of;
use crate::keys::spec_companion_key;
use crate::keys::spec_is_companion_key;
use crate::keys::spec_is_companion_of;
use crate::store::BlobStore;

verus! {

/// The spec-level summary of what reading a document yields.
pub ghost struct ReadModel {
    /// The decoded text of the primary blob, absent when it is binary.
    pub content: Option<Seq<char>>,
    /// Whether the primary blob failed to decode as text.
    pub is_binary: bool,
    /// Whether some companion blob for the id exists.
    pub has_attachment: bool,
}

/// Whether the namespace holds a companion blob for the document `id`.
pub open spec fn spec_has_companion(store: Map<Seq<char>, Seq<u8>>, id: Seq<char>) -> bool {
    exists|k: Seq<char>| store.contains_key(k) && spec_is_companion_of(k, id)
}

/// What reading `id` from the namespace `store` yields: nothing when the
/// primary blob is absent, else the classification of its bytes and whether
/// a companion exists.
pub open spec fn spec_read(store: Map<Seq<char>, Seq<u8>>, id: Seq<char>) -> Option<ReadModel> {
    if store.contains_key(id) {
        Some(
            ReadModel {
                content: spec_classify(store[id]),
                is_binary: spec_classify(store[id]) is None,
                has_attachment: spec_has_companion(store, id),
            },
        )
    } else {
        None
    }
}

/// The effect on the namespace of writing a document: the primary blob is
/// overwritten with the encoded content, and, when a file accompanies the
/// write, its bytes are stored under the companion key derived from the id
/// and the file's name.
pub open spec fn spec_write(
    store: Map<Seq<char>, Seq<u8>>,
    id: Seq<char>,
    content: Seq<char>,
    file: Option<(Seq<char>, Seq<u8>)>,
) -> Map<Seq<char>, Seq<u8>> {
    let with_primary = store.insert(id, encode_utf8(content));
    match file {
        Some((name, bytes)) => with_primary.insert(spec_companion_key(id, name), bytes),
        None => with_primary,
    }
}

/// The effect on the namespace of deleting a document: the primary blob
/// alone is removed.
pub open spec fn spec_remove(store: Map<Seq<char>, Seq<u8>>, id: Seq<char>) -> Map<
    Seq<char>,
    Seq<u8>,
> {
    store.remove(id)
}

/// How a single blob write affects the listing order: an overwritten key
/// keeps its place, a new key is appended.
pub open spec fn spec_put_order(
    keys: Seq<Seq<char>>,
    store: Map<Seq<char>, Seq<u8>>,
    key: Seq<char>,
) -> Seq<Seq<char>> {
    if store.contains_key(key) {
        keys
    } else {
        keys.push(key)
    }
}

/// How a document write affects the listing order: the primary key, then
/// the companion key, each kept in place when already present or appended
/// when new.
pub open spec fn spec_write_order(
    keys: Seq<Seq<char>>,
    store: Map<Seq<char>, Seq<u8>>,
    id: Seq<char>,
    content: Seq<char>,
    file: Option<(Seq<char>, Seq<u8>)>,
) -> Seq<Seq<char>> {
    let keys1 = spec_put_order(keys, store, id);
    match file {
        Some((name, _)) => spec_put_order(
            keys1,
            store.insert(id, encode_utf8(content)),
            spec_companion_key(id, name),
        ),
        None => keys1,
    }
}

/// The spec-level model of an uploaded file: its effective name and bytes.
pub open spec fn spec_file(file: Option<&UploadedFile>) -> Option<(Seq<char>, Seq<u8>)> {
    match file {
        Some(f) => Some((f.spec_name(), f.bytes@)),
        None => None,
    }
}

/// A correctly assembled external representation of the document `id` as
/// the namespace `store` holds it.
pub open spec fn spec_document_ok(
    store: Map<Seq<char>, Seq<u8>>,
    id: Seq<char>,
    doc: Document,
) -> bool {
    match spec_read(store, id) {
        Some(m) => {
            &&& doc.id@ == id
            &&& match m.content {
                Some(t) => doc.content matches Some(c) && c@ == t,
                None => doc.content is None,
            }
            &&& doc.is_binary == m.is_binary
            &&& (doc.attachment_ref is Some <==> m.has_attachment)
            &&& match doc.attachment_ref {
                Some(a) => store.contains_key(a@) && spec_is_companion_of(a@, id),
                None => true,
            }
        },
        None => false,
    }
}

/// The ids of a sequence of documents, in order.
pub open spec fn spec_doc_ids(docs: Seq<Document>) -> Seq<Seq<char>> {
    docs.map_values(|d: Document| d.id@)
}

/// The keys of primary blobs among `keys`: those that are not companions.
pub open spec fn spec_primary_keys(keys: Seq<Seq<char>>) -> Seq<Seq<char>> {
    keys.filter(|k: Seq<char>| !spec_is_companion_key(k))
}

/// Synthesized filename of a download of `id`: the id with an extension
/// derived from the classification.
pub open spec fn spec_download_name(id: Seq<char>, is_binary: bool) -> Seq<char> {
    if is_binary {
        id + seq!['.', 'b', 'i', 'n']
    } else {
        id + seq!['.', 't', 'x', 't']
    }
}

/// How the primary keys grow as one more key is considered.
proof fn lemma_primary_keys_step(keys: Seq<Seq<char>>, i: int)
    requires
        0 <= i < keys.len(),
    ensures
        spec_primary_keys(keys.take(i + 1)) == if !spec_is_companion_key(keys[i]) {
            spec_primary_keys(keys.take(i)).push(keys[i])
        } else {
            spec_primary_keys(keys.take(i))
        },
{
    broadcast use Seq::lemma_filter_push;

    assert(keys.take(i + 1) =~= keys.take(i).push(keys[i]));
}

/// The character sequences of a listing of keys.
pub open spec fn spec_key_views(keys: Seq<String>) -> Seq<Seq<char>> {
    keys.map_values(|s: String| s@)
}

/// Whether a listing of keys holds a companion of the document `id`.
pub open spec fn spec_some_companion(keys: Seq<Seq<char>>, id: Seq<char>) -> bool {
    exists|j: int| 0 <= j < keys.len() && spec_is_companion_of(#[trigger] keys[j], id)
}

/// A correctly assembled external representation of a document, given its
/// id, the bytes of its primary blob, and a listing of every key in the
/// namespace.
pub open spec fn spec_assembled_ok(
    id: Seq<char>,
    bytes: Seq<u8>,
    keys: Seq<Seq<char>>,
    doc: Document,
) -> bool {
    &&& doc.id@ == id
    &&& match spec_classify(bytes) {
        Some(t) => doc.content matches Some(c) && c@ == t && !doc.is_binary,
        None => doc.content is None && doc.is_binary,
    }
    &&& (doc.attachment_ref is Some <==> spec_some_companion(keys, id))
    &&& match doc.attachment_ref {
        Some(a) => keys.contains(a@) && spec_is_companion_of(a@, id),
        None => true,
    }
}

/// Finds the key of some companion blob of `id` in a listing of keys, if
/// one is there: the first one.
pub fn find_companion_in(id: &str, keys: &Vec<String>) -> (r: Option<String>)
    ensures
        r is Some <==> spec_some_companion(spec_key_views(keys@), id@),
        r matches Some(k) ==> spec_key_views(keys@).contains(k@) && spec_is_companion_of(k@, id@),
{
    let ghost key_views = spec_key_views(keys@);
    let n = keys.len();
    let mut i: usize = 0;
    while i < n
        invariant
            n == keys@.len(),
            i <= n,
            key_views == spec_key_views(keys@),
            forall|j: int| 0 <= j < i ==> !spec_is_companion_of(key_views[j], id@),
        decreases n - i,
    {
        proof {
            assert(key_views[i as int] == keys@[i as int]@);
        }
        if is_companion_of(keys[i].as_str(), id) {
            proof {
                assert(key_views.contains(keys@[i as int]@));
            }
            return Some(keys[i].clone());
        }
        i = i + 1;
    }
    None
}

/// Assembles the external representation of a document from the bytes of
/// its primary blob and a listing of every key in the namespace, wherever
/// those were fetched from: the classified content, and a reference to a
/// companion blob when the listing holds one.
pub fn assemble_document(id: String, bytes: &[u8], keys: &Vec<String>) -> (doc: Document)
    ensures
        spec_assembled_ok(id@, bytes@, spec_key_views(keys@), doc),
{
    let attachment_ref = find_companion_in(id.as_str(), keys);
    match classify(bytes) {
        Classification::Text(s) => Document { id, content: Some(s), attachment_ref, is_binary: false },
        Classification::Binary => Document { id, content: None, attachment_ref, is_binary: true },
    }
}

/// Builds a download response from a document id and the raw bytes of its
/// primary blob: the bytes unchanged, the binary disposition flag, and a
/// filename synthesized from the id and the classification.
pub fn download_from_bytes(id: &str, bytes: Vec<u8>) -> (r: DownloadResponse)
    ensures
        r.content@ == bytes@,
        r.is_binary == (spec_classify(bytes@) is None),
        r.filename@ == spec_download_name(id@, r.is_binary),
{
    let is_binary = match classify(bytes.as_slice()) {
        Classification::Text(_) => false,
        Classification::Binary => true,
    };
    let mut filename = id.to_owned();
    if is_binary {
        filename.append(".bin");
    } else {
        filename.append(".txt");
    }
    proof {
        reveal_strlit(".bin");
        reveal_strlit(".txt");
        assert(filename@ =~= spec_download_name(id@, is_binary));
    }
    DownloadResponse { content: bytes, filename, is_binary }
}

/// Relies on `uuid::Uuid::new_v4` and its hyphenated lowercase `Display`
/// rendering: a fresh random identifier of 36 characters, hex digits and
/// hyphens only — in particular never the companion-key separator.
#[verifier::external_body]
fn fresh_id() -> (r: String)
    ensures
        r@.len() == 36,
        !spec_is_companion_key(r@),
{
    uuid::Uuid::new_v4().to_string()
}

/// The document repository over an in-memory blob namespace. The namespace
/// is the sole source of truth: every operation reads or rewrites blobs and
/// reassembles documents from them.
pub struct Repository {
    store: BlobStore,
}

impl View for Repository {
    type V = Map<Seq<char>, Seq<u8>>;

    closed spec fn view(&self) -> Map<Seq<char>, Seq<u8>> {
        self.store@
    }
}

impl Repository {
    /// Well-formedness of the backing store.
    pub closed spec fn inv(&self) -> bool {
        self.store.inv()
    }

    /// The blob keys in the order a listing enumerates them.
    pub closed spec fn key_seq(&self) -> Seq<Seq<char>> {
        self.store.key_seq()
    }

    /// The abstract namespace holds a key exactly when the listing order
    /// does.
    pub proof fn lemma_key_seq(&self)
        requires
            self.inv(),
        ensures
            forall|k: Seq<char>| #[trigger] self@.contains_key(k) <==> self.key_seq().contains(k),
    {
        self.store.lemma_key_seq();
    }

    /// Creates a repository over an empty namespace.
    pub fn new() -> (r: Repository)
        ensures
            r.inv(),
            r@ == Map::<Seq<char>, Seq<u8>>::empty(),
            r.key_seq() == Seq::<Seq<char>>::empty(),
    {
        Repository { store: BlobStore::new() }
    }

    /// Creates a repository over an existing namespace, whatever bytes it
    /// already holds.
    pub fn from_store(store: BlobStore) -> (r: Repository)
        requires
            store.inv(),
        ensures
            r.inv(),
            r@ == store@,
            r.key_seq() == store.key_seq(),
    {
        Repository { store }
    }

    /// A companion exists in the abstract namespace exactly when the key
    /// listing holds one.
    proof fn lemma_companion_in_listing(&self, id: Seq<char>)
        requires
            self.inv(),
        ensures
            spec_has_companion(self@, id) <==> spec_some_companion(self.key_seq(), id),
    {
        self.lemma_key_seq();
        if spec_has_companion(self@, id) {
            let k = choose|k: Seq<char>| self@.contains_key(k) && spec_is_companion_of(k, id);
            let j = choose|j: int| 0 <= j < self.key_seq().len() && self.key_seq()[j] == k;
            assert(spec_is_companion_of(self.key_seq()[j], id));
        }
        if spec_some_companion(self.key_seq(), id) {
            let j = choose|j: int|
                0 <= j < self.key_seq().len() && spec_is_companion_of(
                    #[trigger] self.key_seq()[j],
                    id,
                );
            assert(self.key_seq().contains(self.key_seq()[j]));
        }
    }

    /// Assembles the external representation of the document whose primary
    /// blob holds `bytes` under the key `id`.
    fn assemble(&self, id: String, bytes: &[u8]) -> (doc: Document)
        requires
            self.inv(),
            self@.contains_key(id@),
            self@[id@] == bytes@,
        ensures
            spec_document_ok(self@, id@, doc),
    {
        let keys = self.store.list();
        let doc = assemble_document(id, bytes, &keys);
        proof {
            self.lemma_key_seq();
            self.lemma_companion_in_listing(doc.id@);
            assert(spec_key_views(keys@) =~= self.key_seq());
            if doc.attachment_ref is Some {
                assert(self.key_seq().contains(doc.attachment_ref.unwrap()@));
            }
        }
        doc
    }

    /// Creates a document under a fresh id: stores the encoded content
    /// under the id and, when a file accompanies the request, its bytes
    /// under the derived companion key. Returns the assembled document.
    pub fn create(&mut self, content: &str, file: Option<&UploadedFile>) -> (r: Document)
        requires
            old(self).inv(),
        ensures
            final(self).inv(),
            final(self)@ == spec_write(old(self)@, r.id@, content@, spec_file(file)),
            final(self).key_seq() == spec_write_order(
                old(self).key_seq(),
                old(self)@,
                r.id@,
                content@,
                spec_file(file),
            ),
            r.id@.len() == 36,
            !spec_is_companion_key(r.id@),
            r.content matches Some(c) && c@ == content@,
            !r.is_binary,
            match spec_file(file) {
                Some((name, _)) => r.attachment_ref matches Some(a) && a@ == spec_companion_key(
                    r.id@,
                    name,
                ),
                None => r.attachment_ref is None,
            },
    {
        let id = fresh_id();
        self.write_blobs(id.as_str(), content, file);
        let attachment_ref = Self::attachment_key(id.as_str(), file);
        Document { id, content: Some(content.to_owned()), attachment_ref, is_binary: false }
    }

    /// Overwrites the document `id` with new content and, when a file
    /// accompanies the request, stores its bytes under the derived companion
    /// key, replacing a prior attachment of the same filename. No existence
    /// check precedes the overwrite. Returns the assembled document.
    pub fn update(&mut self, id: &str, content: &str, file: Option<&UploadedFile>) -> (r: Document)
        requires
            old(self).inv(),
        ensures
            final(self).inv(),
            final(self)@ == spec_write(old(self)@, id@, content@, spec_file(file)),
            final(self).key_seq() == spec_write_order(
                old(self).key_seq(),
                old(self)@,
                id@,
                content@,
                spec_file(file),
            ),
            r.id@ == id@,
            r.content matches Some(c) && c@ == content@,
            !r.is_binary,
            match spec_file(file) {
                Some((name, _)) => r.attachment_ref matches Some(a) && a@ == spec_companion_key(
                    id@,
                    name,
                ),
                None => r.attachment_ref is None,
            },
    {
        self.write_blobs(id, content, file);
        let attachment_ref = Self::attachment_key(id, file);
        Document {
            id: id.to_owned(),
            content: Some(content.to_owned()),
            attachment_ref,
            is_binary: false,
        }
    }

    /// The two-step write shared by create and update: primary blob first,
    /// then the attachment, if any.
    fn write_blobs(&mut self, id: &str, content: &str, file: Option<&UploadedFile>)
        requires
            old(self).inv(),
        ensures
            final(self).inv(),
            final(self)@ == spec_write(old(self)@, id@, content@, spec_file(file)),
            final(self).key_seq() == spec_write_order(
                old(self).key_seq(),
                old(self)@,
                id@,
                content@,
                spec_file(file),
            ),
    {
        let content_bytes = slice_to_vec(content.as_bytes());
        self.store.put(id, content_bytes);
        match file {
            Some(f) => {
                let name: &str = match &f.name {
                    Some(n) => n.as_str(),
                    None => "file",
                };
                proof {
                    reveal_strlit("file");
                    assert(name@ =~= f.spec_name());
                }
                let ckey = companion_key(id, name);
                let fbytes = slice_to_vec(f.bytes.as_slice());
                self.store.put(ckey.as_str(), fbytes);
            },
            None => {},
        }
    }

    /// The companion key a write stores an accompanying file under, if any.
    fn attachment_key(id: &str, file: Option<&UploadedFile>) -> (r: Option<String>)
        ensures
            match spec_file(file) {
                Some((name, _)) => r matches Some(a) && a@ == spec_companion_key(id@, name),
                None => r is None,
            },
    {
        match file {
            Some(f) => {
                let name: &str = match &f.name {
                    Some(n) => n.as_str(),
                    None => "file",
                };
                proof {
                    reveal_strlit("file");
                    assert(name@ =~= f.spec_name());
                }
                Some(companion_key(id, name))
            },
            None => None,
        }
    }

    /// Resolves `id` to its document: the classified content of the primary
    /// blob and a reference to a companion blob when one exists. Absence of
    /// the primary blob is a terminal `NotFound`, whatever orphaned
    /// attachments exist.
    pub fn read(&self, id: &str) -> (r: Result<Document, DocError>)
        requires
            self.inv(),
        ensures
            r is Ok <==> self@.contains_key(id@),
            r matches Ok(doc) ==> spec_document_ok(self@, id@, doc),
            r matches Err(e) ==> e == DocError::NotFound,
    {
        match self.store.get(id) {
            Some(bytes) => Ok(self.assemble(id.to_owned(), bytes.as_slice())),
            None => Err(DocError::NotFound),
        }
    }

    /// Lists every document: one per primary blob, in listing order, each
    /// assembled as a read of its id would assemble it. Companion blobs are
    /// never surfaced as documents of their own.
    pub fn list_documents(&self) -> (r: Vec<Document>)
        requires
            self.inv(),
        ensures
            spec_doc_ids(r@) == spec_primary_keys(self.key_seq()),
            forall|i: int|
                0 <= i < r@.len() ==> spec_document_ok(self@, #[trigger] r@[i].id@, r@[i]),
            forall|i: int| 0 <= i < r@.len() ==> !spec_is_companion_key(#[trigger] r@[i].id@),
    {
        proof {
            self.lemma_key_seq();
        }
        let keys = self.store.list();
        let ghost key_views = keys@.map_values(|s: String| s@);
        let n = keys.len();
        let mut docs: Vec<Document> = Vec::new();
        let mut i: usize = 0;
        while i < n
            invariant
                self.inv(),
                n == keys@.len(),
                i <= n,
                key_views == self.key_seq(),
                key_views == keys@.map_values(|s: String| s@),
                spec_doc_ids(docs@) == spec_primary_keys(self.key_seq().take(i as int)),
                forall|j: int|
                    0 <= j < docs@.len() ==> spec_document_ok(
                        self@,
                        #[trigger] docs@[j].id@,
                        docs@[j],
                    ),
                forall|j: int|
                    0 <= j < docs@.len() ==> !spec_is_companion_key(#[trigger] docs@[j].id@),
            decreases n - i,
        {
            proof {
                assert(key_views[i as int] == keys@[i as int]@);
                lemma_primary_keys_step(self.key_seq(), i as int);
            }
            let key = &keys[i];
            if !is_companion_key(key.as_str()) {
                proof {
                    self.lemma_key_seq();
                    assert(self.key_seq().contains(key@));
                    assert(self@.contains_key(key@));
                }
                let bytes = self.store.get(key.as_str()).unwrap();
                let doc = self.assemble(key.clone(), bytes.as_slice());
                docs.push(doc);
                proof {
                    assert(spec_doc_ids(docs@) =~= spec_primary_keys(
                        self.key_seq().take(i as int + 1),
                    ));
                }
            }
            i = i + 1;
        }
        proof {
            assert(self.key_seq().take(n as int) =~= self.key_seq());
        }
        docs
    }

    /// Deletes the primary blob of `id`. A companion blob, if any, is left
    /// in place. Deleting an absent document reports `NotFound`.
    pub fn delete(&mut self, id: &str) -> (r: Result<(), DocError>)
        requires
            old(self).inv(),
        ensures
            final(self).inv(),
            final(self)@ == spec_remove(old(self)@, id@),
            final(self).key_seq() == old(self).key_seq().remove_value(id@),
            r is Ok <==> old(self)@.contains_key(id@),
            r matches Err(e) ==> e == DocError::NotFound,
    {
        if self.store.delete(id) {
            Ok(())
        } else {
            Err(DocError::NotFound)
        }
    }

    /// Returns the raw bytes of the primary blob of `id` together with a
    /// synthesized filename and the binary disposition flag, for transport
    /// as a file-attachment response.
    pub fn download(&self, id: &str) -> (r: Result<DownloadResponse, DocError>)
        requires
            self.inv(),
        ensures
            r is Ok <==> self@.contains_key(id@),
            r matches Ok(d) ==> {
                &&& d.content@ == self@[id@]
                &&& d.is_binary == (spec_classify(self@[id@]) is None)
                &&& d.filename@ == spec_download_name(id@, d.is_binary)
            },
            r matches Err(e) ==> e == DocError::NotFound,
    {
        let bytes = match self.store.get(id) {
            Some(b) => b,
            None => {
                return Err(DocError::NotFound);
            },
        };
        Ok(download_from_bytes(id, slice_to_vec(bytes.as_slice())))
    }
}

} // verus!
