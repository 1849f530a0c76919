//! The behavioural laws of the repository, stated over the spec-level
//! transitions of the blob namespace and proved once for every store state,
//! id, content and file.

use vstd::prelude::*;
use vstd::utf8::encode_utf8;

use crate::keys::spec_companion_key;
use crate::keys::spec_is_companion_of;
use crate::keys::SEPARATOR;
use crate::repo::spec_has_companion;
use crate::repo::spec_read;
use crate::repo::spec_remove;
use crate::repo::spec_write;
use crate::repo::ReadModel;

verus! {

/// Writing a document never leaves a companion for its id behind when none
/// accompanied the write and none existed before: the primary blob itself is
/// no companion of its own id.
proof fn lemma_write_no_file_keeps_no_companion(
    store: Map<Seq<char>, Seq<u8>>,
    id: Seq<char>,
    content: Seq<char>,
)
    requires
        !spec_has_companion(store, id),
    ensures
        !spec_has_companion(spec_write(store, id, content, None), id),
{
    let s1 = spec_write(store, id, content, None);
    if spec_has_companion(s1, id) {
        let k = choose|k: Seq<char>| s1.contains_key(k) && spec_is_companion_of(k, id);
        assert(id.push(SEPARATOR).len() <= k.len());
        assert(k != id);
        assert(store.contains_key(k));
    }
}

/// A document created with content and no file reads back with that content
/// unchanged, classified as text, and with no attachment — provided no stray
/// companion blob for the fresh id already existed (fresh random ids ensure
/// that).
pub proof fn lemma_create_then_read_no_file(
    store: Map<Seq<char>, Seq<u8>>,
    id: Seq<char>,
    content: Seq<char>,
)
    requires
        !spec_has_companion(store, id),
    ensures
        spec_read(spec_write(store, id, content, None), id) == Some(
            ReadModel { content: Some(content), is_binary: false, has_attachment: false },
        ),
{
    broadcast use vstd::utf8::encode_utf8_valid_utf8;
    broadcast use vstd::utf8::encode_utf8_decode_utf8;

    lemma_write_no_file_keeps_no_companion(store, id, content);
    let s1 = spec_write(store, id, content, None);
    assert(s1[id] == encode_utf8(content));
}

/// A document created with content and a file reads back with the content
/// unchanged and an attachment present, and the companion blob holds the
/// file's bytes unchanged — the attachment round trip: downloading the
/// companion key yields what was uploaded.
pub proof fn lemma_create_then_read_with_file(
    store: Map<Seq<char>, Seq<u8>>,
    id: Seq<char>,
    content: Seq<char>,
    name: Seq<char>,
    bytes: Seq<u8>,
)
    ensures
        spec_read(spec_write(store, id, content, Some((name, bytes))), id) == Some(
            ReadModel { content: Some(content), is_binary: false, has_attachment: true },
        ),
        spec_write(store, id, content, Some((name, bytes)))[spec_companion_key(id, name)]
            == bytes,
{
    broadcast use vstd::utf8::encode_utf8_valid_utf8;
    broadcast use vstd::utf8::encode_utf8_decode_utf8;

    let s1 = spec_write(store, id, content, Some((name, bytes)));
    let ck = spec_companion_key(id, name);
    assert(ck.len() > id.len());
    assert(s1[id] == encode_utf8(content));
    assert(spec_is_companion_of(ck, id)) by {
        assert(id.push(SEPARATOR) =~= ck.take(id.len() as int + 1));
    }
    assert(s1.contains_key(ck) && spec_is_companion_of(ck, id));
}

/// Deleting a document makes a subsequent read of its id yield nothing,
/// whatever the store held before.
pub proof fn lemma_delete_then_read(store: Map<Seq<char>, Seq<u8>>, id: Seq<char>)
    ensures
        spec_read(spec_remove(store, id), id) is None,
{
}

/// An update followed by a read of the same id yields the new content,
/// classified as text, under the same id — whether or not a file accompanied
/// the update, and whatever the store held before.
pub proof fn lemma_update_then_read(
    store: Map<Seq<char>, Seq<u8>>,
    id: Seq<char>,
    content: Seq<char>,
    file: Option<(Seq<char>, Seq<u8>)>,
)
    ensures
        spec_read(spec_write(store, id, content, file), id) matches Some(m) && m.content == Some(
            content,
        ) && !m.is_binary,
{
    broadcast use vstd::utf8::encode_utf8_valid_utf8;
    broadcast use vstd::utf8::encode_utf8_decode_utf8;

    let s1 = spec_write(store, id, content, file);
    assert(s1[id] == encode_utf8(content)) by {
        if let Some((name, bytes)) = file {
            assert(spec_companion_key(id, name).len() > id.len());
        }
    }
}

} // verus!
