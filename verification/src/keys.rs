//! The key naming scheme: how a document id and an attachment filename are
//! combined into the key of a companion blob, and how keys are told apart.
//!
//! A primary blob's key is the document id itself and never contains the
//! separator. A companion (attachment) blob's key is the id, the separator,
//! and the attachment's filename.

use vstd::prelude::*;
use vstd::string::StrSliceExecFns;
use vstd::string::StringExecFns;

verus! {

/// The character that joins a document id to an attachment filename in a
/// companion blob key. Document ids never contain it.
pub const SEPARATOR: char = '_';

/// A key addresses a companion (attachment) blob exactly when it contains
/// the separator character somewhere.
pub open spec fn spec_is_companion_key(key: Seq<char>) -> bool {
    exists|i: int| 0 <= i < key.len() && key[i] == SEPARATOR
}

/// The key under which an attachment named `name` of the document `id` is
/// stored.
pub open spec fn spec_companion_key(id: Seq<char>, name: Seq<char>) -> Seq<char> {
    id.push(SEPARATOR) + name
}

/// A key is a companion of document `id` when it starts with `id` followed
/// by the separator.
pub open spec fn spec_is_companion_of(key: Seq<char>, id: Seq<char>) -> bool {
    id.push(SEPARATOR).is_prefix_of(key)
}

/// Index of the first separator in `key`, or `key.len()` when there is none.
pub open spec fn spec_sep_pos(key: Seq<char>) -> int
    decreases key.len(),
{
    if key.len() == 0 {
        0
    } else if key[0] == SEPARATOR {
        0
    } else {
        1 + spec_sep_pos(key.drop_first())
    }
}

/// The document id that owns `key`: everything before the first separator,
/// or the whole key when it contains none.
pub open spec fn spec_owner_of(key: Seq<char>) -> Seq<char> {
    key.take(spec_sep_pos(key))
}

/// `spec_sep_pos` is exactly the position of the first separator: any index
/// whose strict predecessors are all non-separators, and which either holds a
/// separator or is the end of a separator-free key, is that position.
proof fn lemma_sep_pos_is_first(key: Seq<char>, i: int)
    requires
        0 <= i <= key.len(),
        forall|j: int| 0 <= j < i ==> key[j] != SEPARATOR,
        i < key.len() ==> key[i] == SEPARATOR,
        i == key.len() ==> !spec_is_companion_key(key),
    ensures
        spec_sep_pos(key) == i,
    decreases key.len(),
{
    if key.len() == 0 {
    } else if key[0] == SEPARATOR {
        assert(i == 0);
    } else {
        assert(i != 0);
        let rest = key.drop_first();
        assert(forall|j: int| 0 <= j < i - 1 ==> rest[j] == key[j + 1] && key[j + 1] != SEPARATOR);
        if i - 1 == rest.len() {
            assert(!spec_is_companion_key(rest)) by {
                if spec_is_companion_key(rest) {
                    let w = choose|w: int| 0 <= w < rest.len() && rest[w] == SEPARATOR;
                    assert(key[w + 1] == SEPARATOR);
                }
            }
        }
        lemma_sep_pos_is_first(rest, i - 1);
    }
}

/// Tests whether a blob key names an attachment rather than a primary
/// document blob.
pub fn is_companion_key(key: &str) -> (r: bool)
    ensures
        r == spec_is_companion_key(key@),
{
    let n: usize = key.unicode_len();
    let mut i: usize = 0;
    while i < n
        invariant
            n == key@.len(),
            i <= n,
            forall|j: int| 0 <= j < i ==> key@[j] != SEPARATOR,
        decreases n - i,
    {
        if key.get_char(i) == SEPARATOR {
            return true;
        }
        i = i + 1;
    }
    false
}

/// Builds the blob key for an attachment named `name` of the document `id`.
pub fn companion_key(id: &str, name: &str) -> (r: String)
    ensures
        r@ == spec_companion_key(id@, name@),
{
    proof {
        reveal_strlit("_");
    }
    let mut r = id.to_owned();
    r.append("_");
    r.append(name);
    proof {
        assert(r@ =~= spec_companion_key(id@, name@));
    }
    r
}

/// Character-by-character equality of two strings.
pub fn str_eq(a: &str, b: &str) -> (r: bool)
    ensures
        r == (a@ == b@),
{
    let na: usize = a.unicode_len();
    let nb: usize = b.unicode_len();
    if na != nb {
        return false;
    }
    let mut i: usize = 0;
    while i < na
        invariant
            na == a@.len(),
            nb == b@.len(),
            na == nb,
            i <= na,
            forall|j: int| 0 <= j < i ==> a@[j] == b@[j],
        decreases na - i,
    {
        if a.get_char(i) != b.get_char(i) {
            return false;
        }
        i = i + 1;
    }
    proof {
        assert(a@ =~= b@);
    }
    true
}

/// Tests whether `prefix` is a prefix of `s`, character by character.
pub fn has_prefix(s: &str, prefix: &str) -> (r: bool)
    ensures
        r == prefix@.is_prefix_of(s@),
{
    let np: usize = prefix.unicode_len();
    let ns: usize = s.unicode_len();
    if np > ns {
        return false;
    }
    let mut i: usize = 0;
    while i < np
        invariant
            np == prefix@.len(),
            ns == s@.len(),
            np <= ns,
            i <= np,
            forall|j: int| 0 <= j < i ==> s@[j] == prefix@[j],
        decreases np - i,
    {
        if s.get_char(i) != prefix.get_char(i) {
            assert(!prefix@.is_prefix_of(s@));
            return false;
        }
        i = i + 1;
    }
    assert(prefix@ =~= s@.take(np as int));
    true
}

/// Tests whether `key` is the key of a companion blob of the document `id`.
pub fn is_companion_of(key: &str, id: &str) -> (r: bool)
    ensures
        r == spec_is_companion_of(key@, id@),
{
    proof {
        reveal_strlit("_");
    }
    let mut prefix = id.to_owned();
    prefix.append("_");
    proof {
        assert(prefix@ =~= id@.push(SEPARATOR));
    }
    has_prefix(key, prefix.as_str())
}

/// Extracts the owning document id from a blob key: the part before the
/// first separator, or the whole key when it contains none.
pub fn owner_of(key: &str) -> (r: String)
    ensures
        r@ == spec_owner_of(key@),
{
    let n: usize = key.unicode_len();
    let mut i: usize = 0;
    while i < n
        invariant
            n == key@.len(),
            i <= n,
            forall|j: int| 0 <= j < i ==> key@[j] != SEPARATOR,
        decreases n - i,
    {
        if key.get_char(i) == SEPARATOR {
            proof {
                lemma_sep_pos_is_first(key@, i as int);
            }
            return key.substring_char(0, i).to_owned();
        }
        i = i + 1;
    }
    proof {
        lemma_sep_pos_is_first(key@, n as int);
        assert(key@.take(n as int) =~= key@);
    }
    key.to_owned()
}

/// A companion key is always recognized as a companion key, and its owner is
/// the id it was built from, provided the id itself is separator-free.
pub proof fn lemma_companion_key_round_trip(id: Seq<char>, name: Seq<char>)
    requires
        !spec_is_companion_key(id),
    ensures
        spec_is_companion_key(spec_companion_key(id, name)),
        spec_is_companion_of(spec_companion_key(id, name), id),
        spec_owner_of(spec_companion_key(id, name)) == id,
{
    let key = spec_companion_key(id, name);
    assert(key[id.len() as int] == SEPARATOR);
    assert(forall|j: int| 0 <= j < id.len() ==> key[j] == id[j]);
    lemma_sep_pos_is_first(key, id.len() as int);
    assert(key.take(id.len() as int) =~= id);
    assert(id.push(SEPARATOR).is_prefix_of(key)) by {
        assert(id.push(SEPARATOR) =~= key.take(id.len() as int + 1));
    }
}

/// A companion of some id is a companion key.
pub proof fn lemma_companion_of_is_companion_key(key: Seq<char>, id: Seq<char>)
    requires
        spec_is_companion_of(key, id),
    ensures
        spec_is_companion_key(key),
{
    let p = id.push(SEPARATOR);
    assert(p[id.len() as int] == SEPARATOR);
    assert(key[id.len() as int] == p[id.len() as int]);
}

} // verus!
