//! Shared handling for user-supplied images (avatars, market and outcome
//! thumbnails): what an upload has to be, and the deterministic key it is
//! stored under.

use vstd::prelude::*;

use crate::error::DomainError;
use crate::text::{decimal, decimal_text, same_text, signed_decimal, signed_decimal_text};

verus! {

/// Allowed image content types and the file extension each is stored under.
pub const ALLOWED_TYPES: [(&'static str, &'static str); 3] = [
    ("image/png", "png"),
    ("image/jpeg", "jpg"),
    ("image/webp", "webp"),
];

/// How `std` writes a text with `{:?}`: quoted, with escapes.
pub uninterp spec fn debug_quoted(s: Seq<char>) -> Seq<char>;

/// `format!("{s:?}")`.
#[verifier::external_body]
fn debug_text(s: &str) -> (r: String)
    ensures
        r@ == debug_quoted(s@),
{
    format!("{s:?}")
}

/// The extension an allowed content type is stored under.
pub open spec fn extension_for(content_type: Seq<char>) -> Option<Seq<char>> {
    if content_type == ALLOWED_TYPES[0].0@ {
        Some(ALLOWED_TYPES[0].1@)
    } else if content_type == ALLOWED_TYPES[1].0@ {
        Some(ALLOWED_TYPES[1].1@)
    } else if content_type == ALLOWED_TYPES[2].0@ {
        Some(ALLOWED_TYPES[2].1@)
    } else {
        None
    }
}

pub open spec fn unsupported_type_text(kind: Seq<char>, content_type: Seq<char>) -> Seq<char> {
    "unsupported "@ + kind + " content type: "@ + debug_quoted(content_type)
        + " (allowed: png, jpeg, webp)"@
}

pub open spec fn empty_file_text(kind: Seq<char>) -> Seq<char> {
    kind + " file is empty"@
}

pub open spec fn too_large_text(kind: Seq<char>, max_bytes: nat) -> Seq<char> {
    kind + " exceeds "@ + decimal(max_bytes) + " bytes"@
}

/// Checks the content type and size of an upload, returning the extension it
/// should be stored under. `kind` names the image in error messages. The
/// type is checked first, then emptiness, then size.
pub fn validate(kind: &str, content_type: &str, bytes: &[u8], max_bytes: usize) -> (r: Result<
    &'static str,
    DomainError,
>)
    ensures
        match extension_for(content_type@) {
            None => r matches Err(DomainError::Validation(m)) && m@ == unsupported_type_text(
                kind@,
                content_type@,
            ),
            Some(ext) => if bytes@.len() == 0 {
                r matches Err(DomainError::Validation(m)) && m@ == empty_file_text(kind@)
            } else if bytes@.len() > max_bytes {
                r matches Err(DomainError::Validation(m)) && m@ == too_large_text(
                    kind@,
                    max_bytes as nat,
                )
            } else {
                r matches Ok(e) && e@ == ext
            },
        },
{
    let mut ext: Option<&'static str> = None;
    let mut i: usize = 0;
    while i < 3
        invariant
            i <= 3,
            match ext {
                Some(e) => extension_for(content_type@) == Some(e@),
                None => forall|j: int| 0 <= j < i ==> content_type@ != (#[trigger] ALLOWED_TYPES[j]).0@,
            },
        decreases 3 - i,
    {
        if ext.is_none() && same_text(ALLOWED_TYPES[i].0, content_type) {
            ext = Some(ALLOWED_TYPES[i].1);
        }
        i = i + 1;
    }
    let ext = match ext {
        Some(e) => e,
        None => {
            assert(content_type@ != ALLOWED_TYPES[0].0@);
            assert(content_type@ != ALLOWED_TYPES[1].0@);
            assert(content_type@ != ALLOWED_TYPES[2].0@);
            let mut m = String::from_str("unsupported ");
            m.append(kind);
            m.append(" content type: ");
            m.append(debug_text(content_type).as_str());
            m.append(" (allowed: png, jpeg, webp)");
            return Err(DomainError::Validation(m));
        },
    };
    if bytes.len() == 0 {
        let mut m = String::from_str(kind);
        m.append(" file is empty");
        return Err(DomainError::Validation(m));
    }
    if bytes.len() > max_bytes {
        let mut m = String::from_str(kind);
        m.append(" exceeds ");
        m.append(decimal_text(max_bytes as u64).as_str());
        m.append(" bytes");
        return Err(DomainError::Validation(m));
    }
    Ok(ext)
}

/// The key a file is stored under: `<folder>/<owner>.<ext>`.
pub open spec fn key_of(folder: Seq<char>, owner: Seq<char>, ext: Seq<char>) -> Seq<char> {
    folder + "/"@ + owner + "."@ + ext
}

pub fn storage_key(folder: &str, owner: &str, ext: &str) -> (r: String)
    ensures
        r@ == key_of(folder@, owner@, ext@),
{
    let mut k = String::from_str(folder);
    k.append("/");
    k.append(owner);
    k.append(".");
    k.append(ext);
    k
}

/// The keys of the other allowed extensions below `n`, in the table's order.
pub open spec fn stale_keys_below(folder: Seq<char>, owner: Seq<char>, ext: Seq<char>, n: int) -> Seq<Seq<char>>
    decreases n,
{
    if n <= 0 || n > 3 {
        Seq::empty()
    } else if ALLOWED_TYPES[n - 1].1@ == ext {
        stale_keys_below(folder, owner, ext, n - 1)
    } else {
        stale_keys_below(folder, owner, ext, n - 1).push(key_of(folder, owner, ALLOWED_TYPES[n - 1].1@))
    }
}

pub open spec fn texts(v: Seq<String>) -> Seq<Seq<char>> {
    v.map_values(|s: String| s@)
}

/// The keys an upload stored under `ext` makes stale: the same owner's file
/// under every other allowed extension, which is removed before the new one
/// is written, so re-uploading in another format leaves one file.
pub fn stale_keys(folder: &str, owner: &str, ext: &str) -> (r: Vec<String>)
    ensures
        texts(r@) == stale_keys_below(folder@, owner@, ext@, 3),
{
    let mut r: Vec<String> = Vec::new();
    let mut i: usize = 0;
    while i < 3
        invariant
            i <= 3,
            texts(r@) == stale_keys_below(folder@, owner@, ext@, i as int),
        decreases 3 - i,
    {
        let other = ALLOWED_TYPES[i].1;
        if !same_text(other, ext) {
            let ghost before = r@;
            r.push(storage_key(folder, owner, other));
            assert(texts(r@) =~= texts(before).push(key_of(folder@, owner@, other@)));
        }
        i = i + 1;
    }
    r
}

pub open spec fn versioned_url_of(public_url: Seq<char>, timestamp: int) -> Seq<char> {
    public_url + "?v="@ + signed_decimal(timestamp)
}

/// The URL clients fetch a stored file from, with the upload's time in
/// seconds appended so a cached copy of the previous file is not reused.
pub fn versioned_url(public_url: &str, timestamp: i64) -> (r: String)
    ensures
        r@ == versioned_url_of(public_url@, timestamp as int),
{
    let mut u = String::from_str(public_url);
    u.append("?v=");
    u.append(signed_decimal_text(timestamp).as_str());
    u
}

proof fn lemma_key_determines_extension(folder: Seq<char>, owner: Seq<char>, a: Seq<char>, b: Seq<char>)
    requires
        key_of(folder, owner, a) == key_of(folder, owner, b),
    ensures
        a == b,
{
    let prefix = folder + "/"@ + owner + "."@;
    assert(key_of(folder, owner, a) == prefix + a);
    assert(key_of(folder, owner, b) == prefix + b);
    assert(a =~= (prefix + a).subrange(prefix.len() as int, (prefix + a).len() as int));
    assert(b =~= (prefix + b).subrange(prefix.len() as int, (prefix + b).len() as int));
}

proof fn lemma_stale_keys_below(folder: Seq<char>, owner: Seq<char>, ext: Seq<char>, n: int)
    requires
        0 <= n <= 3,
    ensures
        !stale_keys_below(folder, owner, ext, n).contains(key_of(folder, owner, ext)),
        forall|k: int|
            0 <= k < n && ALLOWED_TYPES[k].1@ != ext ==> stale_keys_below(folder, owner, ext, n).contains(
                key_of(folder, owner, #[trigger] ALLOWED_TYPES[k].1@),
            ),
    decreases n,
{
    if n > 0 {
        lemma_stale_keys_below(folder, owner, ext, n - 1);
        let prev = stale_keys_below(folder, owner, ext, n - 1);
        let e = ALLOWED_TYPES[n - 1].1@;
        if e != ext {
            let cur = prev.push(key_of(folder, owner, e));
            assert(cur == stale_keys_below(folder, owner, ext, n));
            if cur.contains(key_of(folder, owner, ext)) {
                let w = choose|w: int| 0 <= w < cur.len() && cur[w] == key_of(folder, owner, ext);
                if w < prev.len() {
                    assert(prev[w] == cur[w]);
                } else {
                    lemma_key_determines_extension(folder, owner, e, ext);
                }
            }
            assert forall|k: int| 0 <= k < n && ALLOWED_TYPES[k].1@ != ext implies cur.contains(
                key_of(folder, owner, #[trigger] ALLOWED_TYPES[k].1@),
            ) by {
                if k < n - 1 {
                    let w = choose|w: int| 0 <= w < prev.len() && prev[w] == key_of(
                        folder,
                        owner,
                        ALLOWED_TYPES[k].1@,
                    );
                    assert(cur[w] == prev[w]);
                } else {
                    assert(cur[cur.len() - 1] == key_of(folder, owner, e));
                }
            }
        }
    }
}

/// Storing an upload under one extension clears the owner's file under every
/// other allowed extension and never the one being written, so exactly one
/// variant of an owner's image is left.
pub proof fn one_variant_per_owner(folder: Seq<char>, owner: Seq<char>, ext: Seq<char>)
    ensures
        !stale_keys_below(folder, owner, ext, 3).contains(key_of(folder, owner, ext)),
        forall|k: int|
            0 <= k < 3 && ALLOWED_TYPES[k].1@ != ext ==> stale_keys_below(folder, owner, ext, 3).contains(
                key_of(folder, owner, #[trigger] ALLOWED_TYPES[k].1@),
            ),
{
    lemma_stale_keys_below(folder, owner, ext, 3);
}

} // verus!
