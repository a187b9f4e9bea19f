//! Where a node's local IPC sockets stand.
//!
//! Socket paths have to be short, and shared directories may stand deep: so a short alias is
//! derived from the shared directory, the same one for every process that shares it.

use crate::config::TestSpecConfig;
use crate::text;
use sha2::{Digest, Sha256};
use vstd::prelude::*;

verus! {

/// Hexadecimal digits of the digest that the alias keeps.
pub const SHORT_ID_LEN: usize = 20;

/// The SHA-256 digest of some bytes.
pub uninterp spec fn sha256(data: Seq<u8>) -> Seq<u8>;

/// Calls `sha2::Sha256::digest`. The digest is a function of the bytes alone, and 32 bytes long.
#[verifier::external_body]
fn sha256_digest(data: &[u8]) -> (digest: Vec<u8>)
    ensures
        digest@ == sha256(data@),
        digest@.len() == 32,
{
    Sha256::digest(data).to_vec()
}

/// A hexadecimal digit, in lower case.
pub open spec fn hex_digit(d: int) -> char {
    if d < 10 {
        ('0' as u32 + d as u32) as char
    } else {
        ('a' as u32 + (d - 10) as u32) as char
    }
}

/// Each byte as two hexadecimal digits, the higher one first.
pub open spec fn hex_text(data: Seq<u8>) -> Seq<char>
    decreases data.len(),
{
    if data.len() == 0 {
        Seq::empty()
    } else {
        hex_text(data.drop_last()).push(hex_digit(data.last() as int / 16)).push(
            hex_digit(data.last() as int % 16),
        )
    }
}

/// Calls `hex::encode`, which writes each byte as two hexadecimal digits in lower case.
#[verifier::external_body]
fn hex_encode(data: &[u8]) -> (encoded: String)
    ensures
        encoded@ == hex_text(data@),
{
    hex::encode(data)
}

proof fn lemma_hex_text_len(data: Seq<u8>)
    ensures
        hex_text(data).len() == 2 * data.len(),
    decreases data.len(),
{
    if data.len() > 0 {
        lemma_hex_text_len(data.drop_last());
    }
}

/// The alias for a shared directory with this digest.
pub open spec fn ipc_root_for_digest(digest: Seq<u8>) -> Seq<char> {
    "/tmp/fluxon_ipc/"@ + hex_text(digest).take(SHORT_ID_LEN as int)
}

/// The alias for a shared directory with this digest.
pub fn short_ipc_root(digest: &[u8]) -> (root: String)
    requires
        2 * digest@.len() >= SHORT_ID_LEN,
    ensures
        root@ == ipc_root_for_digest(digest@),
{
    let digest_hex = hex_encode(digest);
    proof {
        lemma_hex_text_len(digest@);
    }
    let short_id = text::first_chars(digest_hex.as_str(), SHORT_ID_LEN);
    "/tmp/fluxon_ipc/".to_owned().concat(short_id.as_str())
}

/// Why no alias can be derived.
#[derive(Clone, Copy, PartialEq, Eq, Structural, Debug)]
pub enum LocalIpcRootError {
    /// share_mem_path cannot be empty
    EmptyShareMemPath,
}

/// A shared directory has to be named before it is created and looked up.
pub fn check_share_mem_path(share_mem_path: &str) -> (result: Result<(), LocalIpcRootError>)
    ensures
        result == if text::blank(share_mem_path@) {
            Err::<(), LocalIpcRootError>(LocalIpcRootError::EmptyShareMemPath)
        } else {
            Ok(())
        },
{
    if text::is_blank(share_mem_path) {
        return Err(LocalIpcRootError::EmptyShareMemPath);
    }
    Ok(())
}

/// The alias for a shared directory, from its canonical path.
pub open spec fn ipc_root_of(canonical_text: Seq<char>) -> Seq<char> {
    ipc_root_for_digest(sha256(vstd::utf8::encode_utf8(canonical_text)))
}

/// A path of 36 bytes in the directory for local IPC: it goes on with 20 hexadecimal digits in lower
/// case.
pub open spec fn is_short_alias(root: Seq<char>) -> bool {
    &&& root.len() == 36
    &&& vstd::utf8::encode_utf8(root).len() == 36
    &&& root.take(16) == "/tmp/fluxon_ipc/"@
    &&& forall|i: int| 16 <= i < 36 ==> '0' <= #[trigger] root[i] <= '9' || 'a' <= root[i] <= 'f'
}

/// Derives the alias for a shared directory from its canonical path. However long the path is, the
/// alias has 36 bytes.
pub fn derive_short_local_ipc_root(canonical_text: &str) -> (root: String)
    ensures
        root@ == ipc_root_of(canonical_text@),
        is_short_alias(root@),
{
    let digest = sha256_digest(canonical_text.as_bytes());
    proof {
        law_alias_is_short(digest@);
    }
    short_ipc_root(digest.as_slice())
}

/// The directory for local IPC that a node publishes: none where local IPC is switched off.
pub fn cluster_manager_local_ipc_root(
    canonical_text: &str,
    test_spec_config: &TestSpecConfig,
) -> (root: Option<String>)
    ensures
        if test_spec_config.disable_local_ipc {
            root is None
        } else {
            root matches Some(root) && root@ == ipc_root_of(canonical_text@) && is_short_alias(root@)
        },
{
    if test_spec_config.disable_local_ipc {
        return None;
    }
    Some(derive_short_local_ipc_root(canonical_text))
}

proof fn lemma_hex_text_digits(data: Seq<u8>)
    ensures
        forall|i: int|
            0 <= i < hex_text(data).len() ==> '0' <= #[trigger] hex_text(data)[i] <= '9' || 'a'
                <= hex_text(data)[i] <= 'f',
    decreases data.len(),
{
    if data.len() > 0 {
        lemma_hex_text_digits(data.drop_last());
        lemma_hex_digit(data.last() as int / 16);
        lemma_hex_digit(data.last() as int % 16);
        let before = hex_text(data.drop_last());
        assert forall|i: int| 0 <= i < hex_text(data).len() implies '0' <= #[trigger] hex_text(
            data,
        )[i] <= '9' || 'a' <= hex_text(data)[i] <= 'f' by {
            if i < before.len() {
                assert(hex_text(data)[i] == before[i]);
            }
        }
    }
}

proof fn lemma_hex_digit(d: int)
    requires
        0 <= d < 16,
    ensures
        '0' <= hex_digit(d) <= '9' || 'a' <= hex_digit(d) <= 'f',
{
}

/// The alias that is made of a digest is short, so that socket names fit behind it.
pub proof fn law_alias_is_short(digest: Seq<u8>)
    requires
        2 * digest.len() >= SHORT_ID_LEN,
    ensures
        is_short_alias(ipc_root_for_digest(digest)),
{
    reveal_strlit("/tmp/fluxon_ipc/");
    lemma_hex_text_len(digest);
    lemma_hex_text_digits(digest);
    let root = ipc_root_for_digest(digest);
    let prefix = "/tmp/fluxon_ipc/"@;
    assert(root.take(16) =~= prefix);
    assert forall|i: int| 16 <= i < 36 implies '0' <= #[trigger] root[i] <= '9' || 'a' <= root[i]
        <= 'f' by {
        assert(root[i] == hex_text(digest)[i - 16]);
    }
    assert(vstd::utf8::is_ascii_chars(root)) by {
        assert forall|i: int| 0 <= i < root.len() implies '\0' <= #[trigger] root[i]
            <= '\u{7f}' by {
            if i < 16 {
                assert(root[i] == prefix[i]);
            }
        }
    }
    vstd::utf8::is_ascii_chars_encode_utf8(root);
}

} // verus!
