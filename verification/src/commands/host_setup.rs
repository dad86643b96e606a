//! `orbit host add-key`: authorizing a client's SSH public key on the host.
//!
//! The application reads `~/.ssh/authorized_keys`, hands its text here, and
//! appends what comes back.

use vstd::prelude::*;
use crate::text::{
    chars_eq, chars_of, lemma_trim_idempotent, next_word, next_word_at, range_starts_with,
    starts_with, string_of, subrange_vec, trim, trim_chars, utf8_len, utf8_len_exceeds,
};

verus! {

/// Whether a key type names an SSH public key algorithm family orbit accepts.
pub open spec fn is_key_kind(kind: Seq<char>) -> bool {
    ||| starts_with(kind, "ssh-"@)
    ||| starts_with(kind, "ecdsa-"@)
    ||| starts_with(kind, "sk-"@)
}

/// A public key line: a key type word (`ssh-…`, `ecdsa-…` or `sk-…`) followed
/// by a key body word of more than 20 bytes.
pub open spec fn looks_like_key_spec(s: Seq<char>) -> bool {
    match next_word(s) {
        Some((kind, rest)) => match next_word(rest) {
            Some((body, _)) => is_key_kind(kind) && utf8_len(body) > 20,
            None => false,
        },
        None => false,
    }
}

/// Whether `s` looks like an SSH public key.
pub fn looks_like_key(s: &str) -> (r: bool)
    ensures
        r == looks_like_key_spec(s@),
{
    let v = chars_of(s);
    match next_word_at(&v, 0) {
        None => {
            proof {
                assert(v@.skip(0) == v@);
            }
            false
        },
        Some((a, e)) => {
            proof {
                assert(v@.skip(0) == v@);
            }
            match next_word_at(&v, e) {
                None => false,
                Some((c, d)) => {
                    let kind_ok = range_starts_with(&v, a, e, "ssh-") || range_starts_with(
                        &v,
                        a,
                        e,
                        "ecdsa-",
                    ) || range_starts_with(&v, a, e, "sk-");
                    kind_ok && utf8_len_exceeds(&v, c, d, 20)
                },
            }
        },
    }
}

/// The characters `s[a..b]` form one line: they are delimited by the start of
/// the text or a newline before, and the end of the text or a newline after.
pub open spec fn line_at(s: Seq<char>, a: int, b: int) -> bool {
    &&& 0 <= a <= b <= s.len()
    &&& a == 0 || s[a - 1] == '\n'
    &&& b == s.len() || s[b] == '\n'
    &&& forall|k: int| a <= k < b ==> s[k] != '\n'
}

/// Some line of `s`, trimmed, equals `key`.
pub open spec fn has_key_line(s: Seq<char>, key: Seq<char>) -> bool {
    exists|a: int, b: int| line_at(s, a, b) && #[trigger] trim(s.subrange(a, b)) == key
}

/// What is appended to authorize `key` after the existing text: a newline when
/// the text does not end in one, then the key and a newline.
pub open spec fn appended_text(existing: Seq<char>, key: Seq<char>) -> Seq<char> {
    if existing.len() > 0 && existing.last() != '\n' {
        seq!['\n'] + key + seq!['\n']
    } else {
        key + seq!['\n']
    }
}

/// Whether some line of `v`, trimmed, equals `key`.
pub fn has_key_line_exec(v: &Vec<char>, key: &Vec<char>) -> (r: bool)
    ensures
        r == has_key_line(v@, key@),
{
    let n = v.len();
    let mut start: usize = 0;
    let mut i: usize = 0;
    let mut found = false;
    while i < n
        invariant
            n == v@.len(),
            start <= i <= n,
            start == 0 || v@[start - 1] == '\n',
            forall|k: int| start <= k < i ==> v@[k] != '\n',
            found == (exists|a: int, b: int|
                #![trigger trim(v@.subrange(a, b))]
                line_at(v@, a, b) && b < i && trim(v@.subrange(a, b)) == key@),
        decreases n - i,
    {
        if v[i] == '\n' {
            let seg = subrange_vec(v, start, i);
            let t = trim_chars(&seg);
            let m = chars_eq(&t, key);
            proof {
                assert(line_at(v@, start as int, i as int));
                assert forall|a: int, b: int| line_at(v@, a, b) && b == i implies a == start by {
                    if a < start {
                        assert(v@[start - 1] == '\n');
                    }
                    if a > start {
                        assert(v@[a - 1] != '\n');
                    }
                }
            }
            if m {
                found = true;
            }
            start = i + 1;
        }
        i = i + 1;
    }
    let seg = subrange_vec(v, start, n);
    let t = trim_chars(&seg);
    let m = chars_eq(&t, key);
    proof {
        assert(line_at(v@, start as int, n as int));
        assert forall|a: int, b: int| line_at(v@, a, b) && b == n implies a == start by {
            if a < start {
                assert(v@[start - 1] == '\n');
            }
            if a > start {
                assert(v@[a - 1] != '\n');
            }
        }
    }
    found || m
}

/// Why a key cannot be authorized.
pub enum KeyError {
    /// The text is not an SSH public key.
    NotAKey,
}

impl KeyError {
    /// The message shown to the user.
    pub fn message(&self) -> (m: String)
        ensures
            m@ == "that doesn't look like an SSH public key.\nExpected something like: ssh-ed25519 AAAA... comment"@,
    {
        String::from_str(
            "that doesn't look like an SSH public key.\nExpected something like: ssh-ed25519 AAAA... comment",
        )
    }
}

/// What authorizing a key does to `authorized_keys`.
pub enum KeyUpdate {
    /// The key is already there: nothing to write.
    AlreadyAuthorized,
    /// Append this text to the file.
    Append(String),
}

/// Decide how to authorize `pubkey` given the current text of `authorized_keys`
/// (empty when the file does not exist). The key is trimmed first.
pub fn add_key(pubkey: &str, existing: &str) -> (r: Result<KeyUpdate, KeyError>)
    ensures
        r is Err <==> !looks_like_key_spec(trim(pubkey@)),
        r matches Ok(KeyUpdate::AlreadyAuthorized) <==> looks_like_key_spec(trim(pubkey@))
            && has_key_line(existing@, trim(pubkey@)),
        r matches Ok(KeyUpdate::Append(t)) ==> t@ == appended_text(existing@, trim(pubkey@)),
{
    let kv = trim_chars(&chars_of(pubkey));
    let key = string_of(&kv);
    if !looks_like_key(key.as_str()) {
        return Err(KeyError::NotAKey);
    }
    let ev = chars_of(existing);
    if has_key_line_exec(&ev, &kv) {
        return Ok(KeyUpdate::AlreadyAuthorized);
    }
    let mut out: Vec<char> = Vec::new();
    if ev.len() > 0 && ev[ev.len() - 1] != '\n' {
        out.push('\n');
    }
    let mut k = kv.clone();
    out.append(&mut k);
    out.push('\n');
    proof {
        if ev@.len() > 0 && ev@.last() != '\n' {
            assert(out@ =~= seq!['\n'] + kv@ + seq!['\n']);
        } else {
            assert(out@ =~= kv@ + seq!['\n']);
        }
    }
    Ok(KeyUpdate::Append(string_of(&out)))
}

/// Authorizing a key is idempotent: once the text that `add_key` asks to append
/// is appended, the key is found on a line of the file, so a second call reports
/// it as already authorized. (Holds for keys without a newline inside them.)
pub proof fn lemma_add_key_idempotent(pubkey: Seq<char>, existing: Seq<char>)
    requires
        looks_like_key_spec(trim(pubkey)),
        !trim(pubkey).contains('\n'),
    ensures
        has_key_line(existing + appended_text(existing, trim(pubkey)), trim(pubkey)),
{
    let key = trim(pubkey);
    let s = existing + appended_text(existing, key);
    let a: int = if existing.len() > 0 && existing.last() != '\n' {
        existing.len() + 1int
    } else {
        existing.len() as int
    };
    let b: int = a + key.len();
    lemma_trim_idempotent(pubkey);
    assert(s.subrange(a, b) =~= key);
    assert forall|k: int| a <= k < b implies s[k] != '\n' by {
        assert(s[k] == key[k - a]);
    }
    assert(line_at(s, a, b));
    assert(trim(s.subrange(a, b)) == key);
}

} // verus!
