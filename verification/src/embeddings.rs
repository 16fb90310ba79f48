//! The canonical embedding input of a document and the hashes that detect
//! when a document or its embedding input changed.
//!
//! Loading the model and computing vectors happen in the program around the
//! library: the vectors are floating point.

use unicode_normalization::UnicodeNormalization;
use vstd::prelude::*;

use crate::crypto::{sha256, sha256_spec};
use crate::text::{
    chars_of, is_white_space, lemma_trim_idempotent, lemma_trim_padded, lemma_trim_parts, push_all,
    string_from_chars, trim, trim_chars,
};

verus! {

/// Name of the embedding model used for indexed documents.
pub const MODEL_NAME: &'static str = "all-MiniLM-L6-v2";

/// The NFC normal form of `text`.
pub uninterp spec fn nfc_spec(text: Seq<char>) -> Seq<char>;

/// Calls `unicode_normalization::UnicodeNormalization::nfc`. Trusted: the result
/// is the NFC form of `text`, named by `nfc_spec`.
#[verifier::external_body]
fn nfc(text: &str) -> (r: String)
    ensures
        r@ == nfc_spec(text@),
{
    text.nfc().collect()
}

/// `s` with every `\r\n` turned into `\n` and every other `\r` into `\n`: what
/// `s.replace("\r\n", "\n").replace('\r', "\n")` gives.
pub open spec fn normalize_newlines(s: Seq<char>) -> Seq<char>
    decreases s.len(),
{
    if s.len() == 0 {
        s
    } else if s[0] == '\r' && s.len() > 1 && s[1] == '\n' {
        seq!['\n'] + normalize_newlines(s.skip(2))
    } else if s[0] == '\r' {
        seq!['\n'] + normalize_newlines(s.drop_first())
    } else {
        seq![s[0]] + normalize_newlines(s.drop_first())
    }
}

/// Normalizing splits at a boundary that does not cut a `\r\n` pair.
proof fn lemma_newlines_split(a: Seq<char>, b: Seq<char>)
    requires
        !(a.len() > 0 && a.last() == '\r' && b.len() > 0 && b[0] == '\n'),
    ensures
        normalize_newlines(a + b) == normalize_newlines(a) + normalize_newlines(b),
    decreases a.len(),
{
    let s = a + b;
    if a.len() == 0 {
        assert(s =~= b);
    } else {
        assert(s[0] == a[0]);
        if a[0] == '\r' && a.len() > 1 && a[1] == '\n' {
            assert(s[1] == a[1]);
            assert(a.skip(2).len() > 0 ==> a.skip(2).last() == a.last());
            lemma_newlines_split(a.skip(2), b);
            assert(s.skip(2) =~= a.skip(2) + b);
            assert(normalize_newlines(s) =~= normalize_newlines(a) + normalize_newlines(b));
        } else if a[0] == '\r' && a.len() == 1 {
            assert(s.drop_first() =~= b);
            assert(a.drop_first() =~= Seq::<char>::empty());
            assert(normalize_newlines(s) =~= normalize_newlines(a) + normalize_newlines(b));
        } else {
            if a.len() > 1 {
                assert(s[1] == a[1]);
            }
            assert(a.drop_first().len() > 0 ==> a.drop_first().last() == a.last());
            lemma_newlines_split(a.drop_first(), b);
            assert(s.drop_first() =~= a.drop_first() + b);
            assert(normalize_newlines(s) =~= normalize_newlines(a) + normalize_newlines(b));
        }
    }
}

/// Normalized text holds no `\r`.
proof fn lemma_newlines_no_cr(s: Seq<char>)
    ensures
        forall|k: int| 0 <= k < normalize_newlines(s).len() ==> #[trigger] normalize_newlines(s)[k] != '\r',
    decreases s.len(),
{
    if s.len() > 0 {
        let n = normalize_newlines(s);
        let rest = if s[0] == '\r' && s.len() > 1 && s[1] == '\n' {
            s.skip(2)
        } else {
            s.drop_first()
        };
        lemma_newlines_no_cr(rest);
        assert forall|k: int| 0 <= k < n.len() implies #[trigger] n[k] != '\r' by {
            if k > 0 {
                assert(n[k] == normalize_newlines(rest)[k - 1]);
            }
        }
    }
}

/// Text without `\r` is already normalized.
proof fn lemma_newlines_identity(s: Seq<char>)
    requires
        forall|k: int| 0 <= k < s.len() ==> #[trigger] s[k] != '\r',
    ensures
        normalize_newlines(s) == s,
    decreases s.len(),
{
    if s.len() > 0 {
        let t = s.drop_first();
        assert forall|k: int| 0 <= k < t.len() implies #[trigger] t[k] != '\r' by {
            assert(t[k] == s[k + 1]);
        }
        lemma_newlines_identity(t);
        assert(seq![s[0]] + t =~= s);
    }
}

/// Normalizing white space gives white space.
proof fn lemma_newlines_white(s: Seq<char>)
    requires
        forall|k: int| 0 <= k < s.len() ==> is_white_space(#[trigger] s[k]),
    ensures
        forall|k: int|
            0 <= k < normalize_newlines(s).len() ==> is_white_space(#[trigger] normalize_newlines(s)[k]),
    decreases s.len(),
{
    if s.len() > 0 {
        let n = normalize_newlines(s);
        if s[0] == '\r' && s.len() > 1 && s[1] == '\n' {
            let t = s.skip(2);
            assert forall|k: int| 0 <= k < t.len() implies is_white_space(#[trigger] t[k]) by {
                assert(t[k] == s[k + 2]);
            }
            lemma_newlines_white(t);
            assert forall|k: int| 0 <= k < n.len() implies is_white_space(#[trigger] n[k]) by {
                if k > 0 {
                    assert(n[k] == normalize_newlines(t)[k - 1]);
                }
            }
        } else {
            let t = s.drop_first();
            assert forall|k: int| 0 <= k < t.len() implies is_white_space(#[trigger] t[k]) by {
                assert(t[k] == s[k + 1]);
            }
            lemma_newlines_white(t);
            assert forall|k: int| 0 <= k < n.len() implies is_white_space(#[trigger] n[k]) by {
                if k > 0 {
                    assert(n[k] == normalize_newlines(t)[k - 1]);
                }
            }
        }
    }
}

/// Normalizing keeps a first and last character that are not white space.
proof fn lemma_newlines_ends(x: Seq<char>)
    requires
        x.len() > 0,
        !is_white_space(x[0]),
        !is_white_space(x.last()),
    ensures
        normalize_newlines(x).len() > 0,
        normalize_newlines(x)[0] == x[0],
        normalize_newlines(x).last() == x.last(),
{
    let init = x.drop_last();
    let end = seq![x.last()];
    assert(x =~= init + end);
    lemma_newlines_split(init, end);
    assert(is_white_space('\r'));
    assert(x.last() != '\r');
    assert(end.drop_first() =~= Seq::<char>::empty());
    assert(normalize_newlines(Seq::<char>::empty()) == Seq::<char>::empty());
    assert(normalize_newlines(end) =~= end);
}

/// Trimming after normalizing line endings is normalizing after trimming.
proof fn lemma_trim_newlines(t: Seq<char>)
    ensures
        trim(normalize_newlines(t)) == normalize_newlines(trim(t)),
{
    let (lead, trail) = lemma_trim_parts(t);
    let x = trim(t);
    lemma_newlines_white(lead);
    lemma_newlines_white(trail);
    if x.len() == 0 {
        assert(t =~= lead);
        assert(normalize_newlines(x) =~= Seq::<char>::empty());
        lemma_trim_padded(normalize_newlines(t), Seq::empty(), Seq::empty());
        assert(normalize_newlines(t) + Seq::<char>::empty() + Seq::<char>::empty() =~= normalize_newlines(t));
    } else {
        assert(lead + x + trail =~= lead + (x + trail));
        assert((x + trail)[0] == x[0]);
        lemma_newlines_split(lead, x + trail);
        lemma_newlines_split(x, trail);
        lemma_newlines_ends(x);
        assert(normalize_newlines(t) =~= normalize_newlines(lead) + normalize_newlines(x) + normalize_newlines(trail));
        lemma_trim_padded(normalize_newlines(lead), normalize_newlines(x), normalize_newlines(trail));
    }
}

/// The normalized raw input, piece by piece.
proof fn lemma_raw_pieces(title: Seq<char>, content: Seq<char>)
    ensures
        normalize_newlines(raw_embedding_input(title, content)) == "Title: "@ + normalize_newlines(trim(title))
            + "\n\nContent:\n"@ + normalize_newlines(trim(content)),
{
    reveal_strlit("Title: ");
    reveal_strlit("\n\nContent:\n");
    let p = "Title: "@;
    let sep = "\n\nContent:\n"@;
    let x = trim(title);
    let y = trim(content);
    lemma_trim_parts(title);
    lemma_trim_parts(content);
    assert(x.len() > 0 ==> x.last() != '\r');
    lemma_newlines_split(sep, y);
    lemma_newlines_split(x, sep + y);
    lemma_newlines_split(p, x + (sep + y));
    lemma_newlines_identity(p);
    lemma_newlines_identity(sep);
    assert(raw_embedding_input(title, content) =~= p + (x + (sep + y)));
    assert(normalize_newlines(raw_embedding_input(title, content)) =~= p + normalize_newlines(x) + sep
        + normalize_newlines(y));
}

/// The canonical input of a document does not change when its title or
/// content is trimmed first, or has its line endings normalized first.
pub proof fn canonical_input_ignores_trimming_and_line_endings(title: Seq<char>, content: Seq<char>)
    ensures
        canonical_input_spec(title, content) == canonical_input_spec(trim(title), trim(content)),
        canonical_input_spec(title, content) == canonical_input_spec(
            normalize_newlines(title),
            normalize_newlines(content),
        ),
{
    lemma_trim_idempotent(title);
    lemma_trim_idempotent(content);
    assert(raw_embedding_input(title, content) =~= raw_embedding_input(trim(title), trim(content)));
    let nt = normalize_newlines(title);
    let nc = normalize_newlines(content);
    lemma_trim_newlines(title);
    lemma_trim_newlines(content);
    lemma_raw_pieces(title, content);
    lemma_raw_pieces(nt, nc);
    lemma_newlines_no_cr(trim(title));
    lemma_newlines_no_cr(trim(content));
    lemma_newlines_identity(normalize_newlines(trim(title)));
    lemma_newlines_identity(normalize_newlines(trim(content)));
    assert(normalize_newlines(raw_embedding_input(nt, nc)) =~= normalize_newlines(
        raw_embedding_input(title, content),
    ));
}

/// The text that names a document to the embedding model, before normalization.
pub open spec fn raw_embedding_input(title: Seq<char>, content: Seq<char>) -> Seq<char> {
    "Title: "@ + trim(title) + "\n\nContent:\n"@ + trim(content)
}

/// The canonical embedding input of a document with this title and content.
pub open spec fn canonical_input_spec(title: Seq<char>, content: Seq<char>) -> Seq<char> {
    nfc_spec(normalize_newlines(raw_embedding_input(title, content)))
}

/// The UTF-8 bytes of `s`.
pub open spec fn utf8(s: Seq<char>) -> Seq<u8> {
    vstd::utf8::encode_utf8(s)
}

/// The lower-case hexadecimal digit for `d`.
pub open spec fn hex_digit(d: int) -> char {
    if d < 10 {
        ((d + 48) as u32) as char
    } else {
        ((d + 87) as u32) as char
    }
}

/// Two lower-case hexadecimal digits per byte, most significant first.
pub open spec fn hex_text(bytes: Seq<u8>) -> Seq<char>
    decreases bytes.len(),
{
    if bytes.len() == 0 {
        Seq::empty()
    } else {
        hex_text(bytes.drop_last()).push(hex_digit((bytes.last() / 16) as int)).push(
            hex_digit((bytes.last() % 16) as int),
        )
    }
}

/// The hash of the canonical embedding input of a document.
pub open spec fn embedding_input_hash_spec(title: Seq<char>, content: Seq<char>) -> Seq<char> {
    hex_text(sha256_spec(utf8(canonical_input_spec(title, content))))
}

/// The hash of a document's content.
pub open spec fn content_hash_spec(content: Seq<char>) -> Seq<char> {
    hex_text(sha256_spec(utf8(content)))
}

/// `s` with its line endings normalized.
fn normalize_newline_chars(s: &[char]) -> (r: Vec<char>)
    ensures
        r@ == normalize_newlines(s@),
{
    let mut r: Vec<char> = Vec::new();
    let mut i: usize = 0;
    assert(s@.skip(0) =~= s@);
    while i < s.len()
        invariant
            i <= s@.len(),
            r@ + normalize_newlines(s@.skip(i as int)) == normalize_newlines(s@),
        decreases s@.len() - i,
    {
        let ghost rest = s@.skip(i as int);
        if s[i] == '\r' && i + 1 < s.len() && s[i + 1] == '\n' {
            assert(rest[0] == '\r' && rest[1] == '\n');
            assert(rest.skip(2) =~= s@.skip(i + 2));
            r.push('\n');
            i = i + 2;
        } else if s[i] == '\r' {
            assert(rest[0] == '\r');
            assert(rest.drop_first() =~= s@.skip(i + 1));
            r.push('\n');
            i = i + 1;
        } else {
            assert(rest[0] == s@[i as int]);
            assert(rest.drop_first() =~= s@.skip(i + 1));
            r.push(s[i]);
            i = i + 1;
        }
        assert(r@ + normalize_newlines(s@.skip(i as int)) =~= normalize_newlines(s@));
    }
    assert(s@.skip(i as int) =~= Seq::<char>::empty());
    assert(r@ + Seq::<char>::empty() =~= r@);
    r
}

/// Builds the normalized text passed to the embedding model.
pub fn canonical_embedding_input(title: &str, content: &str) -> (r: String)
    ensures
        r@ == canonical_input_spec(title@, content@),
{
    let mut raw: Vec<char> = chars_of("Title: ");
    let t = trim_chars(chars_of(title).as_slice());
    push_all(&mut raw, t.as_slice());
    let sep = chars_of("\n\nContent:\n");
    push_all(&mut raw, sep.as_slice());
    let c = trim_chars(chars_of(content).as_slice());
    push_all(&mut raw, c.as_slice());
    let normalized = normalize_newline_chars(raw.as_slice());
    let text = string_from_chars(normalized.as_slice());
    nfc(text.as_str())
}

/// Lower-case hexadecimal text of `bytes`.
fn hex_encode(bytes: &[u8]) -> (r: String)
    ensures
        r@ == hex_text(bytes@),
{
    let mut v: Vec<char> = Vec::new();
    let mut i: usize = 0;
    while i < bytes.len()
        invariant
            i <= bytes@.len(),
            v@ == hex_text(bytes@.take(i as int)),
        decreases bytes@.len() - i,
    {
        let b = bytes[i];
        let hi = b / 16;
        let lo = b % 16;
        let hc = if hi < 10 {
            crate::text::char_from_ascii(hi + 48)
        } else {
            crate::text::char_from_ascii(hi + 87)
        };
        let lc = if lo < 10 {
            crate::text::char_from_ascii(lo + 48)
        } else {
            crate::text::char_from_ascii(lo + 87)
        };
        v.push(hc);
        v.push(lc);
        assert(bytes@.take(i + 1).drop_last() =~= bytes@.take(i as int));
        i = i + 1;
    }
    assert(bytes@.take(bytes@.len() as int) =~= bytes@);
    string_from_chars(v.as_slice())
}

/// Hashes the normalized embedding input for change detection.
pub fn embedding_input_hash(title: &str, content: &str) -> (r: String)
    ensures
        r@ == embedding_input_hash_spec(title@, content@),
{
    let canonical = canonical_embedding_input(title, content);
    let digest = sha256(canonical.as_str().as_bytes());
    hex_encode(digest.as_slice())
}

/// Hashes document content for persistence and change detection.
pub fn content_hash(content: &str) -> (r: String)
    ensures
        r@ == content_hash_spec(content@),
{
    let digest = sha256(content.as_bytes());
    hex_encode(digest.as_slice())
}

} // verus!
