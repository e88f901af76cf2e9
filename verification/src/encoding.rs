//! Encoding handling: trusted decoders for the three byte layouts, and the
//! resolution of an encoding label (as the encoding oracle reports it) into
//! the mode the indexer scans with.

use vstd::prelude::*;

use crate::indexer::EncodingMode;

verus! {

/// What `String::from_utf8_lossy` returns for these bytes.
pub uninterp spec fn utf8_lossy_decoded(bytes: Seq<u8>) -> Seq<char>;

/// What `encoding_rs::UTF_16LE.decode` returns for these bytes.
pub uninterp spec fn utf16le_decoded(bytes: Seq<u8>) -> Seq<char>;

/// What `encoding_rs::UTF_16BE.decode` returns for these bytes.
pub uninterp spec fn utf16be_decoded(bytes: Seq<u8>) -> Seq<char>;

/// Whether every byte is plain ASCII.
pub open spec fn all_ascii(bytes: Seq<u8>) -> bool {
    forall|i: int| 0 <= i < bytes.len() ==> bytes[i] < 0x80
}

/// The characters the ASCII bytes stand for, one per byte.
pub open spec fn ascii_chars(bytes: Seq<u8>) -> Seq<char> {
    bytes.map_values(|b: u8| b as char)
}

/// Relies on `String::from_utf8_lossy`: the result is a function of the
/// bytes alone; invalid sequences become replacement characters, and valid
/// UTF-8 decodes to itself, so all-ASCII input maps byte for byte to its
/// own characters.  Every output character consumes at least one input
/// byte, so the output is no longer than the input.
#[verifier::external_body]
pub fn decode_utf8_lossy(bytes: &[u8]) -> (r: String)
    ensures
        r@ == utf8_lossy_decoded(bytes@),
        all_ascii(bytes@) ==> r@ == ascii_chars(bytes@),
        r@.len() <= bytes@.len(),
{
    String::from_utf8_lossy(bytes).into_owned()
}

/// Relies on `encoding_rs::UTF_16LE.decode`: the result is a function of
/// the bytes alone (its own BOM handling included).  Every output
/// character consumes at least one input byte (a code unit is two bytes; a
/// trailing lone byte yields one replacement character), so the output is
/// no longer than the input.
#[verifier::external_body]
pub fn decode_utf16le(bytes: &[u8]) -> (r: String)
    ensures
        r@ == utf16le_decoded(bytes@),
        r@.len() <= bytes@.len(),
{
    let (decoded, _encoding, _had_errors) = encoding_rs::UTF_16LE.decode(bytes);
    decoded.into_owned()
}

/// Relies on `encoding_rs::UTF_16BE.decode`: the result is a function of
/// the bytes alone (its own BOM handling included).  Every output
/// character consumes at least one input byte, so the output is no longer
/// than the input.
#[verifier::external_body]
pub fn decode_utf16be(bytes: &[u8]) -> (r: String)
    ensures
        r@ == utf16be_decoded(bytes@),
        r@.len() <= bytes@.len(),
{
    let (decoded, _encoding, _had_errors) = encoding_rs::UTF_16BE.decode(bytes);
    decoded.into_owned()
}

/// What a window of bytes decodes to under each mode.
pub open spec fn spec_decode(mode: EncodingMode, bytes: Seq<u8>) -> Seq<char> {
    match mode {
        EncodingMode::AsciiCompatible => utf8_lossy_decoded(bytes),
        EncodingMode::Utf16LE => utf16le_decoded(bytes),
        EncodingMode::Utf16BE => utf16be_decoded(bytes),
    }
}

/// Decode a window of bytes according to the mode.
pub fn decode_window(mode: EncodingMode, bytes: &[u8]) -> (r: String)
    ensures
        r@ == spec_decode(mode, bytes@),
        r@.len() <= bytes@.len(),
        mode is AsciiCompatible && all_ascii(bytes@) ==> r@ == ascii_chars(bytes@),
{
    match mode {
        EncodingMode::AsciiCompatible => decode_utf8_lossy(bytes),
        EncodingMode::Utf16LE => decode_utf16le(bytes),
        EncodingMode::Utf16BE => decode_utf16be(bytes),
    }
}

/// What the encoding table answers for a label: `None` when no encoding
/// carries it, else whether that encoding is ASCII-compatible.  The WHATWG
/// label table is fixed, so the answer is a function of the label alone.
pub uninterp spec fn ascii_compat_of(label: Seq<char>) -> Option<bool>;

/// Relies on `encoding_rs::Encoding::for_label` and
/// `Encoding::is_ascii_compatible`: one lookup in the fixed WHATWG label
/// table, named `ascii_compat_of`.
#[verifier::external_body]
fn query_ascii_compatible(label: &str) -> (r: Option<bool>)
    ensures
        r == ascii_compat_of(label@),
{
    match encoding_rs::Encoding::for_label(label.as_bytes()) {
        None => None,
        Some(enc) => Some(enc.is_ascii_compatible()),
    }
}

/// Ask the encoding table about a label: `None` when no encoding carries
/// it, else whether that encoding is ASCII-compatible.
pub fn label_ascii_compatible(label: &str) -> (r: Option<bool>)
    ensures
        r == ascii_compat_of(label@),
{
    query_ascii_compatible(label)
}

/// Case-insensitive match of one character against a lowercase target.
pub open spec fn eqic_char(c: char, target: char) -> bool {
    c == target || ('A' <= c <= 'Z' && c as int + 32 == target as int)
}

/// ASCII-case-insensitive equality of a label against a lowercase target.
pub open spec fn label_is(label: Seq<char>, target: Seq<char>) -> bool {
    label.len() == target.len() && forall|i: int|
        0 <= i < label.len() ==> eqic_char(label[i], target[i])
}

/// ASCII-case-insensitive comparison against a lowercase target string.
pub fn label_matches(label: &str, target: &str) -> (r: bool)
    ensures
        r == label_is(label@, target@),
{
    let n = label.unicode_len();
    if n != target.unicode_len() {
        return false;
    }
    let mut i: usize = 0;
    while i < n
        invariant
            i <= n,
            n == label@.len(),
            n == target@.len(),
            forall|j: int| 0 <= j < i ==> eqic_char(label@[j], target@[j]),
        decreases n - i,
    {
        let c = label.get_char(i);
        let t = target.get_char(i);
        let ok = c == t || ('A' <= c && c <= 'Z' && (c as u32) + 32 == t as u32);
        if !ok {
            assert(!eqic_char(label@[i as int], target@[i as int]));
            return false;
        }
        i = i + 1;
    }
    true
}

/// Whether the oracle reports a label as supported: one of the UTF-16
/// labels, or a label whose encoding is ASCII-compatible.
pub fn label_supported(label: &str, ascii_compatible: Option<bool>) -> (r: bool)
    ensures
        r == (label_is(label@, "utf-16be"@) || label_is(label@, "utf-16le"@) || label_is(
            label@,
            "utf-16"@,
        ) || ascii_compatible == Some(true)),
{
    label_matches(label, "utf-16be") || label_matches(label, "utf-16le") || label_matches(
        label,
        "utf-16",
    ) || ascii_compatible == Some(true)
}

/// How an encoding label resolves, given whether the label is known and
/// whether its encoding is ASCII-compatible (`None` when unknown): known
/// ASCII-compatible labels scan as ASCII; the UTF-16 labels pick their
/// variant, plain "utf-16" defaulting to little-endian; everything else is
/// an error naming the label.
pub open spec fn spec_mode_for_label(label: Seq<char>, ascii_compatible: Option<bool>) -> Result<
    EncodingMode,
    Seq<char>,
> {
    match ascii_compatible {
        None => Err("Unknown encoding label: "@ + label),
        Some(true) => Ok(EncodingMode::AsciiCompatible),
        Some(false) => {
            if label_is(label, "utf-16le"@) {
                Ok(EncodingMode::Utf16LE)
            } else if label_is(label, "utf-16be"@) {
                Ok(EncodingMode::Utf16BE)
            } else if label_is(label, "utf-16"@) {
                Ok(EncodingMode::Utf16LE)
            } else {
                Err("Unsupported file encoding: "@ + label)
            }
        },
    }
}

/// Resolve a label into a scan mode, given what the encoding table said of
/// it.
pub fn mode_for_label(label: &str, ascii_compatible: Option<bool>) -> (r: Result<
    EncodingMode,
    String,
>)
    ensures
        match (r, spec_mode_for_label(label@, ascii_compatible)) {
            (Ok(m), Ok(sm)) => m == sm,
            (Err(e), Err(se)) => e@ == se,
            _ => false,
        },
{
    match ascii_compatible {
        None => {
            let mut msg = String::new();
            msg.append("Unknown encoding label: ");
            msg.append(label);
            Err(msg)
        },
        Some(true) => Ok(EncodingMode::AsciiCompatible),
        Some(false) => {
            if label_matches(label, "utf-16le") {
                Ok(EncodingMode::Utf16LE)
            } else if label_matches(label, "utf-16be") {
                Ok(EncodingMode::Utf16BE)
            } else if label_matches(label, "utf-16") {
                Ok(EncodingMode::Utf16LE)
            } else {
                let mut msg = String::new();
                msg.append("Unsupported file encoding: ");
                msg.append(label);
                Err(msg)
            }
        },
    }
}

/// Resolve the encoding oracle's answer into a scan mode.  An unsupported
/// encoding is coerced to ASCII-compatible (the second component reports
/// the coercion, so the caller can emit its info event); a supported label
/// resolves exactly as the encoding table's answer for it dictates.
pub fn resolve_encoding(label: &str, is_supported: bool) -> (r: Result<(EncodingMode, bool), String>)
    ensures
        !is_supported ==> r == Ok::<(EncodingMode, bool), String>((
            EncodingMode::AsciiCompatible,
            true,
        )),
        is_supported ==> match (r, spec_mode_for_label(label@, ascii_compat_of(label@))) {
            (Ok((m, coerced)), Ok(sm)) => m == sm && !coerced,
            (Err(e), Err(se)) => e@ == se,
            _ => false,
        },
{
    if !is_supported {
        return Ok((EncodingMode::AsciiCompatible, true));
    }
    let ascii_compatible = query_ascii_compatible(label);
    match mode_for_label(label, ascii_compatible) {
        Ok(m) => Ok((m, false)),
        Err(e) => Err(e),
    }
}

} // verus!
