//! What is computed from the answers of the window system: the path of a
//! window's program, whether that program is a game, and the window's title.
//! Asking the window system is left to the caller.

use vstd::prelude::*;
use vstd::slice::slice_subrange;

verus! {

/// The text that `String::from_utf16_lossy` decodes from `units`.
pub uninterp spec fn utf16_lossy(units: Seq<u16>) -> Seq<char>;

/// The text that `String::from_utf8_lossy` decodes from `bytes`.
pub uninterp spec fn utf8_lossy(bytes: Seq<u8>) -> Seq<char>;

/// Calls `String::from_utf16_lossy`, which decodes UTF-16 and puts U+FFFD in
/// place of what is not valid. The result is a function of the units alone.
#[verifier::external_body]
fn decode_utf16_lossy(units: &[u16]) -> (text: String)
    ensures
        text@ == utf16_lossy(units@),
{
    String::from_utf16_lossy(units)
}

/// Calls `String::from_utf8_lossy`, which decodes UTF-8 and puts U+FFFD in
/// place of what is not valid. The result is a function of the bytes alone.
#[verifier::external_body]
fn decode_utf8_lossy(bytes: &[u8]) -> (text: String)
    ensures
        text@ == utf8_lossy(bytes@),
{
    String::from_utf8_lossy(bytes).into_owned()
}

/// Whether `needle` occurs in `haystack` as a run of consecutive characters.
pub open spec fn has_text(haystack: Seq<char>, needle: Seq<char>) -> bool {
    exists|i: int|
        0 <= i && i + needle.len() <= haystack.len() && #[trigger] haystack.subrange(
            i,
            i + needle.len(),
        ) == needle
}

/// Calls `str::contains` with a string as the pattern: whether the pattern
/// matches a part of the text.
#[verifier::external_body]
fn str_contains(haystack: &str, needle: &str) -> (found: bool)
    ensures
        found == has_text(haystack@, needle@),
{
    haystack.contains(needle)
}

/// `text` with every `from` turned into `to`.
pub open spec fn with_char_replaced(text: Seq<char>, from: char, to: char) -> Seq<char> {
    Seq::new(text.len(), |i: int| if text[i] == from { to } else { text[i] })
}

/// Calls `str::replace` with a pattern of one character and a replacement of
/// one character: a new string in which every match of the pattern, that is
/// every such character, is replaced.
#[verifier::external_body]
fn str_replace(text: &str, from: &str, to: &str) -> (out: String)
    requires
        from@.len() == 1,
        to@.len() == 1,
    ensures
        out@ == with_char_replaced(text@, from@[0], to@[0]),
{
    text.replace(from, to)
}

/// The directory name that marks the path of a game.
pub open spec fn game_marker() -> Seq<char> {
    "steamapps"@
}

/// Whether the program behind a window is a game: its path is known and
/// names the game library's directory.
pub fn is_game(file_path: Option<&str>) -> (game: bool)
    ensures
        game == (file_path is Some && has_text(file_path.unwrap()@, game_marker())),
{
    match file_path {
        Some(path) => str_contains(path, "steamapps"),
        None => false,
    }
}

/// A path with forward slashes in place of backslashes.
pub fn normalize_separators(path: &str) -> (out: String)
    ensures
        out@ == with_char_replaced(path@, '\\', '/'),
{
    proof {
        reveal_strlit("\\");
        reveal_strlit("/");
    }
    str_replace(path, "\\", "/")
}

/// The path of a program from the UTF-16 units that the system wrote for
/// it: decoded leniently, with forward slashes.
pub fn file_path_from_units(units: &[u16]) -> (path: String)
    ensures
        path@ == with_char_replaced(utf16_lossy(units@), '\\', '/'),
{
    let decoded = decode_utf16_lossy(units);
    normalize_separators(decoded.as_str())
}

/// The length of `bytes` up to its first zero byte, or all of it if there is
/// none.
pub open spec fn nul_length(bytes: Seq<u8>) -> int
    decreases bytes.len(),
{
    if bytes.len() == 0 || bytes[0] == 0 {
        0
    } else {
        1 + nul_length(bytes.skip(1))
    }
}

/// The position of the first zero byte of `bytes`, or its length.
pub fn first_nul(bytes: &[u8]) -> (at: usize)
    ensures
        at == nul_length(bytes@),
        at <= bytes@.len(),
        forall|i: int| 0 <= i < at ==> bytes@[i] != 0,
        at < bytes@.len() ==> bytes@[at as int] == 0,
{
    let mut at: usize = 0;
    while at < bytes.len() && bytes[at] != 0
        invariant
            at <= bytes@.len(),
            forall|i: int| 0 <= i < at ==> bytes@[i] != 0,
        decreases bytes@.len() - at,
    {
        at = at + 1;
    }
    proof {
        lemma_nul_length(bytes@, at as int);
    }
    at
}

/// `nul_length` is the first position that holds a zero, or the length.
pub proof fn lemma_nul_length(bytes: Seq<u8>, at: int)
    requires
        0 <= at <= bytes.len(),
        forall|i: int| 0 <= i < at ==> bytes[i] != 0,
        at < bytes.len() ==> bytes[at] == 0,
    ensures
        nul_length(bytes) == at,
    decreases bytes.len(),
{
    if at > 0 {
        let rest = bytes.skip(1);
        assert forall|i: int| 0 <= i < at - 1 implies rest[i] != 0 by {
            assert(rest[i] == bytes[i + 1]);
        }
        lemma_nul_length(rest, at - 1);
    }
}

/// A window title as the caller sees it: none if the text is empty.
pub fn title_from_text(text: String) -> (title: Option<String>)
    ensures
        title == if text@.len() == 0 {
            None
        } else {
            Some(text)
        },
{
    if text.as_str().is_empty() {
        None
    } else {
        Some(text)
    }
}

/// The title of a window from the buffer that the system filled: the bytes
/// before the first zero, decoded leniently; none if that text is empty.
pub fn hwnd_to_string(buffer: &[u8]) -> (title: Option<String>)
    ensures
        title is Some <==> utf8_lossy(buffer@.take(nul_length(buffer@))).len() > 0,
        title is Some ==> title.unwrap()@ == utf8_lossy(buffer@.take(nul_length(buffer@))),
{
    let end = first_nul(buffer);
    let text = decode_utf8_lossy(slice_subrange(buffer, 0, end));
    title_from_text(text)
}

} // verus!
