//! How the inspection tool shows a decrypted value: a VSF document through its inspector's report,
//! printable text as text, anything else as hexadecimal digits.
//!
//! The inspector is asked outside this library. Its report, or its complaint, comes back in as an
//! argument.

use crate::args;
use crate::hex;
use crate::text::{chars_of, concat2};
use vstd::prelude::*;
use vstd::string::StringExecFns;

verus! {

/// `String::push` of the standard library appends the character to the string.
pub assume_specification[ String::push ](s: &mut String, ch: char)
    ensures
        final(s)@ == old(s)@.push(ch),
;

/// Calls `str::from_utf8` of the standard library.
///
/// Believed of it: it gives the text of the bytes exactly where they are valid UTF-8.
#[verifier::external_body]
fn utf8_text(bytes: &[u8]) -> (text: Option<String>)
    ensures
        match text {
            Some(s) => vstd::utf8::valid_utf8(bytes@) && s@ == vstd::utf8::decode_utf8(bytes@),
            None => !vstd::utf8::valid_utf8(bytes@),
        },
{
    std::str::from_utf8(bytes).ok().map(|s| s.to_string())
}

/// Whether `plain` starts like a VSF document.
pub open spec fn vsf_shaped(plain: Seq<u8>) -> bool {
    plain.len() >= 4 && plain[0] == 0x52 && plain[1] == 0xC3 && plain[2] == 0x85 && plain[3] == 0x3C
}

/// Whether `c` is a control character.
pub open spec fn is_control(c: char) -> bool {
    c <= '\u{1f}' || '\u{7f}' <= c <= '\u{9f}'
}

/// Whether a text can be shown as it is: no control characters but line feeds and tabs.
pub open spec fn printable(text: Seq<char>) -> bool {
    forall|i: int|
        0 <= i < text.len() ==> !is_control(#[trigger] text[i]) || text[i] == '\n' || text[i]
            == '\t'
}

/// Where the first line of `s` ends: at the first line feed, or at the end.
pub open spec fn line_end(s: Seq<char>) -> nat
    decreases s.len(),
{
    if s.len() == 0 || s[0] == '\n' {
        0
    } else {
        1 + line_end(s.skip(1))
    }
}

/// `line` without the carriage return before its line feed.
pub open spec fn without_return(line: Seq<char>) -> Seq<char> {
    if line.len() > 0 && line.last() == '\r' {
        line.drop_last()
    } else {
        line
    }
}

/// The lines of `s`, without what ends them. A line feed at the very end starts no further line.
pub open spec fn lines(s: Seq<char>) -> Seq<Seq<char>>
    decreases s.len(),
{
    if s.len() == 0 {
        Seq::empty()
    } else if line_end(s) >= s.len() {
        seq![s]
    } else {
        seq![without_return(s.take(line_end(s) as int))] + lines(s.skip(line_end(s) as int + 1))
    }
}

/// `line`, set in under its entry.
pub open spec fn indented(line: Seq<char>) -> Seq<char> {
    "    "@ + line
}

/// How bytes are shown that no inspector speaks for.
pub open spec fn plain_text(plain: Seq<u8>) -> Seq<char> {
    if vstd::utf8::valid_utf8(plain) && printable(vstd::utf8::decode_utf8(plain)) {
        indented(vstd::utf8::decode_utf8(plain))
    } else {
        indented("(binary; first 32 bytes hex: "@ + hex::hex_text(hex::preview(plain)) + ")"@)
    }
}

/// How a VSF-shaped value is shown, given what the inspector said of it: its report line by line;
/// or its complaint, and then the bytes.
pub open spec fn inspected_text(plain: Seq<u8>, report: Result<Seq<char>, Seq<char>>) -> Seq<
    Seq<char>,
> {
    match report {
        Ok(text) => lines(text).map_values(|line: Seq<char>| indented(line)),
        Err(complaint) => seq![
            indented("(VSF magic but inspect failed: "@ + complaint + ")"@),
            plain_text(plain),
        ],
    }
}

/// How to show a value.
pub enum Rendering {
    /// Ask the inspector, and show what it says.
    Inspect,
    /// Show this text.
    Show(String),
}

/// Whether `c` is a control character.
fn control(c: char) -> (is: bool)
    ensures
        is == is_control(c),
{
    c <= '\u{1f}' || ('\u{7f}' <= c && c <= '\u{9f}')
}

/// Whether a text can be shown as it is.
fn can_show(text: &str) -> (can: bool)
    ensures
        can == printable(text@),
{
    let chars = chars_of(text);
    for i in 0..chars.len()
        invariant
            chars@ == text@,
            forall|j: int|
                0 <= j < i ==> !is_control(#[trigger] text@[j]) || text@[j] == '\n' || text@[j]
                    == '\t',
    {
        let c = chars[i];
        if control(c) && c != '\n' && c != '\t' {
            assert(is_control(text@[i as int]));
            return false;
        }
    }
    true
}

/// The text for bytes that no inspector speaks for.
pub fn show_plain(plain: &[u8]) -> (shown: String)
    ensures
        shown@ == plain_text(plain@),
        ({
            let text = vstd::utf8::decode_utf8(plain@);
            let shows = vstd::utf8::valid_utf8(plain@) && forall|i: int|
                0 <= i < text.len() ==> ({
                    let code = #[trigger] text[i] as int;
                    code == 9 || code == 10 || 32 <= code < 127 || 160 <= code
                });
            shown@ == if shows {
                "    "@ + text
            } else {
                "    "@ + ("(binary; first 32 bytes hex: "@ + hex::hex_text(hex::preview(plain@))
                    + ")"@)
            }
        }),
{
    proof {
        text_is_shown_whole(plain@);
    }
    if let Some(text) = utf8_text(plain) {
        if can_show(text.as_str()) {
            return concat2("    ", text.as_str());
        }
    }
    let mut line = "(binary; first 32 bytes hex: ".to_owned();
    line.append(hex::hex_preview(plain).as_str());
    line.append(")");
    concat2("    ", line.as_str())
}

/// Decides how to show a value: what starts like a VSF document goes to the inspector.
pub fn render_value(plain: &[u8]) -> (rendering: Rendering)
    ensures
        rendering is Inspect <==> vsf_shaped(plain@),
        rendering matches Rendering::Show(text) ==> text@ == plain_text(plain@),
        rendering is Inspect <==> plain@.len() >= 4 && plain@.take(4) == seq![
            0x52u8,
            0xC3u8,
            0x85u8,
            0x3Cu8,
        ],
{
    proof {
        documents_start_with_their_magic(plain@);
    }
    if plain.len() >= 4 && plain[0] == 0x52 && plain[1] == 0xC3 && plain[2] == 0x85 && plain[3]
        == 0x3C {
        Rendering::Inspect
    } else {
        Rendering::Show(show_plain(plain))
    }
}

/// The lines of `text`, each set in under its entry.
fn indented_lines(text: &str) -> (shown: Vec<String>)
    ensures
        args::texts_seen(shown@) == lines(text@).map_values(|line: Seq<char>| indented(line)),
{
    let chars = chars_of(text);
    let ghost set_in = |line: Seq<char>| indented(line);
    let mut shown: Vec<String> = Vec::new();
    let mut start: usize = 0;
    assert(text@.skip(0) == text@);
    assert(args::texts_seen(shown@) + lines(text@).map_values(set_in) == lines(text@).map_values(
        set_in,
    ));
    while start < chars.len()
        invariant
            start <= chars@.len(),
            chars@ == text@,
            set_in == (|line: Seq<char>| indented(line)),
            lines(text@).map_values(set_in) == args::texts_seen(shown@) + lines(
                text@.skip(start as int),
            ).map_values(set_in),
        decreases chars@.len() - start,
    {
        let ghost rest = text@.skip(start as int);
        let ghost before = shown@;
        let mut line = "    ".to_owned();
        let mut end: usize = start;
        while end < chars.len() && chars[end] != '\n'
            invariant
                start <= end <= chars@.len(),
                chars@ == text@,
                line@ == "    "@ + text@.subrange(start as int, end as int),
                line_end(text@.skip(start as int)) == (end - start) + line_end(
                    text@.skip(end as int),
                ),
            decreases chars@.len() - end,
        {
            assert(text@.skip(end as int).skip(1) == text@.skip(end as int + 1));
            line.push(chars[end]);
            end = end + 1;
            assert(line@ == "    "@ + text@.subrange(start as int, end as int));
        }
        let ghost whole = text@.subrange(start as int, end as int);
        assert(line_end(rest) == end - start);
        if end == chars.len() {
            assert(whole == rest);
            assert(lines(rest) == seq![rest]);
            shown.push(line);
            assert(args::texts_seen(shown@) == args::texts_seen(before) + lines(rest).map_values(
                set_in,
            ));
            assert(lines(text@.skip(end as int)) == Seq::<Seq<char>>::empty());
            start = end;
        } else {
            assert(rest.take(line_end(rest) as int) == whole);
            assert(rest.skip(line_end(rest) as int + 1) == text@.skip(end as int + 1));
            if end > start && chars[end - 1] == '\r' {
                let mut bare = "    ".to_owned();
                for k in start..end - 1
                    invariant
                        start <= k <= end - 1 < chars@.len(),
                        chars@ == text@,
                        bare@ == "    "@ + text@.subrange(start as int, k as int),
                {
                    bare.push(chars[k]);
                    assert(bare@ == "    "@ + text@.subrange(start as int, k as int + 1));
                }
                assert(whole.drop_last() == text@.subrange(start as int, end - 1));
                shown.push(bare);
            } else {
                shown.push(line);
            }
            let ghost first = seq![without_return(whole)];
            let ghost later = lines(text@.skip(end as int + 1));
            assert(lines(rest) == first + later);
            assert(lines(rest).map_values(set_in) == first.map_values(set_in) + later.map_values(
                set_in,
            ));
            assert(args::texts_seen(shown@) == args::texts_seen(before) + first.map_values(set_in));
            start = end + 1;
        }
    }
    assert(lines(text@.skip(start as int)) == Seq::<Seq<char>>::empty());
    shown
}

/// The texts that show a VSF-shaped value, one after the other, given what the inspector said.
pub fn render_inspected(plain: &[u8], report: Result<String, String>) -> (shown: Vec<String>)
    ensures
        args::texts_seen(shown@) == inspected_text(
            plain@,
            match report {
                Ok(text) => Ok(text@),
                Err(complaint) => Err(complaint@),
            },
        ),
        match report {
            Ok(text) => {
                &&& shown@.len() == lines(text@).len()
                &&& forall|i: int|
                    0 <= i < shown@.len() ==> #[trigger] shown@[i]@ == "    "@ + lines(text@)[i]
            },
            Err(complaint) => {
                &&& shown@.len() == 2
                &&& shown@[0]@ == "    "@ + ("(VSF magic but inspect failed: "@ + complaint@ + ")"@)
                &&& shown@[1]@ == plain_text(plain@)
            },
        },
{
    match report {
        Ok(text) => {
            let shown = indented_lines(text.as_str());
            proof {
                let seen = args::texts_seen(shown@);
                assert(seen.len() == shown@.len());
                assert forall|i: int| 0 <= i < shown@.len() implies #[trigger] shown@[i]@ == "    "@
                    + lines(text@)[i] by {
                    assert(seen[i] == shown@[i]@);
                }
            }
            shown
        },
        Err(complaint) => {
            let mut line = "(VSF magic but inspect failed: ".to_owned();
            line.append(complaint.as_str());
            line.append(")");
            let mut shown: Vec<String> = Vec::new();
            shown.push(concat2("    ", line.as_str()));
            shown.push(show_plain(plain));
            assert(args::texts_seen(shown@) == inspected_text(
                plain@,
                Err::<Seq<char>, Seq<char>>(complaint@),
            ));
            shown
        },
    }
}

/// A VSF document is told by its first four bytes.
pub proof fn documents_start_with_their_magic(plain: Seq<u8>)
    ensures
        vsf_shaped(plain) <==> plain.len() >= 4 && plain.take(4) == seq![
            0x52u8,
            0xC3u8,
            0x85u8,
            0x3Cu8,
        ],
{
    let magic = seq![0x52u8, 0xC3u8, 0x85u8, 0x3Cu8];
    if plain.len() >= 4 {
        if vsf_shaped(plain) {
            assert(plain.take(4) == magic);
        }
        if plain.take(4) == magic {
            assert(plain.take(4)[0] == magic[0]);
            assert(plain.take(4)[1] == magic[1]);
            assert(plain.take(4)[2] == magic[2]);
            assert(plain.take(4)[3] == magic[3]);
        }
    }
}

/// Where a line without a line feed is followed by one, that is where it ends.
proof fn lines_end_at_the_line_feed(line: Seq<char>, rest: Seq<char>)
    requires
        !line.contains('\n'),
    ensures
        line_end(line + seq!['\n'] + rest) == line.len(),
        line_end(line) == line.len(),
    decreases line.len(),
{
    if line.len() > 0 {
        let shorter = line.skip(1);
        assert(line[0] != '\n');
        assert forall|i: int| 0 <= i < shorter.len() implies #[trigger] shorter[i] != '\n' by {
            assert(line[i + 1] == shorter[i]);
        }
        lines_end_at_the_line_feed(shorter, rest);
        assert((line + seq!['\n'] + rest).skip(1) == shorter + seq!['\n'] + rest);
    }
}

/// Lines are what lies between line feeds: a text without one is its only line; a line, a line feed
/// and more text are that line, but for a carriage return at its end, and then the lines of the rest;
/// and no text has no lines.
pub proof fn lines_lie_between_line_feeds(line: Seq<char>, rest: Seq<char>)
    requires
        !line.contains('\n'),
    ensures
        lines(Seq::<char>::empty()) == Seq::<Seq<char>>::empty(),
        line.len() > 0 ==> lines(line) == seq![line],
        !(line.len() > 0 && line.last() == '\r') ==> lines(line + seq!['\n'] + rest) == seq![line]
            + lines(rest),
        line.len() > 0 && line.last() == '\r' ==> lines(line + seq!['\n'] + rest)
            == seq![line.drop_last()] + lines(rest),
{
    let whole = line + seq!['\n'] + rest;
    lines_end_at_the_line_feed(line, rest);
    assert(whole.take(line.len() as int) == line);
    assert(whole.skip(line.len() as int + 1) == rest);
}

/// Bytes are shown as text exactly if they are text without control characters, line feeds and tabs
/// aside: then all of the text is shown, set in, and nothing else; otherwise their first bytes in
/// digits.
pub proof fn text_is_shown_whole(plain: Seq<u8>)
    ensures
        ({
            let text = vstd::utf8::decode_utf8(plain);
            let shows = vstd::utf8::valid_utf8(plain) && forall|i: int|
                0 <= i < text.len() ==> ({
                    let code = #[trigger] text[i] as int;
                    code == 9 || code == 10 || 32 <= code < 127 || 160 <= code
                });
            plain_text(plain) == if shows {
                "    "@ + text
            } else {
                "    "@ + ("(binary; first 32 bytes hex: "@ + hex::hex_text(hex::preview(plain))
                    + ")"@)
            }
        }),
{
    let text = vstd::utf8::decode_utf8(plain);
    if printable(text) {
        assert forall|i: int| 0 <= i < text.len() implies ({
            let code = #[trigger] text[i] as int;
            code == 9 || code == 10 || 32 <= code < 127 || 160 <= code
        }) by {
            assert(!is_control(text[i]) || text[i] == '\n' || text[i] == '\t');
        }
    }
}

/// An inspector's report is shown line for line, each set in; its complaint is shown before the bytes.
pub proof fn reports_are_shown_line_by_line(plain: Seq<u8>, report: Seq<char>, i: int)
    ensures
        inspected_text(plain, Ok(report)).len() == lines(report).len(),
        0 <= i < lines(report).len() ==> inspected_text(plain, Ok(report))[i] == "    "@ + lines(
            report,
        )[i],
        inspected_text(plain, Err(report)) == seq![
            "    "@ + ("(VSF magic but inspect failed: "@ + report + ")"@),
            plain_text(plain),
        ],
{
}

} // verus!
