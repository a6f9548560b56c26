//! The wire of a language server: frames, messages and open documents.

use crate::json::{
    json_of_text, json_text, object1, object2, object3, parse_json, reads_back, render_json,
    text_value, Json, JsonView, READ_BACK_DEPTH,
};
use crate::lsp::diagnostics::{diagnostic_views, Diagnostic, DiagnosticView, Severity};
use crate::text::{
    begins_with, chars_of, concat, decimal, digit, digits_value, find_chars, find_from, is_digit,
    lemma_find_from, opt_text, parse_number, parsed_number, push_decimal, push_line, skip_chars,
    strip_prefix, text_of, texts, trim, trim_back, trim_front, trimmed, without_prefix,
};
use vstd::prelude::*;
use vstd::slice::slice_subrange;
use vstd::utf8::{
    decode_utf8, encode_utf8, encode_utf8_decode_utf8, encode_utf8_valid_utf8, is_ascii_chars,
    is_ascii_chars_encode_utf8, valid_utf8,
};

verus! {

/// `std::str::from_utf8`: the text that bytes encode, where they are UTF-8.
#[verifier::external_body]
fn utf8_text(bytes: &[u8]) -> (r: Option<String>)
    ensures
        opt_text(r) == (if valid_utf8(bytes@) {
            Some(decode_utf8(bytes@))
        } else {
            None
        }),
{
    std::str::from_utf8(bytes).ok().map(String::from)
}

/// The end of a header stands at `i`: two line breaks.
pub open spec fn header_ends_at(buf: Seq<u8>, i: int) -> bool {
    0 <= i && i + 4 <= buf.len() && buf[i] == 13 && buf[i + 1] == 10 && buf[i + 2] == 13 && buf[i
        + 3] == 10
}

/// The first place at or behind `from` where a header ends.
pub open spec fn header_end(buf: Seq<u8>, from: int) -> Option<int>
    decreases buf.len() - from,
{
    if from < 0 || from + 4 > buf.len() {
        None
    } else if header_ends_at(buf, from) {
        Some(from)
    } else {
        header_end(buf, from + 1)
    }
}

/// The lines of a header.
pub open spec fn header_lines(s: Seq<char>) -> Seq<Seq<char>>
    decreases s.len(),
{
    match find_from(s, "\r\n"@, 0) {
        Some(i) => if 0 <= i && i + 2 <= s.len() {
            seq![s.take(i)] + header_lines(s.skip(i + 2))
        } else {
            seq![s]
        },
        None => seq![s],
    }
}

/// What the first `n` lines of a header say of the length of the content: the
/// last line about it counts, also where it holds no number.
pub open spec fn content_length(lines: Seq<Seq<char>>, n: nat) -> Option<nat>
    decreases n,
{
    if n == 0 {
        None
    } else {
        match without_prefix(lines[n - 1], "Content-Length:"@) {
            Some(rest) => parsed_number(trimmed(rest), usize::MAX as nat),
            None => content_length(lines, (n - 1) as nat),
        }
    }
}

/// Where the content of the first frame starts, and how long it is.
pub open spec fn first_header(buf: Seq<u8>) -> Option<(int, nat)> {
    match header_end(buf, 0) {
        Some(pos) => {
            let header = buf.take(pos);
            if valid_utf8(header) {
                let lines = header_lines(decode_utf8(header));
                match content_length(lines, lines.len()) {
                    Some(n) => Some((pos + 4, n)),
                    None => None,
                }
            } else {
                None
            }
        },
        None => None,
    }
}

fn split_header(s: &str) -> (r: Vec<String>)
    ensures
        texts(r@) == header_lines(s@),
{
    let mut rest = chars_of(s);
    let pat = chars_of("\r\n");
    let mut out: Vec<String> = Vec::new();
    proof {
        reveal_strlit("\r\n");
        assert(texts(out@) + header_lines(s@) =~= header_lines(s@));
    }
    loop
        invariant
            pat@ == "\r\n"@,
            "\r\n"@.len() == 2,
            texts(out@) + header_lines(rest@) == header_lines(s@),
        decreases rest@.len(),
    {
        let ghost before = texts(out@);
        let ghost now = rest@;
        proof {
            lemma_find_from(rest@, "\r\n"@, 0);
        }
        match find_chars(&rest, &pat, 0) {
            Some(i) => {
                let piece = text_of(&rest, 0, i);
                proof {
                    assert(piece@ =~= now.take(i as int));
                }
                push_line(&mut out, piece);
                assert(i + 2 <= rest.len());
                rest = skip_chars(&rest, i + 2);
                proof {
                    assert(before + (seq![piece@] + header_lines(rest@)) =~= texts(out@)
                        + header_lines(rest@));
                }
            },
            None => {
                let piece = text_of(&rest, 0, rest.len());
                proof {
                    assert(piece@ =~= now);
                }
                push_line(&mut out, piece);
                proof {
                    assert(before + seq![piece@] =~= texts(out@));
                }
                return out;
            },
        }
    }
}

/// Where the content of the first frame starts, and how long it is; nothing
/// while the header is not complete or holds no length.
pub fn parse_header(buf: &[u8]) -> (r: Option<(usize, usize)>)
    ensures
        match r {
            Some((start, len)) => first_header(buf@) == Some((start as int, len as nat)),
            None => first_header(buf@) is None,
        },
{
    let mut pos: usize = 0;
    loop
        invariant
            pos <= buf@.len(),
            header_end(buf@, 0) == header_end(buf@, pos as int),
        ensures
            header_end(buf@, 0) == Some(pos as int),
            pos + 4 <= buf@.len(),
        decreases buf@.len() - pos,
    {
        if buf.len() - pos < 4 {
            return None;
        }
        if buf[pos] == 13 && buf[pos + 1] == 10 && buf[pos + 2] == 13 && buf[pos + 3] == 10 {
            break;
        }
        pos += 1;
    }
    assert(pos + 4 <= buf.len());
    let head = slice_subrange(buf, 0, pos);
    proof {
        assert(head@ =~= buf@.take(pos as int));
    }
    let header = match utf8_text(head) {
        Some(text) => text,
        None => return None,
    };
    let lines = split_header(header.as_str());
    let ghost all = texts(lines@);
    let mut found: Option<usize> = None;
    let mut i: usize = 0;
    while i < lines.len()
        invariant
            i <= lines@.len(),
            all == texts(lines@),
            match found {
                Some(n) => content_length(all, i as nat) == Some(n as nat),
                None => content_length(all, i as nat) is None,
            },
        decreases lines@.len() - i,
    {
        assert(all[i as int] == lines@[i as int]@);
        if let Some(rest) = strip_prefix(lines[i].as_str(), "Content-Length:") {
            let number = trim(rest.as_str());
            found = match parse_number(number.as_str(), usize::MAX as u64) {
                Some(n) => Some(n as usize),
                None => None,
            };
        }
        i += 1;
    }
    assert(all.len() == lines@.len());
    match found {
        Some(n) => Some((pos + 4, n)),
        None => None,
    }
}

/// The contents of the frames that are complete, in order.
pub open spec fn contents(buf: Seq<u8>) -> Seq<Seq<u8>>
    decreases buf.len(),
{
    match first_header(buf) {
        Some((start, len)) => if 0 < start && start + len <= buf.len() {
            seq![buf.subrange(start, start + len)] + contents(buf.skip(start + len))
        } else {
            Seq::empty()
        },
        None => Seq::empty(),
    }
}

/// What is left behind the frames that are complete.
pub open spec fn left_over(buf: Seq<u8>) -> Seq<u8>
    decreases buf.len(),
{
    match first_header(buf) {
        Some((start, len)) => if 0 < start && start + len <= buf.len() {
            left_over(buf.skip(start + len))
        } else {
            buf
        },
        None => buf,
    }
}

/// The message that a content holds, where it is JSON.
pub open spec fn message_of(content: Seq<u8>) -> Option<JsonView> {
    if valid_utf8(content) {
        json_of_text(decode_utf8(content))
    } else {
        None
    }
}

/// The messages in the first `n` contents; one that is not JSON is passed over.
pub open spec fn messages_in(list: Seq<Seq<u8>>, n: nat) -> Seq<JsonView>
    decreases n,
{
    if n == 0 {
        Seq::empty()
    } else {
        let before = messages_in(list, (n - 1) as nat);
        match message_of(list[n - 1]) {
            Some(v) => before.push(v),
            None => before,
        }
    }
}

/// The messages that a list of contents holds.
pub open spec fn all_messages(list: Seq<Seq<u8>>) -> Seq<JsonView> {
    messages_in(list, list.len())
}

/// The views of a list of messages.
pub open spec fn message_views(list: Seq<Json>) -> Seq<JsonView> {
    list.map_values(|j: Json| j@)
}

proof fn lemma_messages_split(one: Seq<u8>, rest: Seq<Seq<u8>>, n: nat)
    requires
        n <= rest.len(),
    ensures
        messages_in(seq![one] + rest, n + 1) == messages_in(seq![one], 1) + messages_in(rest, n),
    decreases n,
{
    reveal_with_fuel(messages_in, 2);
    let list = seq![one] + rest;
    if n > 0 {
        lemma_messages_split(one, rest, (n - 1) as nat);
        assert(list[n as int] == rest[n - 1]);
        assert(messages_in(list, n + 1) =~= messages_in(seq![one], 1) + messages_in(rest, n));
    } else {
        assert(list[0] == one);
        assert(messages_in(list, 1) =~= messages_in(seq![one], 1) + messages_in(rest, 0));
    }
}

/// Takes the messages out of what a server wrote so far. What is left is the
/// beginning of a frame that is not complete yet.
pub fn take_messages(buf: &mut Vec<u8>) -> (r: Vec<Json>)
    ensures
        message_views(r@) == all_messages(contents(old(buf)@)),
        final(buf)@ == left_over(old(buf)@),
{
    let ghost whole = buf@;
    let mut out: Vec<Json> = Vec::new();
    let mut from: usize = 0;
    proof {
        assert(whole.skip(0) =~= whole);
        assert(message_views(out@) =~= Seq::empty());
        assert(all_messages(contents(whole)) =~= message_views(out@) + all_messages(
            contents(whole),
        ));
    }
    loop
        invariant
            buf@ == whole,
            from <= buf@.len(),
            all_messages(contents(whole)) == message_views(out@) + all_messages(
                contents(whole.skip(from as int)),
            ),
            left_over(whole) == left_over(whole.skip(from as int)),
        ensures
            from <= buf@.len(),
            all_messages(contents(whole)) == message_views(out@),
            left_over(whole) == whole.skip(from as int),
        decreases buf@.len() - from,
    {
        let ghost rest = whole.skip(from as int);
        let tail = slice_subrange(buf.as_slice(), from, buf.len());
        assert(tail@ =~= rest);
        let (start, len) = match parse_header(tail) {
            Some(found) => found,
            None => {
                proof {
                    assert(message_views(out@) + all_messages(contents(rest)) =~= message_views(
                        out@,
                    ));
                }
                break;
            },
        };
        proof {
            lemma_header_end(rest, 0);
        }
        if tail.len() < start || tail.len() - start < len {
            proof {
                assert(message_views(out@) + all_messages(contents(rest)) =~= message_views(out@));
            }
            break;
        }
        let content = slice_subrange(tail, start, start + len);
        let ghost one = rest.subrange(start as int, start + len);
        let ghost before = message_views(out@);
        proof {
            assert(content@ =~= one);
            reveal_with_fuel(messages_in, 2);
        }
        if let Some(text) = utf8_text(content) {
            if let Some(message) = parse_json(text.as_str()) {
                out.push(message);
                proof {
                    assert(message_views(out@) =~= before.push(message@));
                }
            }
        }
        proof {
            let next = rest.skip(start + len);
            assert(next =~= whole.skip(from + start + len));
            lemma_messages_split(one, contents(next), contents(next).len());
            assert(contents(rest) == seq![one] + contents(next));
            assert(message_views(out@) =~= before + messages_in(seq![one], 1));
            assert(before + (messages_in(seq![one], 1) + all_messages(contents(next)))
                =~= message_views(out@) + all_messages(contents(next)));
        }
        from = from + start + len;
    }
    let mut kept: Vec<u8> = Vec::new();
    let mut i: usize = from;
    while i < buf.len()
        invariant
            from <= i <= buf@.len(),
            kept@ == buf@.subrange(from as int, i as int),
        decreases buf@.len() - i,
    {
        kept.push(buf[i]);
        i += 1;
    }
    proof {
        assert(kept@ =~= whole.skip(from as int));
    }
    *buf = kept;
    out
}

proof fn lemma_header_end(buf: Seq<u8>, from: int)
    requires
        0 <= from,
    ensures
        match header_end(buf, from) {
            Some(i) => from <= i && header_ends_at(buf, i) && forall|j: int|
                from <= j < i ==> !header_ends_at(buf, j),
            None => forall|j: int| from <= j ==> !header_ends_at(buf, j),
        },
    decreases buf.len() - from,
{
    if from + 4 > buf.len() {
    } else if header_ends_at(buf, from) {
    } else {
        lemma_header_end(buf, from + 1);
    }
}

/// The header of a frame.
pub open spec fn frame_header(len: nat) -> Seq<char> {
    "Content-Length: "@ + decimal(len) + "\r\n\r\n"@
}

/// A frame: the header, then the content.
pub open spec fn framed(content: Seq<u8>) -> Seq<u8> {
    encode_utf8(frame_header(content.len())) + content
}

fn push_bytes(out: &mut Vec<u8>, bytes: &[u8])
    ensures
        final(out)@ == old(out)@ + bytes@,
{
    let ghost start = out@;
    let mut i: usize = 0;
    while i < bytes.len()
        invariant
            i <= bytes@.len(),
            out@ == start + bytes@.take(i as int),
        decreases bytes@.len() - i,
    {
        out.push(bytes[i]);
        proof {
            assert(start + bytes@.take(i + 1) =~= (start + bytes@.take(i as int)).push(
                bytes@[i as int],
            ));
        }
        i += 1;
    }
    proof {
        assert(bytes@.take(bytes@.len() as int) =~= bytes@);
    }
}

/// A frame: the header, then the content.
pub fn frame(content: &[u8]) -> (r: Vec<u8>)
    ensures
        r@ == framed(content@),
{
    let mut header = "Content-Length: ".to_owned();
    push_decimal(&mut header, content.len() as u64);
    header.append("\r\n\r\n");
    let mut out: Vec<u8> = Vec::new();
    push_bytes(&mut out, header.as_str().as_bytes());
    push_bytes(&mut out, content);
    proof {
        assert(out@ =~= framed(content@));
    }
    out
}

/// The bytes that are written for a message. Whoever reads them gets the message
/// back, and goes on with what follows.
pub fn frame_message(message: &Json) -> (r: Vec<u8>)
    ensures
        r@ == framed(encode_utf8(json_text(message@))),
        reads_back(message@, READ_BACK_DEPTH as nat) ==> forall|rest: Seq<u8>|
            all_messages(contents(#[trigger] (r@ + rest))) == seq![message@] + all_messages(
                contents(rest),
            ),
{
    let body = render_json(message);
    let bytes = body.as_str().as_bytes();
    let length: usize = bytes.len();
    let r = frame(bytes);
    proof {
        assert(encode_utf8(body@).len() == length);
        if reads_back(message@, READ_BACK_DEPTH as nat) {
            assert forall|rest: Seq<u8>|
                all_messages(contents(#[trigger] (r@ + rest))) == seq![message@] + all_messages(
                    contents(rest),
                ) by {
                law_messages_are_read_back(body@, rest);
            }
        }
    }
    r
}

proof fn lemma_decimal(n: nat)
    ensures
        decimal(n).len() > 0,
        forall|i: int| 0 <= i < decimal(n).len() ==> is_digit(#[trigger] decimal(n)[i]),
        digits_value(decimal(n)) == Some(n),
    decreases n,
{
    if n < 10 {
        assert(decimal(n) =~= seq![digit(n)]);
        assert(decimal(n).drop_last() =~= Seq::empty());
        assert(decimal(n).last() == digit(n));
        assert(digits_value(Seq::<char>::empty()) == Some(0nat));
    } else {
        lemma_decimal(n / 10);
        assert(decimal(n).drop_last() =~= decimal(n / 10));
        assert(decimal(n).last() == digit(n % 10));
    }
}

/// What a server or a client writes as a frame is read back as one, whatever
/// follows it: the content comes out, and what follows is read next.
pub proof fn law_frames_are_read_back(content: Seq<u8>, rest: Seq<u8>)
    requires
        content.len() <= usize::MAX,
    ensures
        contents(framed(content) + rest) == seq![content] + contents(rest),
        left_over(framed(content) + rest) == left_over(rest),
{
    let n = content.len();
    let buf = framed(content) + rest;
    let text = frame_header(n);
    let told = "Content-Length: "@ + decimal(n);
    let end = "\r\n\r\n"@;
    lemma_decimal(n);
    reveal_strlit("Content-Length: ");
    reveal_strlit("\r\n\r\n");
    assert(is_ascii_chars(text)) by {
        assert forall|i: int| 0 <= i < text.len() implies '\0' <= #[trigger] text[i]
            <= '\u{7f}' by {
            if 16 <= i < 16 + decimal(n).len() {
                assert(text[i] == decimal(n)[i - 16]);
                assert(is_digit(decimal(n)[i - 16]));
            }
        }
    }
    is_ascii_chars_encode_utf8(text);
    let pos = told.len() as int;
    let bytes = encode_utf8(text);
    assert(bytes.len() == pos + 4);
    assert forall|i: int| 0 <= i < pos implies #[trigger] buf[i] != 13 by {
        assert(buf[i] == bytes[i]);
        assert(bytes[i] == text[i] as u8);
        if i >= 16 {
            assert(text[i] == decimal(n)[i - 16]);
            assert(is_digit(decimal(n)[i - 16]));
        }
    }
    assert(header_ends_at(buf, pos)) by {
        assert(buf[pos] == bytes[pos] && bytes[pos] == text[pos] as u8 && text[pos] == '\r');
        assert(buf[pos + 1] == bytes[pos + 1] && bytes[pos + 1] == text[pos + 1] as u8 && text[pos
            + 1] == '\n');
        assert(buf[pos + 2] == bytes[pos + 2] && bytes[pos + 2] == text[pos + 2] as u8 && text[pos
            + 2] == '\r');
        assert(buf[pos + 3] == bytes[pos + 3] && bytes[pos + 3] == text[pos + 3] as u8 && text[pos
            + 3] == '\n');
    }
    lemma_header_end(buf, 0);
    assert(header_end(buf, 0) == Some(pos)) by {
        match header_end(buf, 0) {
            Some(i) => {
                if i < pos {
                    assert(buf[i] != 13);
                } else if i > pos {
                    assert(!header_ends_at(buf, pos));
                }
            },
            None => {
                assert(!header_ends_at(buf, pos));
            },
        }
    }
    // The header is the text without the line breaks.
    assert(is_ascii_chars(told)) by {
        assert forall|i: int| 0 <= i < told.len() implies '\0' <= #[trigger] told[i]
            <= '\u{7f}' by {
            assert(told[i] == text[i]);
        }
    }
    is_ascii_chars_encode_utf8(told);
    assert(buf.take(pos) =~= encode_utf8(told)) by {
        assert forall|i: int| 0 <= i < pos implies buf.take(pos)[i] == #[trigger] encode_utf8(
            told,
        )[i] by {
            assert(told[i] == text[i]);
            assert(encode_utf8(told)[i] == told[i] as u8);
            assert(bytes[i] == text[i] as u8);
        }
    }
    encode_utf8_valid_utf8(told);
    encode_utf8_decode_utf8(told);
    lemma_one_line(told, n);
    assert(first_header(buf) == Some((pos + 4, n)));
    assert(buf.subrange(pos + 4, pos + 4 + n) =~= content);
    assert(buf.skip(pos + 4 + n) =~= rest);
}

/// A text that is written as a frame comes out as the message that it holds,
/// before the messages of what follows.
pub proof fn law_messages_are_read_back(text: Seq<char>, rest: Seq<u8>)
    requires
        encode_utf8(text).len() <= usize::MAX,
    ensures
        all_messages(contents(framed(encode_utf8(text)) + rest)) == (match json_of_text(text) {
            Some(message) => seq![message],
            None => Seq::empty(),
        }) + all_messages(contents(rest)),
{
    let content = encode_utf8(text);
    law_frames_are_read_back(content, rest);
    encode_utf8_valid_utf8(text);
    encode_utf8_decode_utf8(text);
    lemma_messages_split(content, contents(rest), contents(rest).len());
    reveal_with_fuel(messages_in, 2);
    assert(messages_in(seq![content], 1) =~= match json_of_text(text) {
        Some(message) => seq![message],
        None => Seq::empty(),
    });
}

proof fn lemma_one_line(told: Seq<char>, n: nat)
    requires
        told == "Content-Length: "@ + decimal(n),
        n <= usize::MAX,
    ensures
        content_length(header_lines(told), header_lines(told).len()) == Some(n),
{
    lemma_decimal(n);
    let d = decimal(n);
    reveal_strlit("Content-Length: ");
    reveal_strlit("Content-Length:");
    reveal_strlit("\r\n");
    lemma_find_from(told, "\r\n"@, 0);
    assert(find_from(told, "\r\n"@, 0) is None) by {
        match find_from(told, "\r\n"@, 0) {
            Some(i) => {
                assert(told.subrange(i, i + 2)[0] == "\r\n"@[0]);
                assert(told[i] == '\r');
                if i >= 16 {
                    assert(told[i] == d[i - 16]);
                    assert(is_digit(d[i - 16]));
                }
            },
            None => {},
        }
    }
    assert(header_lines(told) =~= seq![told]);
    let key = "Content-Length:"@;
    let rest = seq![' '] + d;
    assert(told =~= key + rest);
    assert(told.subrange(0, key.len() as int) =~= key);
    assert(without_prefix(told, key) == Some(rest)) by {
        assert(told.skip(key.len() as int) =~= rest);
        assert(begins_with(told, key));
    }
    assert(trim_front(rest) == d) by {
        reveal_with_fuel(trim_front, 2);
        assert(rest.skip(1) =~= d);
        assert(is_digit(d[0]));
    }
    assert(trim_back(d) == d) by {
        assert(is_digit(d[d.len() - 1]));
    }
    assert(parsed_number(d, usize::MAX as nat) == Some(n)) by {
        assert(is_digit(d[0]));
    }
    reveal_with_fuel(content_length, 2);
}

/// The address of a file. `path` is free of links where the file exists.
pub open spec fn uri_of(path: Seq<char>) -> Seq<char> {
    if begins_with(path, "/"@) {
        "file://"@ + path
    } else {
        "file:///"@ + path
    }
}

/// The address of a file, by its path without links.
pub fn uri_from_path(path: &str) -> (r: String)
    ensures
        r@ == uri_of(path@),
{
    if crate::text::starts_with(path, "/") {
        concat("file://", path)
    } else {
        concat("file:///", path)
    }
}

/// The path that an address of a file names.
pub fn path_from_uri(uri: &str) -> (r: Option<String>)
    ensures
        opt_text(r) == without_prefix(uri@, "file://"@),
{
    strip_prefix(uri, "file://")
}

/// The address of a path from the root leads back to that path; that of another
/// path leads to the same path from the root.
pub proof fn law_addresses_lead_back(path: Seq<char>)
    ensures
        without_prefix(uri_of(path), "file://"@) == Some(
            if begins_with(path, "/"@) {
                path
            } else {
                "/"@ + path
            },
        ),
{
    reveal_strlit("file://");
    reveal_strlit("file:///");
    reveal_strlit("/");
    let key = "file://"@;
    let uri = uri_of(path);
    assert(uri.subrange(0, key.len() as int) =~= key);
    if begins_with(path, "/"@) {
        assert(uri.skip(key.len() as int) =~= path);
    } else {
        assert(uri.skip(key.len() as int) =~= "/"@ + path);
    }
}

/// A number of a document, cut to 32 bits and counted from one.
pub open spec fn counted_from_one(n: u64) -> int {
    (n % 0x1_0000_0000) + 1
}

/// The line that a remark is about, as the server counts.
pub open spec fn line_of(d: JsonView) -> Option<u64> {
    match d.field("range"@) {
        Some(range) => match range.field("start"@) {
            Some(start) => match start.field("line"@) {
                Some(v) => v.unsigned(),
                None => None,
            },
            None => None,
        },
        None => None,
    }
}

/// The column that a remark is about, as the server counts.
pub open spec fn column_of(d: JsonView) -> Option<u64> {
    match d.field("range"@) {
        Some(range) => match range.field("start"@) {
            Some(start) => match start.field("character"@) {
                Some(v) => v.unsigned(),
                None => None,
            },
            None => None,
        },
        None => None,
    }
}

/// One remark of a server, where it says which place it is about.
pub open spec fn remark_of(d: JsonView) -> Option<DiagnosticView> {
    match (line_of(d), column_of(d)) {
        (Some(line), Some(column)) => Some(
            DiagnosticView {
                line: counted_from_one(line) as u32,
                column: counted_from_one(column) as u32,
                severity: match Severity::of_code(
                    match d.field("severity"@) {
                        Some(v) => v.signed(),
                        None => None,
                    },
                ) {
                    Some(s) => s,
                    None => Severity::Error,
                },
                message: match d.text_field("message"@) {
                    Some(m) => m,
                    None => ""@,
                },
            },
        ),
        _ => None,
    }
}

/// The place of a remark can be counted from one.
pub open spec fn place_fits(d: JsonView) -> bool {
    match line_of(d) {
        Some(line) => counted_from_one(line) <= u32::MAX && (match column_of(d) {
            Some(column) => counted_from_one(column) <= u32::MAX,
            None => true,
        }),
        None => true,
    }
}

/// The first `n` remarks all say which place they are about.
pub open spec fn all_placed(items: Seq<JsonView>, n: int) -> bool {
    forall|j: int| 0 <= j < n ==> remark_of(#[trigger] items[j]) is Some
}

/// The remarks that a message holds, as the server wrote them.
pub open spec fn raw_remarks(message: JsonView) -> Option<(Seq<char>, Seq<JsonView>)> {
    match message.field("params"@) {
        Some(params) => match params.text_field("uri"@) {
            Some(uri) => match without_prefix(uri, "file://"@) {
                Some(path) => match params.items_field("diagnostics"@) {
                    Some(items) => Some((path, items)),
                    None => None,
                },
                None => None,
            },
            None => None,
        },
        None => None,
    }
}

/// Every place that is reached when the remarks of a message are read in order,
/// up to the first without a place, can be counted from one.
pub open spec fn places_fit(message: JsonView) -> bool {
    match raw_remarks(message) {
        Some((_, items)) => remarks_fit(items),
        None => true,
    }
}

/// Every place up to the first remark without one can be counted from one.
pub open spec fn remarks_fit(items: Seq<JsonView>) -> bool {
    forall|i: int|
        0 <= i < items.len() && all_placed(items, i) ==> place_fits(#[trigger] items[i])
}

/// The remarks of a message about one file; nothing where one of them does not
/// say which place it is about.
pub open spec fn published(message: JsonView) -> Option<(Seq<char>, Seq<DiagnosticView>)> {
    match raw_remarks(message) {
        Some((path, items)) => if all_placed(items, items.len() as int) {
            Some((path, items.map_values(|d: JsonView| remark_of(d)->0)))
        } else {
            None
        },
        None => None,
    }
}

fn start_of(d: &Json) -> (r: Option<&Json>)
    ensures
        opt_view(r) == (match d@.field("range"@) {
            Some(range) => range.field("start"@),
            None => None,
        }),
{
    match d.get("range") {
        Some(range) => range.get("start"),
        None => None,
    }
}

/// The view of a value, where there is one.
pub open spec fn opt_view(v: Option<&Json>) -> Option<JsonView> {
    match v {
        Some(j) => Some(j@),
        None => None,
    }
}

fn line_and_column(d: &Json) -> (r: (Option<u64>, Option<u64>))
    ensures
        r.0 == line_of(d@),
        r.1 == column_of(d@),
{
    match start_of(d) {
        Some(start) => {
            let line = match start.get("line") {
                Some(v) => v.as_u64(),
                None => None,
            };
            let column = match start.get("character") {
                Some(v) => v.as_u64(),
                None => None,
            };
            (line, column)
        },
        None => (None, None),
    }
}

fn count_from_one(n: u64) -> (r: Option<u32>)
    ensures
        match r {
            Some(m) => m == counted_from_one(n),
            None => counted_from_one(n) > u32::MAX,
        },
{
    let cut: u64 = n % 0x1_0000_0000;
    if cut == 0xffff_ffff {
        None
    } else {
        Some((cut + 1) as u32)
    }
}

fn raw_parts(message: &Json) -> (r: Option<(String, &Vec<Json>)>)
    ensures
        match r {
            Some((path, items)) => raw_remarks(message@) == Some(
                (path@, crate::json::json_views(items@)),
            ),
            None => raw_remarks(message@) is None,
        },
{
    let params = match message.get("params") {
        Some(p) => p,
        None => return None,
    };
    let uri = match params.get_str("uri") {
        Some(u) => u,
        None => return None,
    };
    let path = match path_from_uri(uri) {
        Some(p) => p,
        None => return None,
    };
    match params.get_array("diagnostics") {
        Some(items) => Some((path, items)),
        None => None,
    }
}

/// Whether every place in a message can be counted from one.
pub fn message_places_fit(message: &Json) -> (r: bool)
    ensures
        r == places_fit(message@),
{
    let (path, items) = match raw_parts(message) {
        Some(parts) => parts,
        None => return true,
    };
    let ghost all = crate::json::json_views(items@);
    proof {
        crate::json::lemma_json_views(items@);
    }
    let mut i: usize = 0;
    while i < items.len()
        invariant
            i <= items@.len(),
            all == crate::json::json_views(items@),
            all.len() == items@.len(),
            forall|k: int| 0 <= k < all.len() ==> all[k] == (#[trigger] items@[k])@,
            raw_remarks(message@) == Some((path@, all)),
            all_placed(all, i as int),
            forall|k: int| 0 <= k < i ==> place_fits(#[trigger] all[k]),
        decreases items@.len() - i,
    {
        assert(all[i as int] == items@[i as int]@);
        let (line, column) = line_and_column(&items[i]);
        match line {
            Some(n) => {
                if count_from_one(n).is_none() {
                    assert(!place_fits(all[i as int]));
                    assert(!remarks_fit(all));
                    return false;
                }
                match column {
                    Some(m) => {
                        if count_from_one(m).is_none() {
                            assert(!place_fits(all[i as int]));
                            assert(!remarks_fit(all));
                            return false;
                        }
                    },
                    None => {
                        assert(remark_of(all[i as int]) is None);
                        return true;
                    },
                }
            },
            None => {
                assert(remark_of(all[i as int]) is None);
                return true;
            },
        }
        i += 1;
    }
    true
}

/// The remarks of a message about one file.
pub fn parse_publish_diagnostics(message: &Json) -> (r: Option<(String, Vec<Diagnostic>)>)
    requires
        places_fit(message@),
    ensures
        match r {
            Some((path, items)) => published(message@) == Some((path@, diagnostic_views(items@))),
            None => published(message@) is None,
        },
{
    let (path, items) = match raw_parts(message) {
        Some(parts) => parts,
        None => return None,
    };
    let ghost all = crate::json::json_views(items@);
    proof {
        crate::json::lemma_json_views(items@);
    }
    let mut out: Vec<Diagnostic> = Vec::new();
    let mut i: usize = 0;
    while i < items.len()
        invariant
            i <= items@.len(),
            all == crate::json::json_views(items@),
            all.len() == items@.len(),
            forall|k: int| 0 <= k < all.len() ==> all[k] == (#[trigger] items@[k])@,
            raw_remarks(message@) == Some((path@, all)),
            places_fit(message@),
            all_placed(all, i as int),
            out@.len() == i,
            forall|k: int|
                0 <= k < i ==> Some((#[trigger] out@[k])@) == remark_of(all[k]),
        decreases items@.len() - i,
    {
        let d = &items[i];
        assert(all[i as int] == d@);
        assert(place_fits(all[i as int]));
        let (line, column) = line_and_column(d);
        let line = match line {
            Some(n) => match count_from_one(n) {
                Some(m) => m,
                None => return None,
            },
            None => {
                assert(!all_placed(all, all.len() as int));
                return None;
            },
        };
        let column = match column {
            Some(n) => match count_from_one(n) {
                Some(m) => m,
                None => return None,
            },
            None => {
                assert(!all_placed(all, all.len() as int));
                return None;
            },
        };
        let code = match d.get("severity") {
            Some(v) => v.as_i64(),
            None => None,
        };
        let severity = match Severity::from_lsp(code) {
            Some(s) => s,
            None => Severity::Error,
        };
        let message_text = match d.get_str("message") {
            Some(m) => m.to_owned(),
            None => "".to_owned(),
        };
        out.push(Diagnostic { line, column, severity, message: message_text });
        i += 1;
    }
    proof {
        assert(diagnostic_views(out@) =~= all.map_values(|d: JsonView| remark_of(d)->0));
    }
    Some((path, out))
}

/// What a message of a server asks for.
#[derive(Debug)]
pub enum Incoming {
    /// Remarks about a file, to be handed on.
    Diagnostics { path: String, items: Vec<Diagnostic> },
    /// The answer to a request of that number.
    Answer { id: i64 },
    /// Nothing.
    Ignored,
}

/// Sorts a message of a server: remarks about a file, the answer to a request,
/// or neither.
pub fn dispatch(message: &Json) -> (r: Incoming)
    requires
        message@.text_field("method"@) == Some("textDocument/publishDiagnostics"@) ==> places_fit(
            message@,
        ),
    ensures
        ({
            let is_remark = message@.text_field("method"@) == Some(
                "textDocument/publishDiagnostics"@,
            );
            let id = match message@.field("id"@) {
                Some(v) => v.signed(),
                None => None,
            };
            match r {
                Incoming::Diagnostics { path, items } => is_remark && published(message@) == Some(
                    (path@, diagnostic_views(items@)),
                ),
                Incoming::Answer { id: n } => !is_remark && id == Some(n),
                Incoming::Ignored => if is_remark {
                    published(message@) is None
                } else {
                    id is None
                },
            }
        }),
{
    if let Some(method) = message.get_str("method") {
        if crate::text::same_text(method, "textDocument/publishDiagnostics") {
            return match parse_publish_diagnostics(message) {
                Some((path, items)) => Incoming::Diagnostics { path, items },
                None => Incoming::Ignored,
            };
        }
    }
    let id = match message.get("id") {
        Some(v) => v.as_i64(),
        None => None,
    };
    match id {
        Some(n) => Incoming::Answer { id: n },
        None => Incoming::Ignored,
    }
}

/// The request that opens a session.
pub open spec fn initialize_view(process_id: u32, root: Seq<char>) -> JsonView {
    let publish = JsonView::Object(seq![("relatedInformation"@, JsonView::Bool(false))]);
    let document = JsonView::Object(seq![("publishDiagnostics"@, publish)]);
    let capabilities = JsonView::Object(seq![("textDocument"@, document)]);
    let folder = JsonView::Object(
        seq![("name"@, JsonView::Str("workspace"@)), ("uri"@, JsonView::Str(root))],
    );
    let params = JsonView::Object(
        seq![
            ("capabilities"@, capabilities),
            ("processId"@, JsonView::PosInt(process_id as u64)),
            ("rootUri"@, JsonView::Str(root)),
            ("workspaceFolders"@, JsonView::Array(seq![folder])),
        ],
    );
    JsonView::Object(
        seq![
            ("id"@, JsonView::PosInt(1)),
            ("jsonrpc"@, JsonView::Str("2.0"@)),
            ("method"@, JsonView::Str("initialize"@)),
            ("params"@, params),
        ],
    )
}

fn array_of(item: Json) -> (r: Json)
    ensures
        r@ == JsonView::Array(seq![item@]),
{
    let items: Vec<Json> = vec![item];
    proof {
        crate::json::lemma_json_views(items@);
        assert(crate::json::json_views(items@) =~= seq![item@]);
    }
    Json::Array(items)
}

fn object4(k1: &str, v1: Json, k2: &str, v2: Json, k3: &str, v3: Json, k4: &str, v4: Json) -> (r:
    Json)
    ensures
        r@ == JsonView::Object(seq![(k1@, v1@), (k2@, v2@), (k3@, v3@), (k4@, v4@)]),
{
    let members: Vec<(String, Json)> = vec![
        (k1.to_owned(), v1),
        (k2.to_owned(), v2),
        (k3.to_owned(), v3),
        (k4.to_owned(), v4),
    ];
    proof {
        crate::json::lemma_member_views(members@);
        assert(crate::json::member_views(members@) =~= seq![
            (k1@, v1@),
            (k2@, v2@),
            (k3@, v3@),
            (k4@, v4@),
        ]);
    }
    Json::Object(members)
}

/// The request that opens a session, about the workspace with the address
/// `root`.
pub fn initialize_request(process_id: u32, root: &str) -> (r: Json)
    ensures
        r@ == initialize_view(process_id, root@),
{
    let publish = object1("relatedInformation", Json::Bool(false));
    let document = object1("publishDiagnostics", publish);
    let capabilities = object1("textDocument", document);
    let folder = object2("name", text_value("workspace"), "uri", text_value(root));
    let params = object4(
        "capabilities",
        capabilities,
        "processId",
        Json::PosInt(process_id as u64),
        "rootUri",
        text_value(root),
        "workspaceFolders",
        array_of(folder),
    );
    object4(
        "id",
        Json::PosInt(1),
        "jsonrpc",
        text_value("2.0"),
        "method",
        text_value("initialize"),
        "params",
        params,
    )
}

/// A note to a server: a message that wants no answer.
pub open spec fn note_view(method: Seq<char>, params: JsonView) -> JsonView {
    JsonView::Object(
        seq![
            ("jsonrpc"@, JsonView::Str("2.0"@)),
            ("method"@, JsonView::Str(method)),
            ("params"@, params),
        ],
    )
}

fn note(method: &str, params: Json) -> (r: Json)
    ensures
        r@ == note_view(method@, params@),
{
    object3("jsonrpc", text_value("2.0"), "method", text_value(method), "params", params)
}

/// The note that a session is open.
pub fn initialized_note() -> (r: Json)
    ensures
        r@ == note_view("initialized"@, JsonView::Object(Seq::empty())),
{
    let members: Vec<(String, Json)> = Vec::new();
    proof {
        crate::json::lemma_member_views(members@);
        assert(crate::json::member_views(members@) =~= Seq::empty());
    }
    note("initialized", Json::Object(members))
}

/// The note that a document is opened.
pub open spec fn open_view(
    language_id: Seq<char>,
    uri: Seq<char>,
    version: nat,
    text: Seq<char>,
) -> JsonView {
    let document = JsonView::Object(
        seq![
            ("languageId"@, JsonView::Str(language_id)),
            ("text"@, JsonView::Str(text)),
            ("uri"@, JsonView::Str(uri)),
            ("version"@, JsonView::PosInt(version as u64)),
        ],
    );
    note_view("textDocument/didOpen"@, JsonView::Object(seq![("textDocument"@, document)]))
}

/// The note that a document was changed.
pub open spec fn change_view(uri: Seq<char>, version: nat, text: Seq<char>) -> JsonView {
    let change = JsonView::Object(seq![("text"@, JsonView::Str(text))]);
    let document = JsonView::Object(
        seq![("uri"@, JsonView::Str(uri)), ("version"@, JsonView::PosInt(version as u64))],
    );
    note_view(
        "textDocument/didChange"@,
        JsonView::Object(
            seq![("contentChanges"@, JsonView::Array(seq![change])), ("textDocument"@, document)],
        ),
    )
}

/// The documents that a server has open, each with the number of its last
/// version.
#[derive(Debug)]
pub struct OpenDocuments {
    language_id: String,
    opened: Vec<(String, u64)>,
}

/// The place of the entry for a path.
spec fn open_at(opened: Seq<(String, u64)>, path: Seq<char>, from: int) -> Option<int>
    decreases opened.len() - from,
{
    if from < 0 || from >= opened.len() {
        None
    } else if crate::paths::same_place(opened[from].0@, path) {
        Some(from)
    } else {
        open_at(opened, path, from + 1)
    }
}

proof fn lemma_open_at(opened: Seq<(String, u64)>, path: Seq<char>, from: int)
    requires
        0 <= from,
    ensures
        match open_at(opened, path, from) {
            Some(i) => from <= i < opened.len() && crate::paths::same_place(opened[i].0@, path)
                && forall|j: int|
                from <= j < i ==> !crate::paths::same_place(#[trigger] opened[j].0@, path),
            None => forall|j: int|
                from <= j < opened.len() ==> !crate::paths::same_place(
                    #[trigger] opened[j].0@,
                    path,
                ),
        },
    decreases opened.len() - from,
{
    if from < opened.len() && !crate::paths::same_place(opened[from].0@, path) {
        lemma_open_at(opened, path, from + 1);
    }
}

proof fn lemma_open_at_is(opened: Seq<(String, u64)>, path: Seq<char>, from: int, i: int)
    requires
        0 <= from <= i < opened.len(),
        crate::paths::same_place(opened[i].0@, path),
        forall|j: int| from <= j < i ==> !crate::paths::same_place(#[trigger] opened[j].0@, path),
    ensures
        open_at(opened, path, from) == Some(i),
{
    lemma_open_at(opened, path, from);
}

proof fn lemma_same_paths(a: Seq<(String, u64)>, b: Seq<(String, u64)>, path: Seq<char>, from: int)
    requires
        0 <= from,
        a.len() == b.len(),
        forall|j: int| 0 <= j < a.len() ==> (#[trigger] a[j]).0@ == b[j].0@,
    ensures
        open_at(a, path, from) == open_at(b, path, from),
    decreases a.len() - from,
{
    if from < a.len() {
        assert(a[from].0@ == b[from].0@);
        lemma_same_paths(a, b, path, from + 1);
    }
}

/// The number of the version that follows.
pub open spec fn next_version(last: Option<u64>) -> Option<u64> {
    match last {
        Some(n) => Some((n + 1) as u64),
        None => Some(1),
    }
}

impl OpenDocuments {
    /// The name of the language of the documents.
    pub closed spec fn language(self) -> Seq<char> {
        self.language_id@
    }

    /// The number of the last version of a document that is open.
    pub closed spec fn version(self, path: Seq<char>) -> Option<u64> {
        match open_at(self.opened@, path, 0) {
            Some(i) => Some(self.opened@[i].1),
            None => None,
        }
    }

    /// No document is open.
    pub fn new(language_id: &str) -> (r: Self)
        ensures
            r.language() == language_id@,
            forall|path: Seq<char>| #[trigger] r.version(path) is None,
    {
        OpenDocuments { language_id: language_id.to_owned(), opened: Vec::new() }
    }

    fn place_of(&self, path: &str) -> (r: Option<usize>)
        ensures
            match r {
                Some(i) => open_at(self.opened@, path@, 0) == Some(i as int),
                None => open_at(self.opened@, path@, 0) is None,
            },
    {
        let mut i: usize = 0;
        while i < self.opened.len()
            invariant
                i <= self.opened@.len(),
                forall|j: int|
                    0 <= j < i ==> !crate::paths::same_place(#[trigger] self.opened@[j].0@, path@),
            decreases self.opened@.len() - i,
        {
            if crate::paths::same_path(self.opened[i].0.as_str(), path) {
                proof {
                    lemma_open_at_is(self.opened@, path@, 0, i as int);
                }
                return Some(i);
            }
            i += 1;
        }
        proof {
            lemma_open_at(self.opened@, path@, 0);
        }
        None
    }

    /// The number of the last version of a document, where it is open.
    pub fn last_version(&self, path: &str) -> (r: Option<u64>)
        ensures
            r == self.version(path@),
    {
        proof {
            lemma_open_at(self.opened@, path@, 0);
        }
        match self.place_of(path) {
            Some(i) => Some(self.opened[i].1),
            None => None,
        }
    }

    /// Notes a new text of a document, and gives what the server is told: that
    /// the document is opened the first time, and that it was changed later.
    pub fn update(&mut self, path: &str, uri: &str, text: &str) -> (r: Json)
        requires
            old(self).version(path@) matches Some(n) ==> n < i64::MAX,
        ensures
            r@ == (match old(self).version(path@) {
                None => open_view(old(self).language(), uri@, 1, text@),
                Some(n) => change_view(uri@, (n + 1) as nat, text@),
            }),
            final(self).language() == old(self).language(),
            forall|other: Seq<char>| #[trigger]
                final(self).version(other) == if crate::paths::same_place(other, path@) {
                    next_version(old(self).version(path@))
                } else {
                    old(self).version(other)
                },
    {
        let ghost before = self.opened@;
        proof {
            lemma_open_at(before, path@, 0);
        }
        if let Some(i) = self.place_of(path) {
            let version: u64 = self.opened[i].1 + 1;
            let name = self.opened[i].0.clone();
            self.opened.set(i, (name, version));
            proof {
                assert forall|other: Seq<char>| #[trigger]
                    self.version(other) == if crate::paths::same_place(other, path@) {
                        next_version(old(self).version(path@))
                    } else {
                        old(self).version(other)
                    } by {
                    lemma_same_paths(self.opened@, before, other, 0);
                    lemma_open_at(before, other, 0);
                    if crate::paths::same_place(other, path@) {
                        lemma_open_at_is(before, other, 0, i as int);
                    }
                }
            }
            let change = object1("text", text_value(text));
            let document = object2("uri", text_value(uri), "version", Json::PosInt(version));
            let params = object2("contentChanges", array_of(change), "textDocument", document);
            return note("textDocument/didChange", params);
        }
        self.opened.push((path.to_owned(), 1));
        proof {
            lemma_open_at(before, path@, 0);
            let after = self.opened@;
            assert forall|other: Seq<char>| #[trigger]
                self.version(other) == if crate::paths::same_place(other, path@) {
                    next_version(old(self).version(path@))
                } else {
                    old(self).version(other)
                } by {
                lemma_open_at(before, other, 0);
                lemma_open_at(after, other, 0);
                assert forall|j: int| 0 <= j < before.len() implies (#[trigger] after[j])
                    == before[j] by {}
                match open_at(before, other, 0) {
                    Some(k) => {
                        assert(after[k] == before[k]);
                        lemma_open_at_is(after, other, 0, k);
                    },
                    None => {
                        if crate::paths::same_place(other, path@) {
                            assert(after[before.len() as int].0@ == path@);
                            lemma_open_at_is(after, other, 0, before.len() as int);
                        }
                    },
                }
            }
        }
        let document = object4(
            "languageId",
            text_value(self.language_id.as_str()),
            "text",
            text_value(text),
            "uri",
            text_value(uri),
            "version",
            Json::PosInt(1),
        );
        note("textDocument/didOpen", object1("textDocument", document))
    }
}

} // verus!
