//! Just enough of HTTP for the pages of end-to-end runs: what a request asks
//! for, and the text of a response.

use crate::scan::{
    lines, lines_are_parted_by_line_feeds, second_word, second_word_of, second_words_are_found,
    str_views, text_lines, unbroken,
};
use crate::text::{
    all_white, ascii_white_space, decimal, decimal_reads_back, only_digits_are_read,
    parsed_decimal, push_decimal, white_space,
};
use vstd::prelude::*;
use vstd::utf8::encode_utf8;

verus! {

/// What a request asks for: the second word of its first line, or the root for
/// want of one.
pub open spec fn target(request: Seq<char>) -> Seq<char> {
    let found = text_lines(request);
    if found.len() > 0 {
        match second_word(found[0]) {
            Some(word) => word,
            None => "/"@,
        }
    } else {
        "/"@
    }
}

/// What a request asks for: the second word of its first line, or the root for
/// want of one.
pub fn request_target(request: &str) -> (r: &str)
    ensures
        r@ == target(request@),
{
    let found = lines(request);
    assert(str_views(found@).len() == found@.len());
    if found.len() > 0 {
        let first = found[0];
        assert(str_views(found@)[0] == first@);
        match second_word_of(first) {
            Some(word) => word,
            None => "/",
        }
    } else {
        "/"
    }
}

/// Header lines, each with its line end.
pub open spec fn header_lines(headers: Seq<Seq<char>>) -> Seq<char>
    decreases headers.len(),
{
    if headers.len() == 0 {
        Seq::empty()
    } else {
        header_lines(headers.drop_last()) + headers.last() + "\r\n"@
    }
}

/// All of a response that comes before a body of so many bytes.
pub open spec fn head(status: Seq<char>, headers: Seq<Seq<char>>, length: nat) -> Seq<char> {
    "HTTP/1.1 "@ + status + "\r\n"@ + header_lines(headers) + "Content-Length: "@ + decimal(length)
        + "\r\nConnection: close\r\n\r\n"@
}

/// A response.
pub open spec fn response(status: Seq<char>, headers: Seq<Seq<char>>, body: Seq<char>) -> Seq<
    char,
> {
    head(status, headers, encode_utf8(body).len()) + body
}

/// The text of a response.
pub fn http_response(status: &str, headers: &Vec<&str>, body: &str) -> (r: String)
    ensures
        r@ == response(status@, str_views(headers@), body@),
{
    let mut out = "HTTP/1.1 ".to_owned().concat(status).concat("\r\n");
    let ghost start = out@;
    let n: usize = headers.len();
    let mut i: usize = 0;
    assert(header_lines(str_views(headers@.take(0))) =~= Seq::empty());
    assert(out@ =~= start + header_lines(str_views(headers@.take(0))));
    while i < n
        invariant
            i <= n,
            n == headers@.len(),
            out@ == start + header_lines(str_views(headers@.take(i as int))),
        decreases n - i,
    {
        let line = headers[i];
        let ghost so_far = str_views(headers@.take(i as int));
        out.append(line);
        out.append("\r\n");
        assert(str_views(headers@.take(i + 1)) =~= so_far.push(line@));
        assert(so_far.push(line@).drop_last() =~= so_far);
        assert(out@ =~= start + header_lines(so_far.push(line@)));
        i = i + 1;
    }
    assert(headers@.take(n as int) =~= headers@);
    out.append("Content-Length: ");
    push_decimal(&mut out, body.as_bytes().len() as u128);
    out.append("\r\nConnection: close\r\n\r\n");
    out.append(body);
    assert(out@ =~= response(status@, str_views(headers@), body@));
    out
}

proof fn lemma_encode_parts(a: Seq<char>, b: Seq<char>)
    ensures
        encode_utf8(a + b) == encode_utf8(a) + encode_utf8(b),
    decreases a.len(),
{
    if a.len() == 0 {
        assert(a + b =~= b);
        assert(encode_utf8(a) =~= Seq::empty());
    } else {
        assert((a + b)[0] == a[0]);
        assert((a + b).drop_first() =~= a.drop_first() + b);
        lemma_encode_parts(a.drop_first(), b);
        assert(encode_utf8(a + b) =~= encode_utf8(a) + encode_utf8(b));
    }
}

/// Of the bytes of a response, as many as its head announces are those of the
/// body, and they come last.
pub proof fn announced_bytes_are_the_body(
    status: Seq<char>,
    headers: Seq<Seq<char>>,
    body: Seq<char>,
)
    ensures
        ({
            let length = encode_utf8(body).len();
            let bytes = encode_utf8(response(status, headers, body));
            bytes == encode_utf8(head(status, headers, length)) + encode_utf8(body)
                && bytes.skip(bytes.len() - length) == encode_utf8(body)
        }),
{
    let length = encode_utf8(body).len();
    let start = head(status, headers, length);
    lemma_encode_parts(start, body);
    let bytes = encode_utf8(start) + encode_utf8(body);
    assert(bytes.skip(bytes.len() - length) =~= encode_utf8(body));
}

/// A request asks for what stands between its method and the version, whatever
/// follows the first line.
pub proof fn requests_name_their_target(
    method: Seq<char>,
    path: Seq<char>,
    version: Seq<char>,
    rest: Seq<char>,
)
    requires
        method.len() > 0,
        unbroken(method),
        path.len() > 0,
        unbroken(path),
        !version.contains('\n'),
    ensures
        target(method + seq![' '] + path + seq![' '] + version + seq!['\r', '\n'] + rest) == path,
        target(method + seq![' '] + path) == path,
{
    ascii_white_space(' ');
    ascii_white_space('\n');
    let end = seq![' '] + version;
    let line = method + seq![' '] + path + seq![' '] + version;
    assert(line =~= Seq::empty() + method + seq![' '] + path + end);
    lemma_no_line_feed(method);
    lemma_no_line_feed(path);
    assert forall|i: int| 0 <= i < line.len() implies line[i] != '\n' by {
        let a = method.len() as int;
        let b = path.len() as int;
        if i < a {
            assert(method.contains(method[i]));
            assert(line[i] == method[i]);
        } else if a < i < a + 1 + b {
            assert(path.contains(path[i - a - 1]));
            assert(line[i] == path[i - a - 1]);
        } else if i > a + 1 + b {
            assert(version.contains(version[i - a - b - 2]));
            assert(line[i] == version[i - a - b - 2]);
        }
    }
    lines_are_parted_by_line_feeds(line, rest);
    second_words_are_found(Seq::empty(), method, seq![' '], path, end);
    let short = method + seq![' '] + path;
    assert forall|i: int| 0 <= i < short.len() implies short[i] != '\n' by {
        let a = method.len() as int;
        if i < a {
            assert(method.contains(method[i]));
        } else if a < i {
            assert(path.contains(path[i - a - 1]));
        }
    }
    lines_are_parted_by_line_feeds(short, Seq::empty());
    assert(short =~= Seq::empty() + method + seq![' '] + path + Seq::empty());
    second_words_are_found(Seq::empty(), method, seq![' '], path, Seq::empty());
}

proof fn lemma_no_line_feed(s: Seq<char>)
    requires
        unbroken(s),
    ensures
        !s.contains('\n'),
{
    ascii_white_space('\n');
    if s.contains('\n') {
        let i = choose|i: int| 0 <= i < s.len() && s[i] == '\n';
        assert(!white_space(s[i]));
    }
}

/// A request that names no target asks for the root.
pub proof fn requests_without_a_target_ask_for_the_root(
    before: Seq<char>,
    word: Seq<char>,
    after: Seq<char>,
    rest: Seq<char>,
)
    requires
        all_white(before),
        unbroken(word),
        all_white(after),
        !before.contains('\n'),
        !after.contains('\n'),
    ensures
        target(before + word + after + seq!['\r', '\n'] + rest) == "/"@,
        target(Seq::empty()) == "/"@,
{
    let line = before + word + after;
    lemma_no_line_feed(word);
    assert forall|i: int| 0 <= i < line.len() implies line[i] != '\n' by {
        let a = before.len() as int;
        let b = word.len() as int;
        if i < a {
            assert(before.contains(before[i]));
        } else if i < a + b {
            assert(word.contains(word[i - a]));
        } else {
            assert(after.contains(after[i - a - b]));
        }
    }
    lines_are_parted_by_line_feeds(line, rest);
    crate::scan::single_words_have_no_second(before, word, after);
}

proof fn lemma_lines_of_headers(headers: Seq<Seq<char>>, rest: Seq<char>)
    requires
        forall|i: int| 0 <= i < headers.len() ==> !(#[trigger] headers[i]).contains('\n'),
    ensures
        text_lines(header_lines(headers) + rest) == headers + text_lines(rest),
    decreases headers.len(),
{
    reveal_strlit("\r\n");
    if headers.len() == 0 {
        assert(header_lines(headers) + rest =~= rest);
        assert(headers + text_lines(rest) =~= text_lines(rest));
    } else {
        let earlier = headers.drop_last();
        let line = headers.last();
        assert(!headers[headers.len() - 1].contains('\n'));
        let more = line + seq!['\r', '\n'] + rest;
        assert("\r\n"@ =~= seq!['\r', '\n']);
        assert(header_lines(headers) + rest =~= header_lines(earlier) + more);
        assert forall|i: int| 0 <= i < earlier.len() implies !(#[trigger] earlier[i]).contains('\n') by {
            assert(earlier[i] == headers[i]);
        }
        lemma_lines_of_headers(earlier, more);
        lines_are_parted_by_line_feeds(line, rest);
        assert(earlier + (seq![line] + text_lines(rest)) =~= headers + text_lines(rest));
    }
}

/// The lines before a body are the status, the headers, the number of the body's
/// bytes, so that it reads back, that the connection ends, and an empty one; the
/// body follows, as it is.
pub proof fn responses_are_laid_out(status: Seq<char>, headers: Seq<Seq<char>>, body: Seq<char>)
    requires
        !status.contains('\n'),
        forall|i: int| 0 <= i < headers.len() ==> !(#[trigger] headers[i]).contains('\n'),
    ensures
        exists|first: Seq<char>, digits: Seq<char>|
            {
                &&& response(status, headers, body) == #[trigger] (first + body)
                &&& text_lines(first) == seq!["HTTP/1.1 "@ + status] + headers + seq![
                    #[trigger] ("Content-Length: "@ + digits),
                    "Connection: close"@,
                    ""@,
                ]
                &&& parsed_decimal(digits, encode_utf8(body).len()) == Some(encode_utf8(body).len())
            },
{
    let length = encode_utf8(body).len();
    let digits = decimal(length);
    decimal_reads_back(length, length);
    only_digits_are_read(digits, length, length, length);
    let first = head(status, headers, length);
    reveal_strlit("HTTP/1.1 ");
    reveal_strlit("\r\n");
    reveal_strlit("Content-Length: ");
    reveal_strlit("\r\nConnection: close\r\n\r\n");
    reveal_strlit("Connection: close");
    reveal_strlit("");
    let opening = "HTTP/1.1 "@ + status;
    let announced = "Content-Length: "@ + digits;
    let closing = "Connection: close"@;
    let end = seq!['\r', '\n'];
    let empty = Seq::<char>::empty();
    let last = empty + end + empty;
    let then = closing + end + last;
    let rest = announced + end + then;
    assert(first =~= opening + end + (header_lines(headers) + rest));
    assert forall|i: int| 0 <= i < opening.len() implies opening[i] != '\n' by {
        if i >= 9 {
            assert(status.contains(status[i - 9]));
        }
    }
    assert forall|i: int| 0 <= i < announced.len() implies announced[i] != '\n' by {
        if i >= 16 {
            assert(announced[i] == digits[i - 16]);
        }
    }
    lines_are_parted_by_line_feeds(opening, header_lines(headers) + rest);
    lemma_lines_of_headers(headers, rest);
    lines_are_parted_by_line_feeds(announced, then);
    lines_are_parted_by_line_feeds(closing, last);
    lines_are_parted_by_line_feeds(empty, empty);
    assert(""@ =~= empty);
    assert(text_lines(first) =~= seq![opening] + headers + seq![announced, closing, ""@]);
    assert(response(status, headers, body) == first + body);
}

} // verus!
